//! Connection lifecycle policy: the decision function of the outer
//! connect/reconnect-forever loop. The surrounding binary performs the
//! connects, runs the epoch and sleeps; this module decides, from the current
//! state and the event that arrived, what happens next. The loop never gives
//! up: every valid state-event pair yields a next state and an action, and a
//! failed connect always answers with a retry after the same fixed delay.

use vstd::prelude::*;

verus! {

/// The fixed reconnect delay, in milliseconds. Deliberately non-growing.
pub const RETRY_DELAY_MS: u64 = 2000;

/// Where the lifecycle loop stands.
#[derive(Clone, Copy, PartialEq, Eq, Structural, Debug)]
pub enum LifecycleState {
    /// No connection; the next step is a connect attempt.
    Disconnected,
    /// A connection is up and an epoch of pollers is running.
    Running,
}

/// What the outside world reported to the lifecycle loop.
#[derive(Clone, Copy, PartialEq, Eq, Structural, Debug)]
pub enum LifecycleEvent {
    /// A connect attempt succeeded.
    ConnectSucceeded,
    /// A connect attempt failed.
    ConnectFailed,
    /// The health aggregator's counter reached the threshold.
    FatalHealth,
    /// A poller reported a cycle in which a whole multi-sensor group yielded
    /// zero usable readings.
    FatalCycle,
}

/// What the lifecycle loop must do next.
#[derive(Clone, Copy, PartialEq, Eq, Structural, Debug)]
pub enum LifecycleAction {
    /// Start a fresh epoch: new health counter, new cancellation token, new
    /// poller set.
    StartEpoch,
    /// Sleep the fixed retry delay, then attempt to connect again.
    RetryAfterDelay,
    /// Drain the epoch through the shutdown coordinator, tear the connection
    /// down, then attempt to connect again.
    TeardownAndReconnect,
}

/// Which events can arrive in which state: connect results while
/// disconnected, fatal signals while running.
pub open spec fn valid_event(state: LifecycleState, event: LifecycleEvent) -> bool {
    match state {
        LifecycleState::Disconnected => event is ConnectSucceeded || event is ConnectFailed,
        LifecycleState::Running => event is FatalHealth || event is FatalCycle,
    }
}

/// One decision of the lifecycle loop. Total over all valid state-event
/// pairs, so the loop always has a next step: it retries forever and never
/// gives up.
pub fn lifecycle_step(state: LifecycleState, event: LifecycleEvent) -> (r: (
    LifecycleState,
    LifecycleAction,
))
    requires
        valid_event(state, event),
    ensures
        state is Disconnected && event is ConnectSucceeded ==> r.0 is Running && r.1
            is StartEpoch,
        state is Disconnected && event is ConnectFailed ==> r.0 is Disconnected && r.1
            is RetryAfterDelay,
        state is Running ==> r.0 is Disconnected && r.1 is TeardownAndReconnect,
{
    match (state, event) {
        (LifecycleState::Disconnected, LifecycleEvent::ConnectSucceeded) => (
            LifecycleState::Running,
            LifecycleAction::StartEpoch,
        ),
        (LifecycleState::Disconnected, _) => (
            LifecycleState::Disconnected,
            LifecycleAction::RetryAfterDelay,
        ),
        (LifecycleState::Running, _) => (
            LifecycleState::Disconnected,
            LifecycleAction::TeardownAndReconnect,
        ),
    }
}

} // verus!
