//! Shutdown coordinator: mechanism, not policy. It owns the epoch's
//! cancellation token; on trigger it sets the latch, and it reports the epoch
//! drained only once every poller has acknowledged its exit. A poller
//! acknowledges only after observing cancellation, so a drained epoch has no
//! poller left that could still touch the connection.

use vstd::prelude::*;
use crate::cancel::CancellationToken;

verus! {

/// Coordinates the teardown of one epoch's poller set.
pub struct ShutdownCoordinator {
    pub token: CancellationToken,
    pub poller_count: u64,
    pub acks: u64,
}

impl ShutdownCoordinator {
    /// Well-formedness: never more acknowledgements than pollers, and none
    /// before the latch is set.
    pub open spec fn wf(self) -> bool {
        &&& self.acks <= self.poller_count
        &&& (self.acks > 0 ==> self.token.cancelled)
    }

    /// A fresh coordinator for an epoch of `poller_count` pollers: latch
    /// unset, no acknowledgements.
    pub fn new(poller_count: u64) -> (c: ShutdownCoordinator)
        ensures
            c.wf(),
            !c.token.cancelled,
            c.poller_count == poller_count,
            c.acks == 0,
    {
        ShutdownCoordinator { token: CancellationToken::new(), poller_count, acks: 0 }
    }

    /// Broadcast cancellation: set the latch. Every poller's next observation
    /// of the token sees it set and exits instead of reading.
    pub fn trigger(&mut self)
        requires
            old(self).wf(),
        ensures
            final(self).wf(),
            final(self).token.cancelled,
            final(self).poller_count == old(self).poller_count,
            final(self).acks == old(self).acks,
    {
        self.token.cancel();
    }

    /// Record one poller's exit. A poller acknowledges only after it has
    /// observed the latch set, and each poller exactly once.
    pub fn acknowledge(&mut self)
        requires
            old(self).wf(),
            old(self).token.cancelled,
            old(self).acks < old(self).poller_count,
        ensures
            final(self).wf(),
            final(self).token == old(self).token,
            final(self).poller_count == old(self).poller_count,
            final(self).acks == old(self).acks + 1,
    {
        self.acks = self.acks + 1;
    }

    /// Whether every poller has acknowledged its exit: only then is the epoch
    /// finished and may the connection be torn down.
    pub fn drained(&self) -> (r: bool)
        ensures
            r <==> self.acks == self.poller_count,
    {
        self.acks == self.poller_count
    }
}

} // verus!
