//! One poll cycle of a device: classify the per-register read results, encode
//! every successfully read value into line protocol, and produce the single
//! PollOutcome handed to the health aggregator.
//!
//! Deliberate policy, preserved here by construction: the outcome is a
//! function of the field-read results alone. The sink's verdict on the
//! forwarded payload is never an input to anything in this module, so sink
//! failures cannot move the health counter.

use vstd::prelude::*;
use crate::cancel::CancellationToken;
use crate::device::Device;
use crate::encode::line_enc;

verus! {

/// What a poller does at an observation point of the cancellation token.
#[derive(Clone, Copy, PartialEq, Eq, Structural, Debug)]
pub enum PollerAction {
    /// Acquire the transport guard and issue this device's register read.
    AcquireAndRead,
    /// Leave the loop and acknowledge to the shutdown coordinator.
    Exit,
}

/// The action a poller takes after observing the token: read while unset,
/// exit as soon as it is set.
pub open spec fn step_action(cancelled: bool) -> PollerAction {
    if cancelled {
        PollerAction::Exit
    } else {
        PollerAction::AcquireAndRead
    }
}

/// Decide the poller's next move from the token. Called before every
/// transport acquisition and after every interruptible wait, so a set token
/// is observed at the next observation point, not after a full scan interval.
pub fn poller_step(token: &CancellationToken) -> (a: PollerAction)
    ensures
        a == step_action(token.cancelled),
        a is Exit <==> token.cancelled,
{
    if token.is_cancelled() {
        PollerAction::Exit
    } else {
        PollerAction::AcquireAndRead
    }
}

/// Once the latch is set it stays set, so from the first observation of
/// cancellation on, no poller step is a transport acquisition: after the
/// shutdown trigger, every later observation decides Exit.
pub proof fn lemma_no_read_after_cancel(observations: Seq<bool>, k: int)
    requires
        0 <= k <= observations.len(),
        forall|j: int| k <= j < observations.len() ==> observations[j],
    ensures
        forall|j: int|
            k <= j < observations.len() ==> step_action(#[trigger] observations[j]) is Exit,
{
}

/// One device's per-cycle report to the health aggregator: consumed exactly
/// once.
pub struct PollOutcome {
    /// Which device the cycle belongs to.
    pub device_id: u64,
    /// Whether every register of the cycle was read.
    pub success: bool,
    /// The addresses whose individual reads failed, in cycle order.
    pub failed_addresses: Vec<u16>,
}

/// Everything one poll cycle produces.
pub struct CycleReport {
    /// A whole multi-sensor group yielded zero usable readings: escalates to
    /// the lifecycle manager, independent of the health threshold.
    pub fatal: bool,
    /// The concatenated lines of every successfully read register; sent to
    /// the sink as one payload.
    pub payload: Vec<u8>,
    /// The outcome handed to the health aggregator.
    pub outcome: PollOutcome,
}

/// Whether every read of the cycle failed.
pub open spec fn all_failed(rs: Seq<(u16, Option<u16>)>) -> bool {
    forall|j: int| 0 <= j < rs.len() ==> (#[trigger] rs[j]).1 is None
}

/// The addresses that individually failed, in cycle order.
pub open spec fn failed_of(rs: Seq<(u16, Option<u16>)>) -> Seq<u16>
    decreases rs.len(),
{
    if rs.len() == 0 {
        Seq::empty()
    } else {
        failed_of(rs.drop_last()) + (if rs.last().1 is None {
            seq![rs.last().0]
        } else {
            Seq::empty()
        })
    }
}

/// The cycle's payload: one line per successfully read register whose address
/// the device's register map names, in cycle order; failed registers
/// contribute no line.
pub open spec fn spec_cycle_payload(dev: Device, rs: Seq<(u16, Option<u16>)>, ts: u64) -> Seq<u8>
    decreases rs.len(),
{
    if rs.len() == 0 {
        Seq::empty()
    } else {
        spec_cycle_payload(dev, rs.drop_last(), ts) + (match rs.last().1 {
            Some(v) => (match dev.registers.name_of(rs.last().0) {
                Some(name) => line_enc(name, dev.spec_line_tags(rs.last().0), v as u64, ts),
                None => Seq::empty(),
            }),
            None => Seq::empty(),
        })
    }
}

/// A cycle in which every read failed forwards no lines.
pub proof fn lemma_all_failed_no_lines(dev: Device, rs: Seq<(u16, Option<u16>)>, ts: u64)
    requires
        all_failed(rs),
    ensures
        spec_cycle_payload(dev, rs, ts) =~= Seq::<u8>::empty(),
    decreases rs.len(),
{
    if rs.len() > 0 {
        assert(forall|j: int| 0 <= j < rs.len() - 1 ==> rs.drop_last()[j] == rs[j]);
        lemma_all_failed_no_lines(dev, rs.drop_last(), ts);
    }
}

/// Process the results of one poll cycle, entirely outside the transport
/// lock. The outcome depends on the read results alone; classification
/// follows the failure policy: a multi-sensor cycle with zero usable
/// readings is a connection-level fault, a partially failed cycle is not.
pub fn process_cycle(dev: &Device, results: &Vec<(u16, Option<u16>)>, timestamp: u64) -> (rep:
    CycleReport)
    requires
        results@.len() > 0,
    ensures
        rep.outcome.device_id == dev.id,
        rep.outcome.failed_addresses@ =~= failed_of(results@),
        rep.outcome.success <==> failed_of(results@).len() == 0,
        rep.fatal <==> (results@.len() >= 2 && all_failed(results@)),
        rep.payload@ =~= spec_cycle_payload(*dev, results@, timestamp),
        all_failed(results@) ==> rep.payload@ =~= Seq::<u8>::empty(),
{
    proof {
        if all_failed(results@) {
            lemma_all_failed_no_lines(*dev, results@, timestamp);
        }
    }
    let mut payload: Vec<u8> = Vec::new();
    let mut failed: Vec<u16> = Vec::new();
    let mut any_ok = false;
    let mut i: usize = 0;
    while i < results.len()
        invariant
            0 <= i <= results@.len(),
            payload@ =~= spec_cycle_payload(*dev, results@.take(i as int), timestamp),
            failed@ =~= failed_of(results@.take(i as int)),
            any_ok <==> !all_failed(results@.take(i as int)),
        decreases results@.len() - i,
    {
        proof {
            assert(results@.take(i + 1).drop_last() =~= results@.take(i as int));
            assert(results@.take(i + 1).last() == results@[i as int]);
        }
        let (addr, res) = results[i];
        match res {
            Some(v) => {
                any_ok = true;
                match dev.registers.lookup_name(addr) {
                    Some(name) => {
                        let tags = dev.tags_for(addr);
                        crate::encode::push_line(&mut payload, name, &tags, v as u64, timestamp);
                    },
                    None => {},
                }
                proof {
                    assert(!all_failed(results@.take(i + 1)));
                }
            },
            None => {
                failed.push(addr);
            },
        }
        i = i + 1;
    }
    proof {
        assert(results@.take(results@.len() as int) =~= results@);
    }
    let fatal = results.len() >= 2 && !any_ok;
    let success = failed.len() == 0;
    CycleReport {
        fatal,
        payload,
        outcome: PollOutcome { device_id: dev.id, success, failed_addresses: failed },
    }
}

} // verus!
