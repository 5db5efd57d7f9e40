//! Bus-health accounting: a hysteresis counter over the stream of per-cycle
//! poll outcomes, and the escalation threshold computed from the device set.
//!
//! The counter rises by one on a failed cycle and falls by one on a successful
//! cycle, floored at zero. When it reaches the threshold the bus is declared
//! fatally unhealthy and the epoch is torn down. Only field-read outcomes are
//! fed to the counter; sink results never are.

use vstd::prelude::*;

verus! {

/// The counter value after consuming a sequence of outcomes
/// (`true` is a failed cycle, `false` a successful one), starting from zero.
pub open spec fn health_count(outcomes: Seq<bool>) -> nat
    decreases outcomes.len(),
{
    if outcomes.len() == 0 {
        0
    } else {
        let prev = health_count(outcomes.drop_last());
        if outcomes.last() {
            prev + 1
        } else if prev > 0 {
            (prev - 1) as nat
        } else {
            0
        }
    }
}

/// One step moves the counter by at most one in either direction.
pub proof fn lemma_health_count_step(outcomes: Seq<bool>)
    requires
        outcomes.len() > 0,
    ensures
        health_count(outcomes) <= health_count(outcomes.drop_last()) + 1,
        health_count(outcomes) + 1 >= health_count(outcomes.drop_last()),
{
}

/// The counter cannot pass the threshold without attaining it exactly: as long
/// as no prefix of the outcome stream has brought the counter to `threshold`,
/// the counter stays strictly below it. Together with the aggregator's latch
/// this is the crossing-point law: escalation fires exactly once, at the first
/// moment the counter reaches the threshold, and the counter (a natural
/// number) never drops below zero.
pub proof fn lemma_health_no_overshoot(outcomes: Seq<bool>, threshold: nat, i: int)
    requires
        threshold > 0,
        0 <= i <= outcomes.len(),
        forall|j: int| 0 <= j <= i ==> health_count(#[trigger] outcomes.take(j)) != threshold,
    ensures
        health_count(outcomes.take(i)) < threshold,
    decreases i,
{
    if i == 0 {
        assert(outcomes.take(0) =~= Seq::<bool>::empty());
    } else {
        lemma_health_no_overshoot(outcomes, threshold, i - 1);
        assert(outcomes.take(i).drop_last() =~= outcomes.take(i - 1));
        lemma_health_count_step(outcomes.take(i));
    }
}

/// Sink failures never move the counter: the outcome stream carries only
/// field-read results, so when every cycle's reads succeed the counter stays
/// at zero no matter what the sink did.
pub proof fn lemma_all_success_stays_zero(outcomes: Seq<bool>)
    requires
        forall|j: int| 0 <= j < outcomes.len() ==> !outcomes[j],
    ensures
        health_count(outcomes) == 0,
    decreases outcomes.len(),
{
    if outcomes.len() > 0 {
        lemma_all_success_stays_zero(outcomes.drop_last());
    }
}

/// The health aggregator's state: sole owner of the hysteresis counter for one
/// epoch. `history` records, in ghost form, the outcomes consumed so far.
pub struct HealthCounter {
    pub count: u64,
    pub threshold: u64,
    pub escalated: bool,
    pub history: Ghost<Seq<bool>>,
}

impl HealthCounter {
    /// Well-formedness: the counter tracks the outcome history, stays within
    /// `[0, threshold]`, has never silently passed the threshold, and the
    /// escalation latch is set exactly when the threshold has been reached.
    pub open spec fn wf(self) -> bool {
        &&& self.threshold > 0
        &&& self.count <= self.threshold
        &&& self.count == health_count(self.history@)
        &&& (self.escalated <==> self.count == self.threshold)
        &&& forall|j: int|
            0 <= j < self.history@.len() ==> health_count(
                #[trigger] self.history@.take(j),
            ) < self.threshold
    }

    /// A fresh counter for a new epoch: zero, with nothing consumed yet.
    pub fn new(threshold: u64) -> (c: HealthCounter)
        requires
            threshold > 0,
        ensures
            c.wf(),
            c.count == 0,
            c.threshold == threshold,
            !c.escalated,
            c.history@ =~= Seq::<bool>::empty(),
    {
        HealthCounter { count: 0, threshold, escalated: false, history: Ghost(Seq::empty()) }
    }

    /// Consume one poll outcome: a failure raises the counter by one, a
    /// success lowers it by one, floored at zero. Returns `true` exactly when
    /// this outcome brings the counter to the threshold: the single crossing
    /// point at which the caller must trigger shutdown of the epoch.
    pub fn apply(&mut self, failed: bool) -> (escalate: bool)
        requires
            old(self).wf(),
            !old(self).escalated,
        ensures
            final(self).wf(),
            final(self).threshold == old(self).threshold,
            final(self).history@ =~= old(self).history@.push(failed),
            failed ==> final(self).count == old(self).count + 1,
            !failed && old(self).count > 0 ==> final(self).count == old(self).count - 1,
            !failed && old(self).count == 0 ==> final(self).count == 0,
            escalate == final(self).escalated,
            escalate == (final(self).count == final(self).threshold),
    {
        proof {
            assert(self.history@.push(failed).drop_last() =~= self.history@);
        }
        self.history = Ghost(self.history@.push(failed));
        if failed {
            self.count = self.count + 1;
        } else if self.count > 0 {
            self.count = self.count - 1;
        }
        self.escalated = self.count == self.threshold;
        proof {
            assert forall|j: int| 0 <= j < self.history@.len() implies health_count(
                #[trigger] self.history@.take(j),
            ) < self.threshold by {
                if j < old(self).history@.len() {
                    assert(self.history@.take(j) =~= old(self).history@.take(j));
                } else {
                    assert(self.history@.take(j) =~= old(self).history@);
                }
            }
        }
        self.escalated
    }
}

/// One step of the epoch's aggregation path. A connection-level fault (a
/// whole multi-sensor group with zero usable readings) tears the epoch down
/// at once, independent of the threshold and without touching the counter;
/// any other outcome feeds the hysteresis counter, and teardown follows
/// exactly when the counter reaches the threshold. Sink results are no input
/// here: they cannot influence either path.
pub fn epoch_step(counter: &mut HealthCounter, failed: bool, fatal_cycle: bool) -> (teardown:
    bool)
    requires
        old(counter).wf(),
        !old(counter).escalated,
    ensures
        final(counter).wf(),
        final(counter).threshold == old(counter).threshold,
        fatal_cycle ==> teardown && *final(counter) == *old(counter),
        !fatal_cycle ==> final(counter).history@ =~= old(counter).history@.push(failed),
        !fatal_cycle ==> (teardown <==> final(counter).escalated),
{
    if fatal_cycle {
        return true;
    }
    counter.apply(failed)
}

/// Ceiling of `a / b`: the smallest integer at or above the exact quotient.
pub open spec fn spec_ceil_div(a: int, b: int) -> int
    recommends
        a >= 0,
        b > 0,
{
    (a + b - 1) / b
}

/// The largest element of a non-empty sequence.
pub open spec fn seq_max(s: Seq<u64>) -> u64
    recommends
        s.len() > 0,
    decreases s.len(),
{
    if s.len() <= 1 {
        s[0]
    } else {
        let m = seq_max(s.drop_last());
        if s.last() > m {
            s.last()
        } else {
            m
        }
    }
}

/// The smallest element of a non-empty sequence.
pub open spec fn seq_min(s: Seq<u64>) -> u64
    recommends
        s.len() > 0,
    decreases s.len(),
{
    if s.len() <= 1 {
        s[0]
    } else {
        let m = seq_min(s.drop_last());
        if s.last() < m {
            s.last()
        } else {
            m
        }
    }
}

/// The escalation threshold for an epoch:
/// `2 * deviceCount * ceil(max(scanInterval) / min(scanInterval))`.
/// With equal intervals this reduces to `2 * deviceCount`.
pub open spec fn spec_threshold(intervals: Seq<u64>) -> int
    recommends
        intervals.len() > 0,
        seq_min(intervals) > 0,
{
    2 * intervals.len() * spec_ceil_div(seq_max(intervals) as int, seq_min(intervals) as int)
}

/// With equal scan intervals the threshold formula reduces to twice the
/// device count.
pub proof fn lemma_threshold_equal_intervals(intervals: Seq<u64>)
    requires
        intervals.len() > 0,
        intervals[0] > 0,
        forall|j: int| 0 <= j < intervals.len() ==> #[trigger] intervals[j] == intervals[0],
    ensures
        spec_threshold(intervals) == 2 * intervals.len(),
{
    lemma_seq_all_equal(intervals);
    let x = intervals[0] as int;
    vstd::arithmetic::div_mod::lemma_fundamental_div_mod_converse(x + x - 1, x, 1, x - 1);
    assert(spec_ceil_div(x, x) == 1);
}

/// In a constant sequence both extremes are the common element.
proof fn lemma_seq_all_equal(s: Seq<u64>)
    requires
        s.len() > 0,
        forall|j: int| 0 <= j < s.len() ==> #[trigger] s[j] == s[0],
    ensures
        seq_max(s) == s[0],
        seq_min(s) == s[0],
    decreases s.len(),
{
    if s.len() > 1 {
        assert(forall|j: int| 0 <= j < s.len() - 1 ==> s.drop_last()[j] == s[j]);
        lemma_seq_all_equal(s.drop_last());
    }
}

/// The largest scan interval of a device set.
pub fn max_interval(intervals: &Vec<u64>) -> (m: u64)
    requires
        intervals@.len() > 0,
    ensures
        m == seq_max(intervals@),
{
    let mut m: u64 = intervals[0];
    let mut i: usize = 1;
    while i < intervals.len()
        invariant
            1 <= i <= intervals@.len(),
            m == seq_max(intervals@.take(i as int)),
        decreases intervals@.len() - i,
    {
        proof {
            assert(intervals@.take(i + 1).drop_last() =~= intervals@.take(i as int));
        }
        if intervals[i] > m {
            m = intervals[i];
        }
        i = i + 1;
    }
    proof {
        assert(intervals@.take(intervals@.len() as int) =~= intervals@);
    }
    m
}

/// The smallest scan interval of a device set.
pub fn min_interval(intervals: &Vec<u64>) -> (m: u64)
    requires
        intervals@.len() > 0,
    ensures
        m == seq_min(intervals@),
{
    let mut m: u64 = intervals[0];
    let mut i: usize = 1;
    while i < intervals.len()
        invariant
            1 <= i <= intervals@.len(),
            m == seq_min(intervals@.take(i as int)),
        decreases intervals@.len() - i,
    {
        proof {
            assert(intervals@.take(i + 1).drop_last() =~= intervals@.take(i as int));
        }
        if intervals[i] < m {
            m = intervals[i];
        }
        i = i + 1;
    }
    proof {
        assert(intervals@.take(intervals@.len() as int) =~= intervals@);
    }
    m
}

/// Compute the epoch's escalation threshold from the devices' scan intervals
/// (one entry per device, each positive). Returns `None` exactly when the
/// mathematical threshold does not fit in a `u64`.
pub fn compute_threshold(intervals: &Vec<u64>) -> (r: Option<u64>)
    requires
        intervals@.len() > 0,
        forall|j: int| 0 <= j < intervals@.len() ==> intervals@[j] > 0,
    ensures
        r matches Some(t) ==> t == spec_threshold(intervals@),
        r is Some <==> spec_threshold(intervals@) <= u64::MAX,
        r matches Some(t) ==> t > 0,
{
    let maxi = max_interval(intervals);
    let mini = min_interval(intervals);
    proof {
        lemma_seq_min_le_max(intervals@);
        lemma_seq_min_pos(intervals@);
    }
    let num: u128 = maxi as u128 + mini as u128 - 1;
    let ratio: u128 = num / (mini as u128);
    proof {
        assert(ratio == spec_ceil_div(maxi as int, mini as int));
        assert(ratio >= 1) by {
            vstd::arithmetic::div_mod::lemma_div_is_ordered(
                mini as int,
                num as int,
                mini as int,
            );
            vstd::arithmetic::div_mod::lemma_div_by_self(mini as int);
        }
        assert(ratio <= num) by {
            vstd::arithmetic::div_mod::lemma_fundamental_div_mod(num as int, mini as int);
            vstd::arithmetic::div_mod::lemma_mod_bound(num as int, mini as int);
            vstd::arithmetic::mul::lemma_mul_increases(ratio as int, mini as int);
        }
    }
    let twice: u128 = 2 * ratio;
    let n: u128 = intervals.len() as u128;
    let cap: u128 = 0xFFFF_FFFF_FFFF_FFFF;
    let q: u128 = cap / twice;
    proof {
        vstd::arithmetic::div_mod::lemma_fundamental_div_mod(cap as int, twice as int);
        vstd::arithmetic::div_mod::lemma_mod_bound(cap as int, twice as int);
        assert(n * twice == 2 * (intervals@.len() as int) * (ratio as int)) by (nonlinear_arith)
            requires
                n == intervals@.len(),
                twice == 2 * ratio,
        ;
    }
    if n <= q {
        proof {
            vstd::arithmetic::mul::lemma_mul_inequality(n as int, q as int, twice as int);
            vstd::arithmetic::mul::lemma_mul_is_commutative(q as int, twice as int);
            assert(n * twice <= cap);
            assert(n * twice >= 2) by (nonlinear_arith)
                requires
                    n >= 1,
                    twice >= 2,
            ;
        }
        let t: u128 = n * twice;
        Some(t as u64)
    } else {
        proof {
            vstd::arithmetic::mul::lemma_mul_inequality(q as int + 1, n as int, twice as int);
            vstd::arithmetic::mul::lemma_mul_is_distributive_add_other_way(
                twice as int,
                q as int,
                1,
            );
            vstd::arithmetic::mul::lemma_mul_is_commutative(q as int, twice as int);
        }
        None
    }
}

/// Every element of a non-empty sequence lies between its minimum and maximum.
proof fn lemma_seq_min_le_max(s: Seq<u64>)
    requires
        s.len() > 0,
    ensures
        seq_min(s) <= seq_max(s),
        forall|j: int| 0 <= j < s.len() ==> seq_min(s) <= #[trigger] s[j] <= seq_max(s),
    decreases s.len(),
{
    if s.len() > 1 {
        lemma_seq_min_le_max(s.drop_last());
        assert(forall|j: int| 0 <= j < s.len() - 1 ==> s.drop_last()[j] == s[j]);
    }
}

/// The minimum of a sequence of positive numbers is positive.
proof fn lemma_seq_min_pos(s: Seq<u64>)
    requires
        s.len() > 0,
        forall|j: int| 0 <= j < s.len() ==> s[j] > 0,
    ensures
        seq_min(s) > 0,
    decreases s.len(),
{
    if s.len() > 1 {
        lemma_seq_min_pos(s.drop_last());
    }
}

} // verus!
