use fieldgate::cancel::CancellationToken;
use fieldgate::device::Device;
use fieldgate::encode::encode_line;
use fieldgate::health::{compute_threshold, HealthCounter};
use fieldgate::lifecycle::{
    lifecycle_step, LifecycleAction, LifecycleEvent, LifecycleState, RETRY_DELAY_MS,
};
use fieldgate::poller::{poller_step, process_cycle, PollerAction};
use fieldgate::registers::RegisterMap;
use fieldgate::shutdown::ShutdownCoordinator;

fn map_with(entries: &[(u16, &str)]) -> RegisterMap {
    let mut m = RegisterMap::new();
    for (addr, name) in entries {
        assert!(m.insert(*addr, name.as_bytes().to_vec()));
    }
    m
}

fn device_with(id: u64, group: &str, interval_ns: u64, entries: &[(u16, &str)]) -> Device {
    Device::new(id, group.as_bytes().to_vec(), interval_ns, Vec::new(), map_with(entries))
}

#[test]
fn encode_escapes_measurement_and_tags() {
    let meas = b"a,b c".to_vec();
    let tags = vec![(b"k=1".to_vec(), b"v 2".to_vec())];
    let line = encode_line(&meas, &tags, 5, 100);
    assert_eq!(line, b"a\\,b\\ c,k\\=1=v\\ 2 value=5 100\n".to_vec());
}

#[test]
fn encode_without_tags() {
    let line = encode_line(&b"plain".to_vec(), &Vec::new(), 0, 0);
    assert_eq!(line, b"plain value=0 0\n".to_vec());
}

#[test]
fn encode_multidigit_values() {
    let line = encode_line(&b"m".to_vec(), &Vec::new(), 65535, 1700000000);
    assert_eq!(line, b"m value=65535 1700000000\n".to_vec());
}

#[test]
fn threshold_equal_intervals() {
    // Three devices on equal intervals: 2 * 3 * ceil(1/1) = 6.
    let t = compute_threshold(&vec![1_000_000_000, 1_000_000_000, 1_000_000_000]);
    assert_eq!(t, Some(6));
}

#[test]
fn threshold_spread_intervals() {
    // Three devices, intervals 1 s, 1 s, 4 s: 2 * 3 * ceil(4/1) = 24.
    let t = compute_threshold(&vec![1_000_000_000, 1_000_000_000, 4_000_000_000]);
    assert_eq!(t, Some(24));
}

#[test]
fn threshold_rounds_ratio_up() {
    // Two devices, intervals 2 and 3: 2 * 2 * ceil(3/2) = 8.
    let t = compute_threshold(&vec![2, 3]);
    assert_eq!(t, Some(8));
}

#[test]
fn threshold_overflow_is_none() {
    // ceil(max/min) is astronomically large: the threshold exceeds u64.
    let t = compute_threshold(&vec![1, u64::MAX]);
    assert_eq!(t, None);
}

#[test]
fn counter_floors_at_zero() {
    let mut c = HealthCounter::new(4);
    assert!(!c.apply(false));
    assert_eq!(c.count, 0);
    assert!(!c.apply(false));
    assert_eq!(c.count, 0);
    assert!(!c.apply(true));
    assert_eq!(c.count, 1);
    assert!(!c.apply(false));
    assert_eq!(c.count, 0);
}

#[test]
fn counter_escalates_exactly_at_crossing() {
    let mut c = HealthCounter::new(3);
    assert!(!c.apply(true));
    assert!(!c.apply(true));
    assert!(!c.apply(false));
    assert!(!c.apply(true));
    assert_eq!(c.count, 2);
    let escalate = c.apply(true);
    assert!(escalate);
    assert_eq!(c.count, 3);
    assert!(c.escalated);
}

#[test]
fn fatal_cycle_tears_down_without_touching_counter() {
    let mut c = HealthCounter::new(5);
    assert!(!fieldgate::health::epoch_step(&mut c, true, false));
    assert_eq!(c.count, 1);
    // A connection-level fault tears down at once, counter untouched.
    assert!(fieldgate::health::epoch_step(&mut c, false, true));
    assert_eq!(c.count, 1);
    assert!(!c.escalated);
}

#[test]
fn sink_failures_never_move_counter() {
    // Field reads always succeed; whatever the sink does is no input to the
    // aggregator, so the counter stays at zero indefinitely.
    let dev = device_with(7, "g", 1_000_000_000, &[(1, "r1")]);
    let mut c = HealthCounter::new(4);
    for _ in 0..50 {
        let rep = process_cycle(&dev, &vec![(1, Some(9))], 100);
        // The sink now rejects the payload; nothing of that reaches the
        // outcome, which was already fixed by the read results alone.
        assert!(rep.outcome.success);
        assert!(!c.apply(!rep.outcome.success));
        assert_eq!(c.count, 0);
    }
}

#[test]
fn partial_failure_is_not_fatal() {
    let dev = device_with(1, "plant", 1_000_000_000, &[(10, "a"), (11, "b"), (12, "c")]);
    let results = vec![(10, Some(5)), (11, None), (12, Some(7))];
    let rep = process_cycle(&dev, &results, 100);
    assert!(!rep.fatal);
    assert!(!rep.outcome.success);
    assert_eq!(rep.outcome.failed_addresses, vec![11]);
    // Lines for the two succeeding sensors, none for the failing one.
    let payload = String::from_utf8(rep.payload).unwrap();
    let lines: Vec<&str> = payload.lines().collect();
    assert_eq!(lines.len(), 2);
    assert_eq!(lines[0], "a,group=plant,id=1,register=10 value=5 100");
    assert_eq!(lines[1], "c,group=plant,id=1,register=12 value=7 100");
}

#[test]
fn total_failure_is_fatal_and_forwards_nothing() {
    let dev = device_with(1, "plant", 1_000_000_000, &[(10, "a"), (11, "b"), (12, "c")]);
    let results = vec![(10, None), (11, None), (12, None)];
    let rep = process_cycle(&dev, &results, 100);
    assert!(rep.fatal);
    assert!(!rep.outcome.success);
    assert_eq!(rep.outcome.failed_addresses, vec![10, 11, 12]);
    assert!(rep.payload.is_empty());
}

#[test]
fn single_sensor_failure_is_transient_not_fatal() {
    // A one-sensor device that fails is a transient, counted failure, not a
    // connection-level fault: only a multi-sensor group that yields zero
    // usable readings escalates directly.
    let dev = device_with(2, "g", 1_000_000_000, &[(1, "r")]);
    let rep = process_cycle(&dev, &vec![(1, None)], 5);
    assert!(!rep.fatal);
    assert!(!rep.outcome.success);
}

#[test]
fn user_tags_follow_standard_tags() {
    let mut dev = device_with(3, "g 1", 1_000_000_000, &[(2, "temp")]);
    dev.tags = vec![(b"site".to_vec(), b"north hall".to_vec())];
    let rep = process_cycle(&dev, &vec![(2, Some(21))], 42);
    assert_eq!(
        rep.payload,
        b"temp,group=g\\ 1,id=3,register=2,site=north\\ hall value=21 42\n".to_vec()
    );
}

#[test]
fn register_map_is_bidirectional() {
    let mut m = RegisterMap::new();
    assert!(m.insert(100, b"voltage".to_vec()));
    assert!(m.insert(101, b"current".to_vec()));
    assert_eq!(m.lookup_name(100).map(|v| v.as_slice()), Some(b"voltage".as_slice()));
    assert_eq!(m.lookup_address(&b"current".to_vec()), Some(101));
    assert!(m.lookup_name(102).is_none());
    assert!(m.lookup_address(&b"power".to_vec()).is_none());
}

#[test]
fn register_map_rejects_duplicates() {
    let mut m = RegisterMap::new();
    assert!(m.insert(1, b"a".to_vec()));
    assert!(!m.insert(1, b"b".to_vec()));
    assert!(!m.insert(2, b"a".to_vec()));
    assert_eq!(m.len(), 1);
}

#[test]
fn token_is_a_latch() {
    let mut t = CancellationToken::new();
    assert!(!t.is_cancelled());
    t.cancel();
    assert!(t.is_cancelled());
    t.cancel();
    assert!(t.is_cancelled());
}

#[test]
fn poller_reads_only_while_uncancelled() {
    let mut coord = ShutdownCoordinator::new(2);
    assert_eq!(poller_step(&coord.token), PollerAction::AcquireAndRead);
    coord.trigger();
    // After the trigger, every observation of the token decides Exit: no
    // further transport acquisition is issued by any poller.
    for _ in 0..10 {
        assert_eq!(poller_step(&coord.token), PollerAction::Exit);
    }
}

#[test]
fn coordinator_drains_after_all_acks() {
    let mut coord = ShutdownCoordinator::new(3);
    coord.trigger();
    assert!(!coord.drained());
    coord.acknowledge();
    coord.acknowledge();
    assert!(!coord.drained());
    coord.acknowledge();
    assert!(coord.drained());
}

#[test]
fn lifecycle_never_gives_up() {
    let mut state = LifecycleState::Disconnected;
    // Connect failures keep answering with the same fixed retry delay.
    for _ in 0..5 {
        let (next, action) = lifecycle_step(state, LifecycleEvent::ConnectFailed);
        assert_eq!(next, LifecycleState::Disconnected);
        assert_eq!(action, LifecycleAction::RetryAfterDelay);
        state = next;
    }
    assert!(RETRY_DELAY_MS > 0);
    let (next, action) = lifecycle_step(state, LifecycleEvent::ConnectSucceeded);
    assert_eq!(next, LifecycleState::Running);
    assert_eq!(action, LifecycleAction::StartEpoch);
    let (next, action) = lifecycle_step(next, LifecycleEvent::FatalHealth);
    assert_eq!(next, LifecycleState::Disconnected);
    assert_eq!(action, LifecycleAction::TeardownAndReconnect);
    let (next2, action2) = lifecycle_step(LifecycleState::Running, LifecycleEvent::FatalCycle);
    assert_eq!(next2, LifecycleState::Disconnected);
    assert_eq!(action2, LifecycleAction::TeardownAndReconnect);
    let _ = next;
}

#[test]
fn end_to_end_two_devices_hysteresis() {
    // Two devices, scan intervals 1 s and 2 s: threshold 2 * 2 * ceil(2/1) = 8.
    let intervals = vec![1_000_000_000u64, 2_000_000_000u64];
    let threshold = compute_threshold(&intervals).unwrap();
    assert_eq!(threshold, 8);

    let dev_a = device_with(1, "g", 1_000_000_000, &[(1, "ra")]);
    let dev_b = device_with(2, "g", 2_000_000_000, &[(2, "rb")]);
    let mut agg = HealthCounter::new(threshold);

    // Both devices read alternating failure/success each call. In time
    // order over ten seconds the outcome stream interleaves device A every
    // second with device B every other second; the hand-computed hysteresis
    // trajectory oscillates and never approaches the threshold.
    let mut a_call = 0u32;
    let mut b_call = 0u32;
    let mut trajectory = Vec::new();
    for t in 1..=10u64 {
        let a_fails = a_call % 2 == 0;
        a_call += 1;
        let rep = process_cycle(&dev_a, &vec![(1, if a_fails { None } else { Some(1) })], t);
        assert!(!rep.fatal);
        assert!(!agg.apply(!rep.outcome.success));
        trajectory.push(agg.count);
        if t % 2 == 0 {
            let b_fails = b_call % 2 == 0;
            b_call += 1;
            let rep = process_cycle(&dev_b, &vec![(2, if b_fails { None } else { Some(1) })], t);
            assert!(!rep.fatal);
            assert!(!agg.apply(!rep.outcome.success));
            trajectory.push(agg.count);
        }
    }
    assert_eq!(trajectory, vec![1, 0, 1, 2, 1, 0, 1, 0, 1, 2, 1, 0, 1, 0, 1]);

    // From here the bus goes down for good: every further cycle fails, and
    // escalation fires exactly when the counter first reaches the threshold,
    // at the seventh failing cycle (the counter stood at 1).
    let mut fired_at = None;
    for k in 0..10u32 {
        let rep = process_cycle(&dev_a, &vec![(1, None)], 100);
        if agg.apply(!rep.outcome.success) {
            fired_at = Some(k);
            break;
        }
    }
    assert_eq!(fired_at, Some(6));
    assert_eq!(agg.count, 8);
}
