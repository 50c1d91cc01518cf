use adamoq::clock::{Duration, Instant};
use adamoq::config::{PROBE_BASE_INTERVAL_NANOS, PROBE_SETTLE_RTTS};
use adamoq::prober::{ProbeRequest, ProbeResult, ProbeState, Prober};

fn start() -> Instant {
    Instant::from_nanos(1_000_000_000_000)
}

fn base_interval() -> Duration {
    Duration::from_nanos(PROBE_BASE_INTERVAL_NANOS)
}

fn millis(ms: u64) -> Duration {
    Duration::from_millis(ms)
}

/// Past probe duration and settle window.
fn settled(after: Instant, req: &ProbeRequest) -> Instant {
    let rtts = Duration::from_micros(50_000 * PROBE_SETTLE_RTTS);
    let settle_wait = if rtts.nanos > millis(250).nanos { rtts } else { millis(250) };
    after.after(req.duration).after(settle_wait).after(millis(10))
}

#[test]
fn idle_initially() {
    let now = start();
    let p = Prober::new(now);
    assert_eq!(p.state(), ProbeState::Idle);
}

#[test]
fn starts_probe_after_interval() {
    let now = start();
    let mut p = Prober::new(now);
    assert!(p.maybe_start(1_000_000, now, 50_000).is_none());
    let after = now.after(base_interval()).after(millis(100));
    let req = p.maybe_start(1_000_000, after, 50_000);
    assert!(req.is_some());
    assert_eq!(p.state(), ProbeState::Active);
    // Target should be ceiling + overage (1M * 0.2 = 200k, max with MIN=200k).
    assert_eq!(req.unwrap().target_bps, 1_200_000);
}

#[test]
fn successful_probe_resets_interval() {
    let now = start();
    let mut p = Prober::new(now);
    let after = now.after(base_interval()).after(millis(100));
    let req = p.maybe_start(1_000_000, after, 50_000).unwrap();
    p.observe_estimate(1_300_000); // exceeds goal
    let done = settled(after, &req);
    let result = p.tick(done, 50_000);
    match result {
        Some(ProbeResult::Success { peak_estimate_bps }) => {
            assert_eq!(peak_estimate_bps, 1_300_000);
        }
        other => panic!("expected Success, got {:?}", other),
    }
    assert_eq!(p.state(), ProbeState::Idle);
    assert_eq!(p.current_interval(), base_interval());
}

#[test]
fn failed_probe_backs_off() {
    let now = start();
    let mut p = Prober::new(now);
    let after = now.after(base_interval()).after(millis(100));
    let req = p.maybe_start(1_000_000, after, 50_000).unwrap();
    // No estimate observed during probe (peak stays 0, below goal).
    let done = settled(after, &req);
    let result = p.tick(done, 50_000);
    assert_eq!(result, Some(ProbeResult::Failed));

    // Next attempt should be further out (backoff).
    let interval_after = p.current_interval();
    assert!(interval_after.nanos > base_interval().nanos);
}

#[test]
fn congested_during_probe_backs_off() {
    let now = start();
    let mut p = Prober::new(now);
    let after = now.after(base_interval()).after(millis(100));
    let req = p.maybe_start(1_000_000, after, 50_000).unwrap();
    p.observe_estimate(2_000_000); // would be success
    p.mark_congested(); // but congestion wins
    let done = settled(after, &req);
    let result = p.tick(done, 50_000);
    assert_eq!(result, Some(ProbeResult::Congested));
}

#[test]
fn cancel_returns_to_idle() {
    let now = start();
    let mut p = Prober::new(now);
    let after = now.after(base_interval()).after(millis(100));
    p.maybe_start(1_000_000, after, 50_000);
    assert!(p.is_active());
    p.cancel(after);
    assert_eq!(p.state(), ProbeState::Idle);
}

#[test]
fn each_failure_doubles_the_wait_up_to_two_minutes() {
    let mut now = start();
    let mut p = Prober::new(now);
    let mut waits: Vec<u128> = Vec::new();
    for _ in 0..8 {
        let wait = p.current_interval();
        waits.push(wait.nanos / 1_000_000_000);
        assert!(p.maybe_start(1_000_000, now.after(wait).after(Duration::from_nanos(0)), 50_000).is_some());
        let begun = now.after(wait);
        now = begun.after(millis(750));
        assert_eq!(p.tick(now, 50_000), Some(ProbeResult::Failed));
    }
    assert_eq!(waits, vec![3, 6, 12, 24, 48, 96, 120, 120]);
    // A success starts over.
    let begun = now.after(p.current_interval());
    let goal = p.maybe_start(1_000_000, begun, 50_000).unwrap().target_bps;
    p.observe_estimate(goal);
    assert_eq!(
        p.tick(begun.after(millis(750)), 50_000),
        Some(ProbeResult::Success { peak_estimate_bps: goal })
    );
    assert_eq!(p.current_interval(), base_interval());
}

#[test]
fn a_probe_settles_before_it_is_judged() {
    let now = start();
    let mut p = Prober::new(now);
    let begun = now.after(base_interval());
    let req = p.maybe_start(1_000_000, begun, 100_000).unwrap();
    assert_eq!(req.duration, millis(500));
    assert_eq!(p.tick(begun.after(millis(499)), 100_000), None);
    assert_eq!(p.state(), ProbeState::Active);
    assert_eq!(p.tick(begun.after(millis(500)), 100_000), None);
    assert_eq!(p.state(), ProbeState::Settling);
    assert!(p.is_active());
    // Five round trips of 100ms.
    assert_eq!(p.tick(begun.after(millis(999)), 100_000), None);
    assert_eq!(p.tick(begun.after(millis(1000)), 100_000), Some(ProbeResult::Failed));
    assert!(!p.is_active());
}

#[test]
fn probes_aim_a_fifth_higher() {
    let now = start();
    let begun = now.after(base_interval());
    let mut p = Prober::new(now);
    assert_eq!(p.maybe_start(100_000, begun, 0).unwrap().target_bps, 300_000);
    let mut p = Prober::new(now);
    assert_eq!(p.maybe_start(2_000_000, begun, 50_000).unwrap().target_bps, 2_400_000);
    let mut p = Prober::new(now);
    assert_eq!(p.maybe_start(5_000_004, begun, 0).unwrap().target_bps, 6_000_004);
}

#[test]
fn only_an_active_probe_is_observed() {
    let now = start();
    let begun = now.after(base_interval());
    let mut p = Prober::new(now);
    p.observe_estimate(9_000_000);
    p.mark_congested();
    p.maybe_start(1_000_000, begun, 0).unwrap();
    assert!(p.maybe_start(1_000_000, begun, 0).is_none());
    p.observe_estimate(1_300_000);
    p.observe_estimate(1_250_000);
    assert_eq!(
        p.tick(begun.after(millis(750)), 0),
        Some(ProbeResult::Success { peak_estimate_bps: 1_300_000 })
    );
}

#[test]
fn a_probe_is_judged_by_its_peak_alone() {
    let now = start();
    let begun = now.after(base_interval());
    for (estimates, expected) in [
        (vec![], ProbeResult::Failed),
        (vec![2_399_999, 5], ProbeResult::Failed),
        (vec![7, 2_400_000, 9], ProbeResult::Success { peak_estimate_bps: 2_400_000 }),
    ] {
        let mut p = Prober::new(now);
        p.maybe_start(2_000_000, begun, 50_000).unwrap();
        for e in estimates {
            p.observe_estimate(e);
        }
        assert_eq!(p.tick(begun.after(millis(750)), 50_000), Some(expected));
        assert_eq!(p.state(), ProbeState::Idle);
    }
}
