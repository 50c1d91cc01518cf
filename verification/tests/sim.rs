use adamoq::allocator::AllocatorState;
use adamoq::clock::Instant;
use adamoq::sim::{build_scenario, Replay, Scenario, Tick};
use adamoq::trend::TrendDirection;

fn start() -> Instant {
    Instant::from_nanos(1_000_000_000_000)
}

fn scenario(name: &str) -> Vec<Tick> {
    build_scenario(name, 2_000_000).unwrap()
}

fn fields(t: &Tick) -> (u64, u64, u64, u64, u64) {
    (t.elapsed_ms, t.estimated_send_rate_bps, t.interval_sent, t.interval_lost, t.rtt_us)
}

#[test]
fn unknown_scenarios_are_not_built() {
    assert!(build_scenario("list", 2_000_000).is_none());
    assert!(build_scenario("", 2_000_000).is_none());
    assert!(build_scenario("Clean", 2_000_000).is_none());
}

#[test]
fn scenarios_are_found_by_name() {
    assert_eq!(Scenario::named("clean"), Some(Scenario::Clean));
    assert_eq!(Scenario::named("clean_then_congested"), Some(Scenario::CleanThenCongested));
    assert_eq!(Scenario::named("loss_spike"), Some(Scenario::LossSpike));
    assert_eq!(Scenario::named("flapping"), Some(Scenario::Flapping));
    assert_eq!(Scenario::named("slow_drain"), Some(Scenario::SlowDrain));
    assert_eq!(Scenario::named("cliff"), Some(Scenario::Cliff));
    assert_eq!(Scenario::named("calm"), None);
}

#[test]
fn clean_has_headroom_throughout() {
    let ticks = scenario("clean");
    assert_eq!(ticks.len(), 60);
    for (i, t) in ticks.iter().enumerate() {
        assert_eq!(fields(t), (i as u64 * 500, 2_400_000, 100, 0, 50_000));
    }
}

#[test]
fn clean_then_congested_drops_and_recovers() {
    let ticks = scenario("clean_then_congested");
    assert_eq!(ticks.len(), 120);
    for (i, t) in ticks.iter().enumerate() {
        let i = i as u64;
        if (20..60).contains(&i) {
            let pct = (100 - (i as i64 - 20) * 60 / 40).max(40) as u64;
            let lost = if pct < 80 { 3 } else { 0 };
            assert_eq!(
                fields(t),
                (i * 500, 2_000_000 * pct / 100, 100, lost, 50_000 + (100 - pct) * 1000)
            );
        } else {
            assert_eq!(fields(t), (i * 500, 2_400_000, 100, 0, 50_000));
        }
    }
}

#[test]
fn loss_spike_lasts_ten_seconds() {
    let ticks = scenario("loss_spike");
    assert_eq!(ticks.len(), 80);
    for (i, t) in ticks.iter().enumerate() {
        let lost = if (20..40).contains(&i) { 20 } else { 0 };
        assert_eq!(fields(t), (i as u64 * 500, 2_400_000, 100, lost, 50_000));
    }
}

#[test]
fn flapping_alternates_every_five_seconds() {
    let ticks = scenario("flapping");
    assert_eq!(ticks.len(), 120);
    for (i, t) in ticks.iter().enumerate() {
        let i = i as u64;
        if (i / 10) % 2 == 1 {
            assert_eq!(fields(t), (i * 500, 1_000_000, 100, 10, 150_000));
        } else {
            assert_eq!(fields(t), (i * 500, 2_400_000, 100, 0, 50_000));
        }
    }
}

#[test]
fn slow_drain_falls_linearly() {
    let ticks = scenario("slow_drain");
    assert_eq!(ticks.len(), 120);
    for (i, t) in ticks.iter().enumerate() {
        let i = i as u64;
        let pct = (100 - (i * 80 / 120) as i64).max(20) as u64;
        assert_eq!(fields(t), (i * 500, 2_000_000 * pct / 100, 100, 0, 50_000 + (100 - pct) * 500));
    }
}

#[test]
fn cliff_drops_at_once() {
    let ticks = scenario("cliff");
    assert_eq!(ticks.len(), 60);
    for (i, t) in ticks.iter().enumerate() {
        let rate = if i < 20 { 2_400_000 } else { 500_000 };
        let lost = if (20..30).contains(&i) { 15 } else { 0 };
        assert_eq!(fields(t), (i as u64 * 500, rate, 100, lost, 50_000));
    }
}

#[test]
fn a_clean_replay_stays_stable() {
    let mut replay = Replay::new(2_000_000, start());
    for t in &scenario("clean") {
        let signal = replay.step(t);
        assert!(signal.is_none());
        let row = replay.row(t, &signal);
        assert_eq!(row.elapsed_ms, t.elapsed_ms);
        assert_eq!(row.rtt_us, t.rtt_us);
        assert_eq!(row.estimate_bps, 0);
        assert_eq!(row.loss_rate.to_bits(), 0);
        assert_eq!(row.trend, TrendDirection::Inconclusive);
        assert_eq!(row.state, AllocatorState::Stable);
        assert_eq!(row.ceiling_bps, 2_000_000);
        assert_eq!(row.probe_target_bps, 0);
    }
    assert_eq!(replay.state(), AllocatorState::Stable);
    assert_eq!(replay.ceiling_bps(), 2_000_000);
    assert_eq!(replay.signals_emitted(), 0);
}

#[test]
fn a_loss_spike_is_shown_and_passes() {
    let mut replay = Replay::new(2_000_000, start());
    let mut transitions = Vec::new();
    let mut shown = 0;
    for t in &scenario("loss_spike") {
        let signal = replay.step(t);
        let row = replay.row(t, &signal);
        if let Some(s) = &signal {
            assert_eq!(row.estimate_bps, s.estimate.bps);
            assert_eq!(row.loss_rate.to_bits(), s.estimate.loss_rate.to_bits());
            assert_eq!(row.trend, s.estimate.trend);
            assert_eq!(row.probe_target_bps, s.probe.as_ref().map(|p| p.target_bps).unwrap_or(0));
            shown += 1;
            if replay.show(s) {
                transitions.push((t.elapsed_ms, s.state));
            }
        }
        assert_eq!(replay.signals_emitted(), shown);
        assert!(replay.ceiling_bps() <= 2_000_000 && replay.ceiling_bps() >= 400_000);
    }
    // The first loss is at 10s, and above the trigger at once. When it is taken for
    // congestion, the first probe is long due.
    assert_eq!(transitions[0], (10_000, AllocatorState::EarlyWarning));
    assert_eq!(transitions[1], (10_500, AllocatorState::Probing));
    assert_eq!(replay.state(), AllocatorState::Stable);
    assert_eq!(replay.ceiling_bps(), 2_000_000);
}

#[test]
fn every_scenario_replays() {
    for name in ["clean", "clean_then_congested", "loss_spike", "flapping", "slow_drain", "cliff"] {
        let mut replay = Replay::new(2_000_000, start());
        for t in &scenario(name) {
            if let Some(s) = replay.step(t) {
                assert_eq!(s.state, replay.state());
            }
            assert!(replay.ceiling_bps() <= 2_000_000 && replay.ceiling_bps() >= 400_000);
        }
    }
}

#[test]
fn targets_fit_as_long_as_their_peak_does() {
    assert!(Scenario::Clean.fits(u64::MAX / 120));
    assert!(!Scenario::Clean.fits(u64::MAX / 120 + 1));
    assert!(Scenario::SlowDrain.fits(u64::MAX / 100));
    assert!(!Scenario::SlowDrain.fits(u64::MAX / 100 + 1));
    let ticks = build_scenario("slow_drain", u64::MAX / 100).unwrap();
    assert_eq!(ticks[0].estimated_send_rate_bps, u64::MAX / 100);
}
