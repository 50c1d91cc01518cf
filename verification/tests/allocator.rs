use adamoq::allocator::{Allocator, AllocatorState};
use adamoq::binary64::Binary64;
use adamoq::clock::{Duration, Instant};
use adamoq::estimator::Estimate;
use adamoq::trend::TrendDirection;

const MIN_CEILING_RATIO: f64 = 0.20;

fn start() -> Instant {
    Instant::from_nanos(1_000_000_000_000)
}

fn num(x: f64) -> Binary64 {
    Binary64::from_bits(x.to_bits())
}

fn make_estimate(bps: u64, loss: f64, trend: TrendDirection) -> Estimate {
    Estimate {
        bps,
        raw_bps: bps,
        loss_rate: num(loss),
        rtt_us: 50_000,
        trend,
        trend_coefficient: num(0.0),
    }
}

#[test]
fn starts_stable_at_target() {
    let now = start();
    let a = Allocator::new(2_000_000, now);
    assert_eq!(a.state(), AllocatorState::Stable);
    assert_eq!(a.ceiling_bps(), 2_000_000);
}

#[test]
fn stays_stable_under_good_conditions() {
    let now = start();
    let mut a = Allocator::new(2_000_000, now);
    let est = make_estimate(2_500_000, 0.0, TrendDirection::Stable);
    let d = a.update(&est, now);
    assert_eq!(d.state, AllocatorState::Stable);
    assert_eq!(d.ceiling_bps, 2_000_000);
}

#[test]
fn drops_to_deficient_on_downward_trend() {
    let now = start();
    let mut a = Allocator::new(2_000_000, now);
    let est = make_estimate(800_000, 0.01, TrendDirection::Downward);
    let d = a.update(&est, now);
    assert_eq!(d.state, AllocatorState::Deficient);
    assert!(d.ceiling_bps < 2_000_000);
}

#[test]
fn early_warning_on_moderate_loss() {
    let now = start();
    let mut a = Allocator::new(2_000_000, now);
    // Elevated loss but stable trend.
    let est = make_estimate(2_000_000, 0.08, TrendDirection::Stable);
    let d = a.update(&est, now);
    assert_eq!(d.state, AllocatorState::EarlyWarning);
}

#[test]
fn returns_to_stable_on_recovery() {
    let now = start();
    let mut a = Allocator::new(2_000_000, now);
    // Drop to deficient.
    a.update(&make_estimate(500_000, 0.02, TrendDirection::Downward), now);
    assert_eq!(a.state(), AllocatorState::Deficient);
    // Estimate recovers fully.
    let est = make_estimate(2_500_000, 0.0, TrendDirection::Stable);
    let d = a.update(&est, now);
    assert_eq!(d.state, AllocatorState::Stable);
    assert_eq!(d.ceiling_bps, 2_000_000);
}

#[test]
fn publisher_target_update_propagates() {
    let now = start();
    let mut a = Allocator::new(2_000_000, now);
    a.set_publisher_target(3_000_000);
    assert_eq!(a.ceiling_bps(), 3_000_000);
}

#[test]
fn ceiling_does_not_drift_down_without_congestion_signal() {
    // Regression: in Deficient state with flat estimate and no loss, the
    // ceiling must not ratchet down due to BBR estimate noise.
    let now = start();
    let mut a = Allocator::new(8_000_000, now);
    // Drop to Deficient.
    a.update(&make_estimate(1_500_000, 0.02, TrendDirection::Downward), now);
    assert_eq!(a.state(), AllocatorState::Deficient);
    let initial_ceiling = a.ceiling_bps();

    // Now feed a flat estimate below initial - no trend, no loss.
    // Simulates steady-state where publisher encodes at ceiling and BBR's
    // estimate hovers with some noise.
    for i in 0..20 {
        let jitter = if i % 2 == 0 { -50_000 } else { 50_000 };
        let noisy = (initial_ceiling as i64 + jitter).max(0) as u64;
        a.update(&make_estimate(noisy, 0.0, TrendDirection::Stable), now);
    }
    // Ceiling should not have dropped - no congestion signal.
    assert_eq!(a.ceiling_bps(), initial_ceiling, "ceiling drifted without congestion signal");
}

#[test]
fn ceiling_respects_minimum() {
    let now = start();
    let mut a = Allocator::new(2_000_000, now);
    // Drive estimate to near zero with high loss.
    let est = make_estimate(10_000, 0.50, TrendDirection::Downward);
    let d = a.update(&est, now);
    let min = (2_000_000.0 * MIN_CEILING_RATIO) as u64;
    assert!(d.ceiling_bps >= min);
}

#[test]
fn ceiling_ratchets_down_only_on_active_congestion() {
    let now = start();
    let mut a = Allocator::new(8_000_000, now);
    // Enter Deficient.
    a.update(&make_estimate(2_000_000, 0.02, TrendDirection::Downward), now);
    let start_ceiling = a.ceiling_bps();

    // Feed a DECLINING estimate with downward trend - SHOULD ratchet down.
    a.update(&make_estimate(1_500_000, 0.0, TrendDirection::Downward), now);
    assert!(a.ceiling_bps() < start_ceiling, "should ratchet down on active congestion");
}

#[test]
fn ceiling_ratchets_down_on_loss_even_if_trend_flat() {
    let now = start();
    let mut a = Allocator::new(8_000_000, now);
    // Enter Deficient first.
    a.update(&make_estimate(2_000_000, 0.10, TrendDirection::Downward), now);
    let start_ceiling = a.ceiling_bps();

    // Sustained loss, trend flat - should still ratchet.
    a.update(&make_estimate(1_500_000, 0.10, TrendDirection::Stable), now);
    assert!(a.ceiling_bps() <= start_ceiling, "should ratchet down on sustained loss");
}

#[test]
fn early_warning_holds_ceiling_does_not_reduce() {
    let now = start();
    let mut a = Allocator::new(4_000_000, now);
    // Enter EarlyWarning via moderate loss.
    a.update(&make_estimate(4_000_000, 0.08, TrendDirection::Stable), now);
    assert_eq!(a.state(), AllocatorState::EarlyWarning);
    let ew_ceiling = a.ceiling_bps();

    // Another EarlyWarning tick - ceiling should NOT decrease.
    a.update(&make_estimate(3_500_000, 0.08, TrendDirection::Stable), now);
    assert_eq!(a.ceiling_bps(), ew_ceiling, "EarlyWarning holds ceiling");
}

#[test]
fn early_warning_clears_to_stable() {
    let now = start();
    let mut a = Allocator::new(4_000_000, now);
    a.update(&make_estimate(4_000_000, 0.08, TrendDirection::Stable), now);
    assert_eq!(a.state(), AllocatorState::EarlyWarning);
    // Loss clears below half the trigger threshold.
    a.update(&make_estimate(4_000_000, 0.01, TrendDirection::Stable), now);
    assert_eq!(a.state(), AllocatorState::Stable);
}

#[test]
fn deficient_does_not_reduce_below_commit_threshold() {
    // Small drops should not commit a new ceiling (hysteresis).
    let now = start();
    let mut a = Allocator::new(4_000_000, now);
    // Enter Deficient.
    a.update(&make_estimate(2_000_000, 0.10, TrendDirection::Downward), now);
    let ceiling_before = a.ceiling_bps();

    // Estimate drops but only by 3% (below 5% commit threshold).
    let tiny_drop = (ceiling_before as f64 * 0.97) as u64;
    a.update(&make_estimate(tiny_drop, 0.10, TrendDirection::Downward), now);
    assert_eq!(a.ceiling_bps(), ceiling_before, "tiny drop below commit threshold should not reduce");

    // Bigger drop (20%) SHOULD commit.
    let big_drop = (ceiling_before as f64 * 0.80) as u64;
    a.update(&make_estimate(big_drop, 0.10, TrendDirection::Downward), now);
    assert!(a.ceiling_bps() < ceiling_before, "drop past commit threshold should reduce");
}

#[test]
fn loss_based_reduction_math() {
    // At 20% loss: ceiling = target * (1 - 1.5*0.20) = target * 0.70
    let now = start();
    let mut a = Allocator::new(1_000_000, now);
    a.update(&make_estimate(900_000, 0.20, TrendDirection::Downward), now);
    // Expected loss ceiling: 1_000_000 * 0.70 = 700_000
    // Committed is min(estimate=900k, loss_ceiling=700k) = 700k
    assert!(a.ceiling_bps() <= 700_000 + 50_000); // allow rounding
    assert!(a.ceiling_bps() >= 650_000);
}

#[test]
fn loss_based_reduction_floor() {
    // At 80% loss, formula would go negative - must clamp to 20% of target.
    let now = start();
    let mut a = Allocator::new(1_000_000, now);
    a.update(&make_estimate(500_000, 0.80, TrendDirection::Downward), now);
    let min = (1_000_000.0 * MIN_CEILING_RATIO) as u64;
    assert!(a.ceiling_bps() >= min, "ceiling must respect MIN_CEILING_RATIO");
}

#[test]
fn publisher_target_change_in_stable_updates_ceiling() {
    let now = start();
    let mut a = Allocator::new(2_000_000, now);
    let d = a.update(&make_estimate(2_500_000, 0.0, TrendDirection::Stable), now);
    assert_eq!(d.ceiling_bps, 2_000_000);

    a.set_publisher_target(5_000_000);
    let d = a.update(&make_estimate(6_000_000, 0.0, TrendDirection::Stable), now);
    assert_eq!(d.ceiling_bps, 5_000_000, "ceiling follows new target in Stable");
}

#[test]
fn publisher_target_change_in_deficient_preserves_ceiling() {
    // When in Deficient, changing publisher_target shouldn't suddenly bump ceiling.
    let now = start();
    let mut a = Allocator::new(8_000_000, now);
    a.update(&make_estimate(2_000_000, 0.10, TrendDirection::Downward), now);
    let ceiling_before = a.ceiling_bps();
    a.set_publisher_target(12_000_000);
    assert_eq!(a.ceiling_bps(), ceiling_before, "target bump in Deficient preserves committed ceiling");
}

#[test]
fn rapid_fluctuation_does_not_drain_ceiling() {
    // Alternating up/down around the ceiling shouldn't ratchet ceiling toward zero.
    let now = start();
    let mut a = Allocator::new(8_000_000, now);
    a.update(&make_estimate(2_000_000, 0.02, TrendDirection::Downward), now);
    let initial = a.ceiling_bps();

    // Alternate noisy up/down with Stable trend.
    for i in 0..30 {
        let bps = if i % 2 == 0 { initial + 100_000 } else { initial - 100_000 };
        a.update(&make_estimate(bps, 0.0, TrendDirection::Stable), now);
    }
    assert_eq!(a.ceiling_bps(), initial, "flapping without congestion should not drift ceiling");
}

#[test]
fn estimate_at_publisher_target_returns_stable_from_deficient() {
    let now = start();
    let mut a = Allocator::new(4_000_000, now);
    // Force Deficient.
    a.update(&make_estimate(1_000_000, 0.05, TrendDirection::Downward), now);
    assert_eq!(a.state(), AllocatorState::Deficient);

    // Estimate fully recovers to target.
    a.update(&make_estimate(4_000_000, 0.0, TrendDirection::Stable), now);
    assert_eq!(a.state(), AllocatorState::Stable);
    assert_eq!(a.ceiling_bps(), 4_000_000);
}

#[test]
fn states_have_their_numbers() {
    assert_eq!(AllocatorState::Stable.as_u8(), 0);
    assert_eq!(AllocatorState::EarlyWarning.as_u8(), 1);
    assert_eq!(AllocatorState::Deficient.as_u8(), 2);
    assert_eq!(AllocatorState::Probing.as_u8(), 3);
}

#[test]
fn loss_ceiling_is_the_attenuated_target() {
    let mut a = Allocator::new(1_000_000, start());
    a.update(&make_estimate(900_000, 0.20, TrendDirection::Downward), start());
    assert_eq!(a.ceiling_bps(), (1_000_000.0f64 * (1.0f64 - 1.5 * 0.20).max(0.2)) as u64);
}

#[test]
fn minimum_is_a_fifth_of_the_target() {
    let mut a = Allocator::new(2_000_000, start());
    a.update(&make_estimate(10_000, 0.50, TrendDirection::Downward), start());
    assert_eq!(a.ceiling_bps(), (2_000_000.0 * MIN_CEILING_RATIO) as u64);
}

#[test]
fn heavy_loss_alone_is_congestion() {
    let mut a = Allocator::new(2_000_000, start());
    let d = a.update(&make_estimate(1_999_999, 0.11, TrendDirection::Stable), start());
    assert_eq!(d.state, AllocatorState::Deficient);
    assert_eq!(d.ceiling_bps, (2_000_000.0f64 * (1.0 - 1.5 * 0.11)) as u64);
}

#[test]
fn a_successful_probe_raises_the_ceiling() {
    let now = start();
    let mut a = Allocator::new(8_000_000, now);
    a.update(&make_estimate(2_000_000, 0.02, TrendDirection::Downward), now);
    assert_eq!(a.ceiling_bps(), 2_000_000);

    // After the base interval a probe starts, and asks for a fifth more.
    let t = now.after(Duration::from_millis(3_000));
    let d = a.update(&make_estimate(2_000_000, 0.0, TrendDirection::Stable), t);
    assert_eq!(d.state, AllocatorState::Probing);
    let probe = d.probe.unwrap();
    assert_eq!(probe.target_bps, 2_400_000);
    assert_eq!(d.ceiling_bps, probe.target_bps);
    assert_eq!(a.ceiling_bps(), 2_000_000);

    // The estimate meets the goal; once the probe has settled the peak is the ceiling.
    let t = t.after(Duration::from_millis(100));
    let d = a.update(&make_estimate(2_600_000, 0.0, TrendDirection::Stable), t);
    assert_eq!(d.state, AllocatorState::Probing);
    assert_eq!(d.ceiling_bps, probe.target_bps);
    let t = t.after(Duration::from_millis(700));
    let d = a.update(&make_estimate(2_600_000, 0.0, TrendDirection::Stable), t);
    assert_ne!(d.state, AllocatorState::Probing);
    assert_eq!(a.ceiling_bps(), 2_600_000);
}

#[test]
fn a_failed_probe_leaves_the_ceiling() {
    let now = start();
    let mut a = Allocator::new(8_000_000, now);
    a.update(&make_estimate(2_000_000, 0.02, TrendDirection::Downward), now);
    let t = now.after(Duration::from_millis(3_000));
    let d = a.update(&make_estimate(2_000_000, 0.0, TrendDirection::Stable), t);
    assert!(d.probe.is_some());
    let t = t.after(Duration::from_millis(750));
    let d = a.update(&make_estimate(2_000_000, 0.0, TrendDirection::Stable), t);
    assert_eq!(d.state, AllocatorState::Deficient);
    assert!(d.probe.is_none());
    assert_eq!(a.ceiling_bps(), 2_000_000);
}
