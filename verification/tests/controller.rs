use adamoq::allocator::AllocatorState;
use adamoq::clock::{Duration, Instant};
use adamoq::config::WARMUP_DURATION_NANOS;
use adamoq::controller::BitrateController;
use adamoq::estimator::TransportStats;

fn start() -> Instant {
    Instant::from_nanos(1_000_000_000_000)
}

fn make_stats(bps: u64, sent: u64, lost: u64) -> TransportStats {
    TransportStats {
        estimated_send_rate_bps: bps,
        packets_sent: sent,
        packets_lost: lost,
        bytes_sent: 0,
        rtt_us: 50_000,
    }
}

#[test]
fn warmup_suppresses_signals() {
    let now = start();
    let mut c = BitrateController::new(2_000_000, now);
    // Feed a dramatic drop during warmup.
    let signal = c.update(make_stats(100_000, 100, 50), now);
    assert!(signal.is_none(), "should not emit during warmup");
}

#[test]
fn emits_signal_on_state_change() {
    let now = start();
    let mut c = BitrateController::new(2_000_000, now);
    let past_warmup = now
        .after(Duration::from_nanos(WARMUP_DURATION_NANOS))
        .after(Duration::from_secs(1));

    // Establish a declining trend (enough samples).
    let mut sent = 0u64;
    let mut t = past_warmup;
    for i in 0..15 {
        sent += 100;
        let bps = 2_000_000 - (i as u64 * 100_000);
        c.update(make_stats(bps, sent, 0), t);
        t = t.after(Duration::from_millis(600));
    }
    // At this point the allocator should have transitioned.
    // (The signal is captured on the update that transitions.)
    assert_ne!(c.state(), AllocatorState::Stable);
}

#[test]
fn a_stable_controller_is_silent() {
    let now = start();
    let mut c = BitrateController::new(2_000_000, now);
    let mut t = now;
    for i in 1u64..60 {
        assert!(c.update(make_stats(2_400_000, 100 * i, 0), t).is_none());
        t = t.after(Duration::from_millis(500));
    }
    assert_eq!(c.state(), AllocatorState::Stable);
    assert_eq!(c.ceiling_bps(), 2_000_000);
}

#[test]
fn heavy_loss_is_signalled_and_refreshed() {
    let now = start();
    let mut c = BitrateController::new(2_000_000, now);
    let t = now.after(Duration::from_secs(6));
    let signal = c.update(make_stats(1_900_000, 100, 100), t).unwrap();
    assert_eq!(f64::from_bits(signal.estimate.loss_rate.to_bits()), 0.25);
    assert_eq!(c.ceiling_bps(), (2_000_000.0 * (1.0 - 1.5 * 0.25)) as u64);
    // The first probe is due by now, so the publisher is asked for more at once.
    assert_eq!(signal.state, AllocatorState::Probing);
    let probe = signal.probe.unwrap();
    assert_eq!(probe.target_bps, 1_500_000);
    assert_eq!(probe.duration, Duration::from_millis(500));
    assert_eq!(signal.ceiling_bps, probe.target_bps);
    // Nothing new while the probe runs; its failure is signalled, then refreshed.
    assert!(c.update(make_stats(1_900_000, 100, 100), t.after(Duration::from_millis(700))).is_none());
    let t = t.after(Duration::from_millis(750));
    let signal = c.update(make_stats(1_900_000, 100, 100), t).unwrap();
    assert_eq!(signal.state, AllocatorState::Deficient);
    assert_eq!(signal.ceiling_bps, 1_250_000);
    assert!(c.update(make_stats(1_900_000, 100, 100), t.after(Duration::from_millis(999))).is_none());
    assert!(c.update(make_stats(1_900_000, 100, 100), t.after(Duration::from_millis(1000))).is_some());
}

#[test]
fn target_changes_move_a_stable_ceiling() {
    let now = start();
    let mut c = BitrateController::new(2_000_000, now);
    c.set_publisher_target(3_000_000);
    assert_eq!(c.ceiling_bps(), 3_000_000);
    let t = now.after(Duration::from_secs(6));
    let signal = c.update(make_stats(4_000_000, 100, 0), t).unwrap();
    assert_eq!(signal.state, AllocatorState::Stable);
    assert_eq!(signal.ceiling_bps, 3_000_000);
    assert!(signal.probe.is_none());
}

#[test]
fn age_counts_from_creation() {
    let now = start();
    let c = BitrateController::new(2_000_000, now);
    assert_eq!(c.age(now.after(Duration::from_millis(1_234))), Duration::from_millis(1_234));
    assert_eq!(c.age(Instant::from_nanos(0)), Duration::from_nanos(0));
}
