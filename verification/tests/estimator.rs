use adamoq::binary64::Binary64;
use adamoq::clock::{Duration, Instant};
use adamoq::estimator::{BandwidthEstimator, TransportStats};
use adamoq::trend::TrendDirection;

fn float(x: Binary64) -> f64 {
    f64::from_bits(x.to_bits())
}

fn start() -> Instant {
    Instant::from_nanos(1_000_000_000_000)
}

fn make_stats(bps: u64, sent: u64, lost: u64, rtt_us: u64) -> TransportStats {
    TransportStats {
        estimated_send_rate_bps: bps,
        packets_sent: sent,
        packets_lost: lost,
        bytes_sent: 0,
        rtt_us,
    }
}

#[test]
fn steady_estimate_converges() {
    let mut e = BandwidthEstimator::new();
    let mut t = start();
    let mut sent = 0u64;
    for _ in 0..20 {
        sent += 100;
        let est = e.update(make_stats(1_000_000, sent, 0, 50_000), t);
        assert!(est.bps > 0);
        t = t.after(Duration::from_millis(500));
    }
    let est = e.update(make_stats(1_000_000, sent + 100, 0, 50_000), t);
    // Should converge to ~1Mbps.
    assert!(est.bps > 900_000 && est.bps < 1_100_000);
    assert!(float(est.loss_rate) < 0.01);
}

#[test]
fn declining_bandwidth_detected_as_downward() {
    let mut e = BandwidthEstimator::new();
    let mut t = start();
    let mut sent = 0u64;
    // Start at 2Mbps, drop to 500kbps over 15 samples.
    for i in 0..15 {
        sent += 100;
        let bps = 2_000_000 - (i as u64 * 100_000);
        e.update(make_stats(bps, sent, 0, 50_000), t);
        t = t.after(Duration::from_millis(600));
    }
    let est = e.update(make_stats(500_000, sent + 100, 0, 50_000), t);
    assert_eq!(est.trend, TrendDirection::Downward);
}

#[test]
fn loss_rate_tracks_packet_loss() {
    let mut e = BandwidthEstimator::new();
    let mut t = start();
    // 10% loss rate: 100 sent, 10 lost per tick.
    let mut sent = 0u64;
    let mut lost = 0u64;
    for _ in 0..10 {
        sent += 100;
        lost += 10;
        e.update(make_stats(1_000_000, sent, lost, 50_000), t);
        t = t.after(Duration::from_millis(500));
    }
    let est = e.update(make_stats(1_000_000, sent + 100, lost + 10, 50_000), t);
    // sent+lost = 110, lost=10 → 10/110 ≈ 0.09
    assert!(float(est.loss_rate) > 0.05 && float(est.loss_rate) < 0.15);
}

#[test]
fn estimates_follow_the_formulas() {
    let mut e = BandwidthEstimator::default();
    let mut t = start();
    let mut baseline = 0.0f64;
    let mut loss = 0.0f64;
    let mut sent = 0u64;
    let mut lost = 0u64;
    for i in 0u64..200 {
        let rate = 1_000_000 + (i * 7_919_777) % 3_333_333;
        let (ds, dl) = (90 + i % 13, (i * i) % 17);
        sent += ds;
        lost += dl;
        let est = e.update(make_stats(rate, sent, lost, 40_000 + i), t);
        baseline = if i == 0 { rate as f64 } else { 0.1 * rate as f64 + (1.0 - 0.1) * baseline };
        let interval = dl as f64 / (ds + dl) as f64;
        let alpha = if interval > loss { 0.5 } else { 0.1 };
        loss = alpha * interval + (1.0 - alpha) * loss;
        assert_eq!(est.bps, baseline as u64);
        assert_eq!(est.raw_bps, rate);
        assert_eq!(float(est.loss_rate), loss);
        assert_eq!(est.rtt_us, 40_000 + i);
        assert!(loss >= 0.0 && loss <= 1.0);
        t = t.after(Duration::from_millis(500));
    }
}

#[test]
fn a_reading_without_a_rate_is_skipped() {
    let mut e = BandwidthEstimator::new();
    let t = start();
    e.update(make_stats(1_000_000, 100, 50, 50_000), t);
    let before = e.update(make_stats(0, 900, 900, 70_000), t);
    assert_eq!(before.bps, 1_000_000);
    assert_eq!(before.raw_bps, 0);
    assert_eq!(before.rtt_us, 70_000);
    assert_eq!(before.trend, TrendDirection::Inconclusive);
    assert_eq!(float(before.loss_rate), 0.5 * (50.0 / 150.0));
    // The packet counts of the skipped reading were not taken either.
    let after = e.update(make_stats(1_000_000, 200, 50, 50_000), t);
    assert_eq!(float(after.loss_rate), (1.0 - 0.1) * float(before.loss_rate));
}

#[test]
fn counters_that_run_backwards_count_as_no_packets() {
    let mut e = BandwidthEstimator::new();
    let t = start();
    e.update(make_stats(1_000_000, 100, 100, 50_000), t);
    let est = e.update(make_stats(1_000_000, 0, 0, 50_000), t);
    assert_eq!(float(est.loss_rate), 0.1 * 0.0 + (1.0 - 0.1) * 0.25);
}

#[test]
fn reset_trend_starts_the_window_anew() {
    let mut e = BandwidthEstimator::new();
    let mut t = start();
    for i in 0u64..12 {
        e.update(make_stats(2_000_000 - i * 100_000, 100, 0, 50_000), t);
        t = t.after(Duration::from_millis(600));
    }
    e.reset_trend();
    let est = e.update(make_stats(500_000, 100, 0, 50_000), t);
    assert_eq!(est.trend, TrendDirection::Inconclusive);
    assert_eq!(float(est.trend_coefficient), 0.0);
}

#[test]
fn estimates_lie_between_the_last_one_and_the_rate() {
    let mut e = BandwidthEstimator::new();
    let t = start();
    let mut last = e.update(make_stats(3, 0, 0, 0), t).bps;
    for i in 1u64..500 {
        let rate = 1 + i.wrapping_mul(0x9e37_79b9_7f4a_7c15) % (1 << 50);
        let bps = e.update(make_stats(rate, 0, 0, 0), t).bps;
        assert!(bps <= last.max(rate) + 1);
        assert!(bps + 1 >= last.min(rate));
        last = bps;
    }
}

#[test]
fn packet_counts_are_taken_as_long_as_they_add_up() {
    let mut e = BandwidthEstimator::new();
    assert!(!e.takes(&make_stats(1, u64::MAX, 1, 0)));
    assert!(e.takes(&make_stats(0, u64::MAX, 1, 0)));
    assert!(e.takes(&make_stats(1, u64::MAX, 0, 0)));
    e.update(make_stats(1, u64::MAX, 0, 0), start());
    assert!(e.takes(&make_stats(1, u64::MAX, u64::MAX, 0)));
}
