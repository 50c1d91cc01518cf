use adamoq::binary64::Binary64;
use adamoq::clock::{Duration, Instant};
use adamoq::trend::{TrendDetector, TrendDirection};

fn num(x: f64) -> Binary64 {
    Binary64::from_bits(x.to_bits())
}

fn float(x: Binary64) -> f64 {
    f64::from_bits(x.to_bits())
}

fn start() -> Instant {
    Instant::from_nanos(1_000_000_000_000)
}

fn millis(ms: u64) -> Duration {
    Duration::from_millis(ms)
}

fn feed(d: &mut TrendDetector, values: &[f64]) {
    let mut t = start();
    for &v in values {
        d.add(num(v), t);
        t = t.after(millis(600)); // past collapse window
    }
}

#[test]
fn monotonic_rising_is_upward() {
    let mut d = TrendDetector::steady_state();
    feed(&mut d, &[1.0, 2.0, 3.0, 4.0, 5.0, 6.0, 7.0, 8.0]);
    assert_eq!(d.direction(), TrendDirection::Upward);
    assert!(float(d.coefficient()) > 0.9);
}

#[test]
fn monotonic_falling_is_downward() {
    let mut d = TrendDetector::steady_state();
    feed(&mut d, &[8.0, 7.0, 6.0, 5.0, 4.0, 3.0, 2.0, 1.0]);
    assert_eq!(d.direction(), TrendDirection::Downward);
    assert!(float(d.coefficient()) < -0.9);
}

#[test]
fn noisy_stable_is_stable_or_inconclusive() {
    let mut d = TrendDetector::steady_state();
    feed(&mut d, &[5.0, 5.1, 4.9, 5.0, 5.1, 4.9, 5.0, 5.0]);
    let dir = d.direction();
    assert!(dir == TrendDirection::Stable || dir == TrendDirection::Inconclusive);
}

#[test]
fn insufficient_samples_is_inconclusive() {
    let mut d = TrendDetector::steady_state();
    feed(&mut d, &[1.0, 2.0, 3.0]);
    assert_eq!(d.direction(), TrendDirection::Inconclusive);
}

#[test]
fn window_evicts_old_samples() {
    let mut d = TrendDetector::new(4, 3, num(-0.5));
    feed(&mut d, &[10.0, 9.0, 8.0, 7.0, 6.0, 5.0]); // only last 4 kept
    assert_eq!(d.len(), 4);
    assert_eq!(d.direction(), TrendDirection::Downward);
}

#[test]
fn collapses_duplicates_within_window() {
    let mut d = TrendDetector::steady_state();
    let t = start();
    d.add(num(5.0), t);
    d.add(num(5.0), t.after(millis(100))); // same value, within window
    d.add(num(5.0), t.after(millis(200)));
    assert_eq!(d.len(), 1);
}

#[test]
fn does_not_collapse_different_values() {
    let mut d = TrendDetector::steady_state();
    let t = start();
    d.add(num(5.0), t);
    d.add(num(6.0), t.after(millis(100))); // different value
    assert_eq!(d.len(), 2);
}

#[test]
fn probe_mode_reacts_faster() {
    let mut d = TrendDetector::probe_mode();
    feed(&mut d, &[10.0, 9.0, 8.0]);
    assert_eq!(d.direction(), TrendDirection::Downward);
}

#[test]
fn coefficient_is_the_share_of_rising_pairs() {
    // Of six pairs, (1,3) (1,2) (1,4) (3,4) (2,4) rise and (3,2) falls.
    let mut d = TrendDetector::new(4, 3, num(-0.5));
    feed(&mut d, &[1.0, 3.0, 2.0, 4.0]);
    assert_eq!(float(d.coefficient()), 4.0 / 6.0);
    assert_eq!(d.direction(), TrendDirection::Upward);
}

#[test]
fn coefficient_of_equal_samples_is_zero() {
    let mut d = TrendDetector::steady_state();
    feed(&mut d, &[7.0, 7.0, 7.0, 7.0, 7.0, 7.0, 7.0, 7.0]);
    assert_eq!(d.len(), 8);
    assert_eq!(float(d.coefficient()), 0.0);
    assert_eq!(d.direction(), TrendDirection::Stable);
}

#[test]
fn monotonic_windows_have_a_coefficient_of_one() {
    let mut up = TrendDetector::steady_state();
    feed(&mut up, &[0.1, 0.2, 1e9, 1e10]);
    assert_eq!(float(up.coefficient()), 1.0);
    let mut down = TrendDetector::steady_state();
    feed(&mut down, &[1e300, 1.0, 0.0, -3.5]);
    assert_eq!(float(down.coefficient()), -1.0);
}

#[test]
fn repeats_past_the_window_are_kept() {
    let mut d = TrendDetector::steady_state();
    let t = start();
    d.add(num(5.0), t);
    d.add(num(5.0), t.after(millis(500)));
    assert_eq!(d.len(), 2);
}

#[test]
fn extremes_of_the_window() {
    let mut d = TrendDetector::new(3, 3, num(-0.5));
    assert!(d.is_empty());
    assert!(d.latest().is_none() && d.max().is_none() && d.min().is_none());
    feed(&mut d, &[100.0, 4.0, 9.0, 5.0]);
    assert!(!d.is_empty());
    assert_eq!(float(d.latest().unwrap()), 5.0);
    assert_eq!(float(d.max().unwrap()), 9.0);
    assert_eq!(float(d.min().unwrap()), 4.0);
}

#[test]
fn clear_forgets_everything() {
    let mut d = TrendDetector::steady_state();
    let t = start();
    d.add(num(5.0), t);
    d.clear();
    assert_eq!(d.len(), 0);
    d.add(num(5.0), t);
    assert_eq!(d.len(), 1);
    assert_eq!(float(d.coefficient()), 0.0);
}

#[test]
fn coefficient_depends_on_ranks_alone() {
    let mut small = TrendDetector::steady_state();
    feed(&mut small, &[1.0, 3.0, 2.0, 5.0, 4.0]);
    let mut wild = TrendDetector::steady_state();
    feed(&mut wild, &[-1e300, 0.5, 0.25, 1e300, 1.0]);
    assert_eq!(float(small.coefficient()), float(wild.coefficient()));
    assert_eq!(float(small.coefficient()), 6.0 / 10.0);
}

#[test]
fn ties_do_not_count_against_a_rise() {
    let mut d = TrendDetector::steady_state();
    feed(&mut d, &[1.0, 2.0, 2.0, 3.0]);
    assert_eq!(float(d.coefficient()), 1.0);
    let mut d = TrendDetector::steady_state();
    feed(&mut d, &[1.0, 2.0, 1.5, 3.0]);
    assert!(float(d.coefficient()) < 1.0);
}

#[test]
fn a_reversed_window_negates_the_coefficient() {
    let values = [3.0, 1.0, 4.0, 1.0, 5.0, 9.0, 2.0, 6.0];
    let mut forth = TrendDetector::steady_state();
    feed(&mut forth, &values);
    let reversed: Vec<f64> = values.iter().rev().copied().collect();
    let mut back = TrendDetector::steady_state();
    feed(&mut back, &reversed);
    assert!(float(forth.coefficient()) > 0.0);
    assert_eq!(float(back.coefficient()), -float(forth.coefficient()));
}
