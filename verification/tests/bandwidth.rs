use adamoq::bandwidth::{assign, change, BandwidthProducer, Change, Observation};
use adamoq::error::Error;
use conducer::Waiter;
use std::sync::atomic::{AtomicUsize, Ordering};
use std::sync::Arc;
use std::task::{Wake, Waker};

struct Count(AtomicUsize);

impl Wake for Count {
    fn wake(self: Arc<Self>) {
        self.0.fetch_add(1, Ordering::SeqCst);
    }
}

#[test]
fn what_is_set_is_read() {
    let p = BandwidthProducer::new();
    let c = p.consume();
    assert_eq!(c.get(), None);
    assert_eq!(p.set(Some(1_000_000)), Ok(()));
    assert_eq!(c.get(), Some(1_000_000));
    assert_eq!(p.set(None), Ok(()));
    assert_eq!(c.get(), None);
}

#[test]
fn clones_share_the_channel() {
    let p = BandwidthProducer::default();
    let q = p.clone();
    let c = p.consume();
    let d = c.clone();
    q.set(Some(7)).unwrap();
    assert_eq!(c.get(), Some(7));
    assert_eq!(d.get(), Some(7));
    assert!(p.shared().same_channel(q.shared()));
    assert!(!p.shared().same_channel(BandwidthProducer::new().shared()));
}

#[test]
fn a_change_is_reported_once() {
    let p = BandwidthProducer::new();
    let mut c = p.consume();
    let w = Waiter::noop();
    assert_eq!(c.poll_changed(&w), Change::Pending);
    p.set(Some(5)).unwrap();
    assert_eq!(c.poll_changed(&w), Change::Ready(Some(5)));
    assert_eq!(c.poll_changed(&w), Change::Pending);
    // A late consumer has seen nothing yet.
    let mut late = p.consume();
    assert_eq!(late.poll_changed(&w), Change::Ready(Some(5)));
    // Back to unavailable is a change too.
    p.set(None).unwrap();
    assert_eq!(c.poll_changed(&w), Change::Ready(None));
    assert_eq!(c.poll_changed(&w), Change::Pending);
}

#[test]
fn a_closed_channel_has_no_bitrate() {
    let p = BandwidthProducer::new();
    let mut c = p.consume();
    let w = Waiter::noop();
    p.set(Some(5)).unwrap();
    drop(p);
    // The last change is still seen.
    assert_eq!(c.poll_changed(&w), Change::Ready(Some(5)));
    assert_eq!(c.poll_changed(&w), Change::Ready(None));
    assert_eq!(c.poll_changed(&w), Change::Ready(None));
    assert_eq!(c.get(), Some(5));
}

#[test]
fn setting_a_closed_channel_fails() {
    let p = BandwidthProducer::new();
    assert!(p.shared().close().is_ok());
    assert_eq!(p.set(Some(5)), Err(Error::Dropped));
}

#[test]
fn only_a_different_bitrate_wakes() {
    let p = BandwidthProducer::new();
    let mut c = p.consume();
    let count = Arc::new(Count(AtomicUsize::new(0)));
    let w = Waiter::new(Waker::from(count.clone()));
    assert_eq!(c.poll_changed(&w), Change::Pending);
    p.set(None).unwrap();
    assert_eq!(count.0.load(Ordering::SeqCst), 0);
    p.set(Some(1)).unwrap();
    assert_eq!(count.0.load(Ordering::SeqCst), 1);
    assert_eq!(c.poll_changed(&w), Change::Ready(Some(1)));
    assert_eq!(c.poll_changed(&w), Change::Pending);
    p.set(Some(1)).unwrap();
    assert_eq!(count.0.load(Ordering::SeqCst), 1);
}

#[test]
fn assigning_writes_through_the_access() {
    let p = BandwidthProducer::new();
    let c = p.consume();
    let mut guard = p.shared().write().unwrap_or_else(|_| panic!("closed"));
    assign(&mut guard, Some(3));
    assert_eq!(guard.bitrate, Some(3));
    drop(guard);
    assert_eq!(c.get(), Some(3));
}

#[test]
fn observations_settle() {
    let p = BandwidthProducer::new();
    let mut c = p.consume();
    assert_eq!(c.settle(Observation::Changed(Some(4))), Change::Ready(Some(4)));
    assert_eq!(c.settle(Observation::Unchanged), Change::Pending);
    assert_eq!(c.settle(Observation::Closed), Change::Ready(None));
    // What was seen last is remembered.
    p.set(Some(4)).unwrap();
    assert_eq!(c.poll_changed(&Waiter::noop()), Change::Pending);
}

#[test]
fn only_a_difference_is_a_change() {
    assert_eq!(change(Some(1), None), Some(Some(1)));
    assert_eq!(change(None, Some(1)), Some(None));
    assert_eq!(change(Some(1), Some(2)), Some(Some(1)));
    assert_eq!(change(Some(1), Some(1)), None);
    assert_eq!(change(None, None), None);
}

#[test]
fn a_pending_waiter_is_woken_by_the_end_of_the_channel() {
    let p = BandwidthProducer::new();
    let mut c = p.consume();
    let count = Arc::new(Count(AtomicUsize::new(0)));
    let w = Waiter::new(Waker::from(count.clone()));
    assert_eq!(c.poll_changed(&w), Change::Pending);
    drop(p);
    assert_eq!(count.0.load(Ordering::SeqCst), 1);
    assert_eq!(c.poll_changed(&w), Change::Ready(None));
}
