use adamoq::bandwidth::BandwidthProducer;
use adamoq::error::{Error, Failure};
use adamoq::link::LinkStats;
use adamoq::lite::{after_setup_read, conclude, start, PollEvent, Polling, SetupRead};
use adamoq::session::{received_rate, Session, Version};
use std::sync::atomic::{AtomicU64, Ordering};
use std::sync::Arc;

fn failure(error: Error, code: u32, message: &str) -> Failure {
    Failure { error, code, message: message.to_string() }
}

fn stats(estimated_send_rate: Option<u64>) -> LinkStats {
    LinkStats {
        rtt: None,
        packets_received: None,
        packets_lost: None,
        bytes_received: None,
        congestion_window: None,
        estimated_send_rate,
    }
}

#[test]
fn a_session_knows_its_version_and_rates() {
    let s = Session::new(Version::Lite03);
    assert_eq!(s.version(), Version::Lite03);
    assert_eq!(Session::new(Version::Other(7)).version(), Version::Other(7));
    assert_eq!(s.estimated_send_rate(&stats(Some(9))), Some(9));
    assert_eq!(s.estimated_send_rate(&stats(None)), None);
    assert_eq!(s.estimated_recv_rate(), None);
    assert_eq!(Session::new(Version::Other(7)).estimated_recv_rate(), None);
}

#[test]
fn the_receive_rate_is_shared() {
    let rate = Arc::new(AtomicU64::new(0));
    let s = Session::new(Version::Lite03).with_recv_rate(rate.clone());
    assert_eq!(s.estimated_recv_rate(), None);
    rate.store(1_500_000, Ordering::Relaxed);
    assert_eq!(s.estimated_recv_rate(), Some(1_500_000));
    assert_eq!(s.clone().estimated_recv_rate(), Some(1_500_000));
    assert_eq!(received_rate(0), None);
    assert_eq!(received_rate(1), Some(1));
}

#[test]
fn a_session_closes_once() {
    let mut s = Session::new(Version::Lite03);
    let frame = s.close(failure(Error::Other, 42, "went wrong")).unwrap();
    assert_eq!((frame.code, frame.reason.as_str()), (42, "went wrong"));
    assert!(s.close(failure(Error::Cancel, 0, "again")).is_none());
    assert!(s.dropped(0).is_none());
}

#[test]
fn an_open_session_is_cancelled_when_dropped() {
    let s = Session::new(Version::Lite03);
    let frame = s.dropped(17).unwrap();
    assert_eq!((frame.code, frame.reason.as_str()), (17, "dropped"));
}

#[test]
fn the_transport_is_closed_by_the_outcome() {
    let frame = conclude(Ok(()));
    assert_eq!((frame.code, frame.reason.as_str()), (0, ""));
    let frame = conclude(Err(failure(Error::Transport, 4, "transport")));
    assert_eq!((frame.code, frame.reason.as_str()), (1, ""));
    let frame = conclude(Err(failure(Error::Cancel, 9, "cancelled")));
    assert_eq!((frame.code, frame.reason.as_str()), (9, "cancelled"));
    let frame = conclude(Err(failure(Error::Dropped, 24, "dropped")));
    assert_eq!((frame.code, frame.reason.as_str()), (24, "dropped"));
}

#[test]
fn a_receive_rate_needs_its_version() {
    let channels = start(Version::Lite03);
    channels.send.set(Some(1)).unwrap();
    assert_eq!(channels.send_consumer.get(), Some(1));
    assert_eq!(channels.recv_consumer.as_ref().unwrap().get(), None);
    channels.recv.unwrap().set(Some(2)).unwrap();
    assert_eq!(channels.send_consumer.get(), Some(1));
    assert_eq!(channels.recv_consumer.unwrap().get(), Some(2));

    let channels = start(Version::Other(2));
    channels.send.set(Some(3)).unwrap();
    assert_eq!(channels.send_consumer.get(), Some(3));
    assert!(channels.recv.is_none());
    assert!(channels.recv_consumer.is_none());
}

#[test]
fn polling_follows_the_consumers() {
    assert_eq!(Polling::Idle.next(PollEvent::Used { ok: true }), Polling::Active);
    assert_eq!(Polling::Idle.next(PollEvent::Used { ok: false }), Polling::Stopped);
    assert_eq!(Polling::Idle.next(PollEvent::Written { ok: true }), Polling::Idle);
    assert_eq!(Polling::Active.next(PollEvent::Written { ok: true }), Polling::Active);
    assert_eq!(Polling::Active.next(PollEvent::Written { ok: false }), Polling::Stopped);
    assert_eq!(Polling::Active.next(PollEvent::Unused { ok: true }), Polling::Idle);
    assert_eq!(Polling::Active.next(PollEvent::Unused { ok: false }), Polling::Stopped);
    assert_eq!(Polling::Stopped.next(PollEvent::Used { ok: true }), Polling::Stopped);
}

#[test]
fn a_polled_rate_reaches_the_consumers() {
    let p = BandwidthProducer::new();
    let c = p.consume();
    assert_eq!(Polling::Active.tick(&p, Some(8)), Polling::Active);
    assert_eq!(c.get(), Some(8));
    assert!(p.shared().close().is_ok());
    assert_eq!(Polling::Active.tick(&p, Some(9)), Polling::Stopped);
    assert_eq!(c.get(), Some(8));
}

#[test]
fn the_setup_stream_ends_the_session() {
    assert!(after_setup_read(SetupRead::Info, 5, "cancelled".to_string()).is_none());
    let end = after_setup_read(SetupRead::End, 5, "cancelled".to_string()).unwrap();
    assert_eq!((end.error, end.code, end.message.as_str()), (Error::Cancel, 5, "cancelled"));
    let read = SetupRead::Failed(failure(Error::Other, 6, "bad"));
    let end = after_setup_read(read, 5, "cancelled".to_string()).unwrap();
    assert_eq!((end.error, end.code, end.message.as_str()), (Error::Other, 6, "bad"));
}
