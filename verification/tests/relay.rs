use adamoq::allocator::AllocatorState;
use adamoq::clock::{Duration, Instant};
use adamoq::datagram::{
    classify, encode_ceiling, encode_heartbeat, encode_keyframe_request, encode_stats,
    encode_sync_response, Incoming, LinkReport,
};
use adamoq::link::{or_zero, LinkStats};
use adamoq::relay::{
    admission, forward, Action, FeedbackLoop, ForwardAction, ForwardEvent, Role,
};
use bytes::Bytes;

fn start() -> Instant {
    Instant::from_nanos(1_000_000_000_000)
}

fn stats(bytes: u64, packets: u64, lost: u64) -> LinkStats {
    LinkStats {
        rtt: Some(Duration::from_micros(50_000)),
        packets_received: Some(packets),
        packets_lost: Some(lost),
        bytes_received: Some(bytes),
        congestion_window: Some(14_720),
        estimated_send_rate: Some(777),
    }
}

fn sent(action: Action) -> Vec<u8> {
    match action {
        Action::Send(data) => data.to_vec(),
        Action::Wait => panic!("waits"),
        Action::Stop => panic!("stops"),
    }
}

#[test]
fn stats_are_encoded_field_by_field() {
    let report = LinkReport {
        bytes_received: 0x0102_0304_0506_0708,
        packets_received: 2,
        packets_lost: 3,
        rtt_us: u64::MAX,
        congestion_window: 5,
        inbound_bps: 99,
    };
    let mut expected = vec![0x03];
    for n in [0x0102_0304_0506_0708u64, 2, 3, u64::MAX, 5, 1_700_000_000_000_000] {
        expected.extend_from_slice(&n.to_be_bytes());
    }
    let data = encode_stats(&report, 1_700_000_000_000_000);
    assert_eq!(data.len(), 49);
    assert_eq!(data.to_vec(), expected);
}

#[test]
fn heartbeats_carry_the_time() {
    let data = encode_heartbeat(0xfedc_ba98_7654_3210);
    assert_eq!(data.to_vec(), vec![0x0a, 0xfe, 0xdc, 0xba, 0x98, 0x76, 0x54, 0x32, 0x10]);
}

#[test]
fn ceilings_are_in_kilobits() {
    let data = encode_ceiling(AllocatorState::Deficient, 1_234_567_999);
    let mut expected = vec![0x07];
    expected.extend_from_slice(&1_234_567u32.to_be_bytes());
    expected.push(2);
    assert_eq!(data.to_vec(), expected);
    // No limit while stable.
    let data = encode_ceiling(AllocatorState::Stable, 2_000_000);
    assert_eq!(data.to_vec(), vec![0x07, 0, 0, 0, 0, 0]);
    assert_eq!(encode_ceiling(AllocatorState::EarlyWarning, 1_000).to_vec(), vec![7, 0, 0, 0, 1, 1]);
    assert_eq!(encode_ceiling(AllocatorState::Probing, 999).to_vec(), vec![7, 0, 0, 0, 0, 3]);
    // What 32 bits do not hold is cut off.
    let data = encode_ceiling(AllocatorState::Deficient, u64::MAX);
    assert_eq!(data.to_vec()[1..5], ((u64::MAX / 1000) as u32).to_be_bytes());
}

#[test]
fn keyframe_requests_are_one_byte() {
    assert_eq!(encode_keyframe_request().to_vec(), vec![0x04]);
}

#[test]
fn datagrams_are_told_apart() {
    let request = Bytes::from_static(&[1, 2, 3, 4, 5, 6, 7, 8, 9]);
    assert_eq!(classify(&request), Incoming::SyncRequest);
    assert_eq!(classify(&Bytes::from_static(&[1, 2, 3])), Incoming::Unknown);
    assert_eq!(classify(&Bytes::from_static(&[1; 10])), Incoming::Unknown);
    assert_eq!(classify(&Bytes::from_static(&[5])), Incoming::Video);
    assert_eq!(classify(&Bytes::from_static(&[5; 9])), Incoming::Video);
    assert_eq!(classify(&Bytes::from_static(&[])), Incoming::Unknown);
    assert_eq!(classify(&Bytes::from_static(&[2; 25])), Incoming::Unknown);
}

#[test]
fn the_time_of_a_client_is_echoed() {
    let request = Bytes::from_static(&[1, 2, 3, 4, 5, 6, 7, 8, 9]);
    let data = encode_sync_response(&request, 10, 11);
    let mut expected = vec![0x02, 2, 3, 4, 5, 6, 7, 8, 9];
    expected.extend_from_slice(&10u64.to_be_bytes());
    expected.extend_from_slice(&11u64.to_be_bytes());
    assert_eq!(data.len(), 25);
    assert_eq!(data.to_vec(), expected);
}

#[test]
fn a_round_is_a_report_and_a_heartbeat() {
    let now = start();
    let mut f = FeedbackLoop::new(now);
    let t = now.after(Duration::from_millis(100));
    let report = f.begin(&stats(25_000, 10, 0), t, 1).to_vec();
    assert_eq!(report[0], 0x03);
    assert_eq!(report[1..9], 25_000u64.to_be_bytes());
    assert_eq!(report[9..17], 10u64.to_be_bytes());
    assert_eq!(report[17..25], 0u64.to_be_bytes());
    assert_eq!(report[25..33], 50_000u64.to_be_bytes());
    assert_eq!(report[33..41], 14_720u64.to_be_bytes());
    assert_eq!(report[41..49], 1u64.to_be_bytes());
    let mut heartbeat = vec![0x0a];
    heartbeat.extend_from_slice(&2u64.to_be_bytes());
    assert_eq!(sent(f.proceed(true, t, 2)), heartbeat);
    // Nothing to say during warmup.
    assert!(matches!(f.proceed(true, t, 3), Action::Wait));
    assert!(matches!(f.proceed(true, t, 3), Action::Wait));
}

#[test]
fn missing_counters_are_zero() {
    let none = LinkStats {
        rtt: None,
        packets_received: None,
        packets_lost: None,
        bytes_received: None,
        congestion_window: None,
        estimated_send_rate: None,
    };
    let mut f = FeedbackLoop::new(start());
    let report = f.begin(&none, start(), 0).to_vec();
    assert_eq!(report[1..49], [0; 48]);
    assert_eq!(or_zero(None), 0);
    assert_eq!(or_zero(Some(3)), 3);
    assert_eq!(none.rtt_us(), 0);
}

#[test]
fn round_trips_are_whole_microseconds() {
    let mut s = stats(0, 0, 0);
    s.rtt = Some(Duration::from_nanos(1_999));
    assert_eq!(s.rtt_us(), 1);
    let long = std::time::Duration::from_secs(u64::MAX);
    s.rtt = Some(Duration { nanos: long.as_nanos() });
    assert_eq!(s.rtt_us(), long.as_micros() as u64);
}

#[test]
fn a_lost_connection_ends_the_loop() {
    let mut f = FeedbackLoop::new(start());
    f.begin(&stats(0, 0, 0), start(), 0);
    assert!(matches!(f.proceed(false, start(), 0), Action::Stop));
    assert!(matches!(f.proceed(true, start(), 0), Action::Stop));

    let mut f = FeedbackLoop::new(start());
    f.begin(&stats(0, 0, 0), start(), 0);
    sent(f.proceed(true, start(), 0));
    assert!(matches!(f.proceed(false, start(), 0), Action::Stop));
}

#[test]
fn loss_lowers_the_ceiling_and_asks_for_keyframes() {
    let now = start();
    let mut f = FeedbackLoop::new(now);
    let mut keyframes = Vec::new();
    let mut ceilings = Vec::new();
    let mut bytes = 0;
    for i in 1u64..=40 {
        let t = now.after(Duration::from_millis(500 * i));
        bytes += 124_000; // just below 2 Mbps
        f.begin(&stats(bytes, 100 * i, 100 * i), t, i);
        sent(f.proceed(true, t, i));
        let mut action = f.proceed(true, t, i);
        while let Action::Send(data) = action {
            if data[0] == 0x07 {
                ceilings.push((500 * i, data.to_vec()));
            } else {
                assert_eq!(data.to_vec(), vec![0x04]);
                keyframes.push(500 * i);
            }
            // A failure here does not end the loop.
            action = f.proceed(false, t, i);
        }
        assert!(matches!(action, Action::Wait));
    }
    // The first decision comes after the warmup of five seconds. By then half of
    // the packets were lost for long, and the first probe is due.
    let (at, first) = ceilings[0].clone();
    assert_eq!(at, 5_000);
    assert_eq!(first[5], AllocatorState::Probing.as_u8());
    let mut loss = 0.0f64;
    for _ in 0..10 {
        loss = 0.5 * 0.5 + (1.0 - 0.5) * loss;
    }
    let ceiling = (2_000_000.0f64 * (1.0 - 1.5 * loss)) as u64;
    assert_eq!(first[1..5], (((ceiling + 200_000) / 1000) as u32).to_be_bytes());
    // The probe fails, and the picture needs repair.
    let (at, second) = ceilings[1].clone();
    assert_eq!(at, 6_000);
    assert_eq!(second[5], AllocatorState::Deficient.as_u8());
    assert_eq!(second[1..5], ((ceiling / 1000) as u32).to_be_bytes());
    assert_eq!(keyframes[0], 6_000);
    assert!(keyframes.len() > 2);
    for pair in keyframes.windows(2) {
        assert!(pair[1] - pair[0] > 2_000);
    }
}

#[test]
fn throughput_is_what_the_peer_delivers() {
    // 125_000 bytes in half a second are two megabits per second: no limit.
    let now = start();
    let mut f = FeedbackLoop::new(now);
    for i in 1u64..=30 {
        let t = now.after(Duration::from_millis(500 * i));
        f.begin(&stats(125_000 * i, 100 * i, 0), t, i);
        sent(f.proceed(true, t, i));
        assert!(matches!(f.proceed(true, t, i), Action::Wait));
    }
    // A steep fall shows, as the trend of the throughput turns down.
    let mut bytes = 125_000 * 30;
    let mut states = Vec::new();
    for i in 31u64..=60 {
        let t = now.after(Duration::from_millis(500 * i));
        bytes += 12_500;
        f.begin(&stats(bytes, 100 * i, 0), t, i);
        sent(f.proceed(true, t, i));
        let mut action = f.proceed(true, t, i);
        while let Action::Send(data) = action {
            states.push(data[5]);
            action = f.proceed(true, t, i);
        }
    }
    assert!(states.contains(&AllocatorState::Deficient.as_u8()));
}

fn heartbeat_of(stats: &LinkStats) -> FeedbackLoop {
    let mut f = FeedbackLoop::new(start());
    f.begin(stats, start().after(Duration::from_millis(100)), 0);
    assert!(f.is_ordinary());
    sent(f.proceed(true, start(), 0));
    f
}

#[test]
fn astronomical_readings_are_not_ordinary() {
    let mut s = stats(1, u64::MAX, 1);
    assert!(!heartbeat_of(&s).is_ordinary());
    // Without throughput the packets are not looked at.
    s.bytes_received = Some(0);
    assert!(heartbeat_of(&s).is_ordinary());
    s.bytes_received = Some(1);
    s.packets_lost = Some(0);
    assert!(heartbeat_of(&s).is_ordinary());
    s.rtt = Some(Duration::from_micros(u64::MAX / 5 + 1));
    assert!(!heartbeat_of(&s).is_ordinary());
    s.rtt = Some(Duration::from_micros(u64::MAX / 5));
    assert!(heartbeat_of(&s).is_ordinary());
}

#[test]
fn only_the_packets_since_the_last_report_count() {
    let big = u64::MAX / 2 + 1;
    let now = start();
    let mut f = FeedbackLoop::new(now);
    for (i, (packets, lost)) in [(big, 0), (big, big)].into_iter().enumerate() {
        let t = now.after(Duration::from_millis(500 * (i as u64 + 1)));
        f.begin(&stats(1_000 * (i as u64 + 1), packets, lost), t, 0);
        sent(f.proceed(true, t, 0));
        assert!(f.is_ordinary());
        assert!(matches!(f.proceed(true, t, 0), Action::Wait));
    }
}

#[test]
fn a_signal_can_be_looked_at_while_it_is_sent() {
    let now = start();
    let mut f = FeedbackLoop::new(now);
    let mut seen = 0;
    for i in 1u64..=20 {
        let t = now.after(Duration::from_millis(500 * i));
        f.begin(&stats(100_000 * i, 100 * i, 100 * i), t, i);
        assert!(f.signal().is_none());
        sent(f.proceed(true, t, i));
        let mut action = f.proceed(true, t, i);
        while let Action::Send(data) = action {
            if data[0] == 0x07 {
                let signal = f.signal().unwrap();
                assert_eq!(data[5], signal.state.as_u8());
                seen += 1;
            } else {
                assert!(f.signal().is_none());
            }
            action = f.proceed(true, t, i);
        }
    }
    assert!(seen > 0);
}

#[test]
fn video_does_not_go_back_to_its_sender() {
    assert_eq!(forward(ForwardEvent::Received { own: true }), ForwardAction::Receive);
    assert_eq!(forward(ForwardEvent::Received { own: false }), ForwardAction::Send);
}

#[test]
fn forwarding_survives_gaps() {
    assert_eq!(forward(ForwardEvent::Received { own: false }), ForwardAction::Send);
    assert_eq!(forward(ForwardEvent::Lagged), ForwardAction::Receive);
    assert_eq!(forward(ForwardEvent::Closed), ForwardAction::Stop);
    assert_eq!(forward(ForwardEvent::Sent { ok: true }), ForwardAction::Receive);
    assert_eq!(forward(ForwardEvent::Sent { ok: false }), ForwardAction::Stop);
}

#[test]
fn clients_are_admitted_by_what_they_may_do() {
    let a = admission(Some("p"), Some(1)).unwrap();
    assert_eq!((a.role, a.publish, a.consume), (Role::Session, Some(1), Some("p")));
    let a = admission(Some("p"), None::<u8>).unwrap();
    assert_eq!((a.role, a.publish, a.consume), (Role::Publisher, None, Some("p")));
    let a = admission(None::<&str>, Some(1)).unwrap();
    assert_eq!((a.role, a.publish, a.consume), (Role::Subscriber, Some(1), None));
    assert!(admission(None::<&str>, None::<u8>).is_none());
}
