//! Laws of the relay, its datagrams, its sessions and the simulator in terms of what
//! goes in and what comes out.

use crate::allocator::AllocatorState;
use crate::bandwidth::{change, Channel};
use crate::clock::{elapsed, Instant};
use crate::config::{
    FEEDBACK_INTERVAL_MILLIS, PROBE_BACKOFF_FACTOR, TREND_MIN_SAMPLES, TREND_PROBE_SAMPLES,
    TREND_REQUIRED_SAMPLES,
};
use crate::controller::BitrateSignal;
use crate::datagram::{
    big_endian, big_endian_value, ceiling_kbps, classify, contents, is_sync_request, is_video,
    keyframe_message, lemma_big_endian_len, Incoming, LinkReport,
};
use crate::decimals::{law_fractions, ratio};
use crate::error::{Error, Failure};
use crate::estimator::TransportStats;
use crate::link::{or_zero, LinkStats};
use crate::lite::{after_setup_read, conclude, PollEvent, Polling, SetupRead, POLL_INTERVAL_MILLIS};
use crate::relay::{
    admission, controller_stats, forward, throughput, Action, Admission, FeedbackView,
    ForwardAction, ForwardEvent, Phase, Role,
};
use crate::relay_laws::{
    law_ceiling_survives, law_heartbeat_survives, law_scenarios_are_named,
};
use crate::session::{loads, received_rate, CloseFrame, Session, SessionView};
use crate::sim::{Replay, ReplayView, Row, Scenario, Tick};
use crate::trend::TrendDirection;
use crate::value::{less, Value};
use bytes::Bytes;
use std::sync::atomic::AtomicU64;
use vstd::arithmetic::div_mod::lemma_div_denominator;
use vstd::arithmetic::power::{lemma_pow0, lemma_pow1, lemma_pow_adds, lemma_pow_positive, pow};
use vstd::prelude::*;

verus! {

/// The whole numbers that the library is set to.
pub proof fn law_settings()
    ensures
        TREND_REQUIRED_SAMPLES == 12,
        TREND_MIN_SAMPLES == 8,
        TREND_PROBE_SAMPLES == 3,
        PROBE_BACKOFF_FACTOR == 2,
        FEEDBACK_INTERVAL_MILLIS == 500,
        POLL_INTERVAL_MILLIS == 100,
{
}

/// The time between two instants is what leads from one to the other. There is none
/// where the second is not the later one.
pub proof fn law_elapsed(a: Instant, b: Instant)
    ensures
        a.nanos <= b.nanos ==> a.nanos + elapsed(a, b) == b.nanos,
        a.nanos >= b.nanos ==> elapsed(a, b) == 0,
{
}

// Datagrams.

/// The bytes of a number, the highest first.
pub proof fn law_highest_byte_first(n: nat, width: nat, i: int)
    requires
        0 <= i < width,
    ensures
        big_endian(n, width).len() == width,
        big_endian(n, width)[i] == (n as int / pow(256, (width - 1 - i) as nat)) % 256,
    decreases width,
{
    lemma_big_endian_len(n, width);
    let w = (width - 1) as nat;
    lemma_big_endian_len(n / 256, w);
    if i == w {
        lemma_pow0(256);
    } else {
        law_highest_byte_first(n / 256, w, i);
        let k = (w - 1 - i) as nat;
        lemma_pow_adds(256, k, 1);
        lemma_pow1(256);
        lemma_pow_positive(256, k);
        lemma_div_denominator(n as int, 256, pow(256, k));
        assert(256 * pow(256, k) == pow(256, k) * 256) by (nonlinear_arith);
    }
}

/// What the relay makes of a datagram: nine bytes that begin with 0x01 ask for the
/// time, and any that begin with 0x05 are video.
pub proof fn law_kinds_of_datagrams(data: Seq<u8>)
    ensures
        is_sync_request(data) <==> data.len() == 9 && data.first() == 0x01,
        is_video(data) <==> data.len() != 0 && data.first() == 0x05,
        keyframe_message() == seq![0x04u8],
{
}

/// The kilobits per second of a ceiling: none while stable, else the whole thousands, of
/// which the lowest 32 bits are kept.
pub proof fn law_kilobits(state: AllocatorState, ceiling_bps: u64)
    ensures
        state == AllocatorState::Stable ==> ceiling_kbps(state, ceiling_bps) == 0,
        state != AllocatorState::Stable ==> {
            let kbps = ceiling_kbps(state, ceiling_bps);
            &&& (ceiling_bps as int / 1_000 - kbps) % 0x1_0000_0000 == 0
            &&& ceiling_bps < 0x1_0000_0000 * 1_000 ==> kbps * 1_000 <= ceiling_bps < kbps * 1_000
                + 1_000
        },
{
}

/// What the relay does with a datagram: it answers a request for the time, passes video
/// on, and ignores anything else.
pub proof fn law_incoming(data: Bytes, r: Incoming)
    requires
        call_ensures(classify, (&data,), r),
    ensures
        r == Incoming::SyncRequest <==> contents(data).len() == 9 && contents(data).first() == 0x01,
        r == Incoming::Video <==> contents(data).len() != 0 && contents(data).first() == 0x05,
{
}

// Feedback.

/// What a report says of a reading: its counters, zero for one that is missing; the
/// round-trip time in microseconds; and the throughput of the bytes since the last
/// report over the time since then. The next one counts from here.
pub proof fn law_report(v: FeedbackView, stats: LinkStats, now: Instant)
    ensures
        ({
            let w = v.begun(stats, now);
            let r = v.report(stats, now);
            let fresh = if r.bytes_received > v.prev_bytes_received {
                (r.bytes_received - v.prev_bytes_received) as nat
            } else {
                0
            };
            &&& w.phase == Phase::Report(r)
            &&& w.prev_bytes_received == r.bytes_received
            &&& w.prev_time == now
            &&& w.controller == v.controller
            &&& w.last_keyframe_request == v.last_keyframe_request
            &&& stats.bytes_received matches Some(n) ==> r.bytes_received == n
            &&& stats.bytes_received is None ==> r.bytes_received == 0
            &&& stats.packets_received matches Some(n) ==> r.packets_received == n
            &&& stats.packets_received is None ==> r.packets_received == 0
            &&& stats.packets_lost matches Some(n) ==> r.packets_lost == n
            &&& stats.packets_lost is None ==> r.packets_lost == 0
            &&& stats.congestion_window matches Some(n) ==> r.congestion_window == n
            &&& stats.congestion_window is None ==> r.congestion_window == 0
            &&& stats.rtt matches Some(d) ==> d.nanos <= u64::MAX ==> r.rtt_us * 1_000 <= d.nanos
                < r.rtt_us * 1_000 + 1_000
            &&& stats.rtt matches Some(d) ==> (d.nanos as int / 1_000 - r.rtt_us)
                % 0x1_0000_0000_0000_0000 == 0
            &&& stats.rtt is None ==> r.rtt_us == 0
            &&& r.inbound_bps == throughput(fresh, elapsed(v.prev_time, now))
        }),
{
}

/// What the bitrate controller of a relay is told: the inbound throughput, the packets
/// that came and those that were lost, and the round-trip time.
pub proof fn law_told(report: LinkReport)
    ensures
        ({
            let s = controller_stats(report);
            &&& s.estimated_send_rate_bps == report.inbound_bps
            &&& s.packets_sent == report.packets_received
            &&& s.packets_lost == report.packets_lost
            &&& s.bytes_sent == report.bytes_received
            &&& s.rtt_us == report.rtt_us
        }),
{
}

/// A feedback loop starts with a controller for two megabits per second.
pub proof fn law_new_feedback(now: Instant)
    ensures
        ({
            let v = FeedbackView::fresh(now);
            &&& v.phase is Waiting
            &&& v.controller.allocator.target_bps == 2_000_000
            &&& v.controller.created == now
            &&& v.last_keyframe_request == now
            &&& v.prev_bytes_received == 0
            &&& v.prev_time == now
        }),
{
}

/// After a report that could be sent comes a heartbeat with the time. After a report
/// or a heartbeat that could not be sent comes nothing more.
pub proof fn law_after_a_report(
    v: FeedbackView,
    sent: bool,
    now: Instant,
    now_us: u64,
    next: FeedbackView,
    action: Action,
)
    requires
        v.goes_on(sent, now, now_us, next, action),
        v.phase is Report || v.phase is Heartbeat && !sent,
    ensures
        next.controller == v.controller,
        next.last_keyframe_request == v.last_keyframe_request,
        next.prev_bytes_received == v.prev_bytes_received,
        next.prev_time == v.prev_time,
        !sent ==> next.phase is Stopped && action is Stop,
        sent ==> {
            &&& next.phase == Phase::Heartbeat(v.phase->Report_0)
            &&& action matches Action::Send(b)
            &&& contents(b).len() == 9
            &&& contents(b)[0] == 0x0a
            &&& big_endian_value(contents(b).subrange(1, 9)) == now_us
        },
{
    law_heartbeat_survives(now_us);
}

/// After a heartbeat that could be sent, the controller takes in the report. Exactly
/// if it has a signal, the publisher is sent the ceiling of that signal in kilobits
/// per second, zero for no limit, and the number of the state.
pub proof fn law_after_a_heartbeat(
    v: FeedbackView,
    report: LinkReport,
    now: Instant,
    now_us: u64,
    next: FeedbackView,
    action: Action,
)
    requires
        v.phase == Phase::Heartbeat(report),
        v.goes_on(true, now, now_us, next, action),
    ensures
        ({
            let told = TransportStats {
                estimated_send_rate_bps: report.inbound_bps,
                packets_sent: report.packets_received,
                packets_lost: report.packets_lost,
                bytes_sent: report.bytes_received,
                rtt_us: report.rtt_us,
            };
            &&& next.controller == v.controller.updated(told, now)
            &&& next.last_keyframe_request == v.last_keyframe_request
            &&& next.prev_bytes_received == v.prev_bytes_received
            &&& next.prev_time == v.prev_time
            &&& v.controller.signals(told, now) <==> next.phase is Ceiling
            &&& !(next.phase is Ceiling) ==> next.phase is Waiting && action is Wait
            &&& next.phase matches Phase::Ceiling(signal) ==> {
                &&& v.controller.announces(told, now, signal)
                &&& action is Send
                &&& signal.ceiling_bps <= 1_000 * u32::MAX ==> {
                    let m = contents(action->Send_0);
                    &&& m.len() == 6
                    &&& m[0] == 0x07
                    &&& big_endian_value(m.subrange(1, 5)) == (if signal.state
                        == AllocatorState::Stable {
                        0
                    } else {
                        signal.ceiling_bps as nat / 1_000
                    })
                    &&& m[5] == (match signal.state {
                        AllocatorState::Stable => 0u8,
                        AllocatorState::EarlyWarning => 1,
                        AllocatorState::Deficient => 2,
                        AllocatorState::Probing => 3,
                    })
                }
            }
        }),
{
    if let Phase::Ceiling(signal) = next.phase {
        if signal.ceiling_bps <= 1_000 * u32::MAX {
            law_ceiling_survives(signal.state, signal.ceiling_bps);
        }
    }
}

/// After a ceiling, whether or not it could be sent, a keyframe is requested exactly if
/// the state is deficient, the loss is above 5%, and the last request is more than two
/// seconds old. Its time is noted once it went out.
pub proof fn law_after_a_ceiling(
    v: FeedbackView,
    sent: bool,
    now: Instant,
    now_us: u64,
    next: FeedbackView,
    action: Action,
)
    requires
        v.goes_on(sent, now, now_us, next, action),
    ensures
        v.phase matches Phase::Ceiling(signal) ==> {
            let due = signal.state == AllocatorState::Deficient && less(
                ratio(5, 100),
                signal.estimate.loss_rate@,
            ) && elapsed(v.last_keyframe_request, now) > 2_000_000_000;
            &&& due ==> {
                &&& next.phase is Keyframe
                &&& action matches Action::Send(b)
                &&& contents(b) == seq![0x04u8]
            }
            &&& !due ==> next.phase is Waiting && action is Wait
            &&& next == (FeedbackView { phase: next.phase, ..v })
        },
        v.phase is Keyframe ==> action is Wait && next == (FeedbackView {
            phase: Phase::Waiting,
            last_keyframe_request: now,
            ..v
        }),
        v.phase is Waiting ==> action is Wait && next == v,
        v.phase is Stopped ==> action is Stop && next == v,
{
    law_fractions();
}

/// Which reports are ordinary: those that the estimator can take in, with a round-trip
/// time of which five can be counted in 64 bits. Only a report that is due matters.
pub proof fn law_ordinary(v: FeedbackView)
    ensures
        v.phase matches Phase::Heartbeat(r) ==> (v.ordinary() <==> r.rtt_us * 5
            < 0x1_0000_0000_0000_0000 && v.controller.estimator.accepts(
            TransportStats {
                estimated_send_rate_bps: r.inbound_bps,
                packets_sent: r.packets_received,
                packets_lost: r.packets_lost,
                bytes_sent: r.bytes_received,
                rtt_us: r.rtt_us,
            },
        )),
        !(v.phase is Heartbeat) ==> v.ordinary(),
{
}

/// A datagram of another connection is sent, one of its own is not. Gaps are passed
/// over; the end of the datagrams or of the connection is the end.
pub proof fn law_forwarding(event: ForwardEvent, r: ForwardAction)
    requires
        call_ensures(forward, (event,), r),
    ensures
        r == ForwardAction::Send <==> event == (ForwardEvent::Received { own: false }),
        r == ForwardAction::Stop <==> event == ForwardEvent::Closed || event
            == (ForwardEvent::Sent { ok: false }),
{
}

/// A client is turned away exactly if it may do nothing. What it may subscribe to is
/// published to it, and what it may publish is consumed.
pub proof fn law_admission<P, S>(
    publish: Option<P>,
    subscribe: Option<S>,
    r: Option<Admission<P, S>>,
)
    requires
        call_ensures(admission::<P, S>, (publish, subscribe), r),
    ensures
        r is None <==> publish is None && subscribe is None,
        r matches Some(a) ==> {
            &&& a.publish == subscribe && a.consume == publish
            &&& a.role == Role::Session <==> publish is Some && subscribe is Some
            &&& a.role == Role::Publisher <==> subscribe is None
            &&& a.role == Role::Subscriber <==> publish is None
        },
{
}

// Sessions.

/// How a transport is closed: with zero and no reason after success, with one and no
/// reason if the transport failed, and else with the code and the text of the error.
pub proof fn law_conclusion(outcome: Result<(), Failure>, r: CloseFrame)
    requires
        call_ensures(conclude, (outcome,), r),
    ensures
        outcome is Ok ==> r.code == 0 && r.reason@ == ""@,
        outcome matches Err(e) ==> {
            &&& e.error == Error::Transport ==> r.code == 1 && r.reason@ == ""@
            &&& e.error != Error::Transport ==> r.code == e.code && r.reason@ == e.message@
        },
{
}

/// A session that is told no more of its setup goes on with a message, is cancelled at
/// the end of the stream, and passes on an error.
pub proof fn law_setup(read: SetupRead, code: u32, message: String, r: Option<Failure>)
    requires
        call_ensures(after_setup_read, (read, code, message), r),
    ensures
        r is None <==> read is Info,
        read is End ==> (r->0).error == Error::Cancel && (r->0).code == code && (r->0).message
            == message,
        read matches SetupRead::Failed(e) ==> r == Some(e),
{
}

/// A counter that is zero is no receive rate, any other is the rate.
pub proof fn law_receive_rate(counter: u64, r: Option<u64>)
    requires
        call_ensures(received_rate, (counter,), r),
    ensures
        counter == 0 <==> r is None,
        r matches Some(rate) ==> rate == counter,
{
}

/// The receive rate of a session is what its own counter gave when it was read: nothing
/// only for a zero, and else that number.
pub proof fn law_rate_of_session(session: Session, r: Option<u64>)
    requires
        call_ensures(Session::estimated_recv_rate, (&session,), r),
    ensures
        exists|n: u64| #[trigger]
            call_ensures(
                AtomicU64::load,
                (&*session@.rate, std::sync::atomic::Ordering::Relaxed),
                n,
            ) && (n == 0 <==> r is None) && (r matches Some(rate) ==> rate == n),
{
    let n = match r {
        None => 0u64,
        Some(rate) => rate,
    };
    assert(loads(*session@.rate, n));
}

/// A transport is owed its end until the session is closed, which changes nothing else.
pub proof fn law_owing(v: SessionView)
    ensures
        v.owes_close() <==> !v.closed,
        v.shut().closed,
        v.shut().version == v.version,
        v.shut().rate == v.rate,
{
}

/// The polling of the send rate begins with a consumer, rests with the last one gone,
/// and ends with any failure that it waits for. Nothing else moves it.
pub proof fn law_polling(state: Polling, event: PollEvent)
    ensures
        ({
            let next = state.spec_next(event);
            &&& next == Polling::Stopped <==> {
                ||| state == Polling::Stopped
                ||| state == Polling::Idle && event == (PollEvent::Used { ok: false })
                ||| state == Polling::Active && event == (PollEvent::Unused { ok: false })
                ||| state == Polling::Active && event == (PollEvent::Written { ok: false })
            }
            &&& next == Polling::Active <==> {
                ||| state == Polling::Idle && event == (PollEvent::Used { ok: true })
                ||| state == Polling::Active && (event is Used || event == (PollEvent::Written {
                    ok: true,
                }))
            }
        }),
{
}

/// What it means that a channel takes a bitrate: it is left there, and the consumers
/// are woken then if the channel never held that bitrate before, and are not if it
/// never held another.
pub proof fn law_taking(c: Channel, bitrate: Option<u64>)
    requires
        c.takes(bitrate),
    ensures
        c.left.contains((bitrate, true)) || c.left.contains((bitrate, false)),
        (forall|other: Option<u64>| #[trigger] c.bitrates.contains(other) ==> other == bitrate)
            ==> c.left.contains((bitrate, false)),
        !c.bitrates.contains(bitrate) ==> c.left.contains((bitrate, true)),
{
}

/// A change is a bitrate other than the last.
pub proof fn law_change(current: Option<u64>, last: Option<u64>, r: Option<Option<u64>>)
    requires
        call_ensures(change, (current, last), r),
    ensures
        r is None <==> current == last,
        r matches Some(b) ==> b == current,
{
}

/// A number that is missing counts as zero.
pub proof fn law_missing_numbers(n: Option<u64>, r: u64)
    requires
        call_ensures(or_zero, (n,), r),
    ensures
        n matches Some(m) ==> r == m,
        n is None ==> r == 0,
{
}

// Scenarios.

/// What the ticks of the scenarios are: every half second a hundred packets, at a
/// share of the target that is rounded down, and with losses and round-trip times
/// that go with the story.
pub proof fn law_scenarios(s: Scenario, i: int, target_bps: u64, t: Tick)
    requires
        0 <= i < s.ticks(),
        s.has_tick(i, target_bps, t),
    ensures
        ({
            let falls = s == Scenario::CleanThenCongested && 20 <= i < 60;
            let bad = s == Scenario::Flapping && i % 20 >= 10;
            let percent = if falls {
                100 - (3 * (i - 20)) / 2
            } else if bad {
                50
            } else if s == Scenario::SlowDrain {
                100 - (2 * i) / 3
            } else if s == Scenario::Cliff && i >= 20 {
                25
            } else {
                120
            };
            &&& t.elapsed_ms == 500 * i
            &&& t.interval_sent == 100
            &&& 100 * t.estimated_send_rate_bps <= target_bps * percent < 100
                * t.estimated_send_rate_bps + 100
            &&& t.interval_lost == (if falls && percent < 80 {
                3int
            } else if bad {
                10
            } else if s == Scenario::LossSpike && 20 <= i < 40 {
                20
            } else if s == Scenario::Cliff && 20 <= i < 30 {
                15
            } else {
                0
            })
            &&& t.rtt_us == (if falls {
                150_000 - 1_000 * percent
            } else if bad {
                150_000
            } else if s == Scenario::SlowDrain {
                100_000 - 500 * percent
            } else {
                50_000
            })
            &&& s.ticks() == (match s {
                Scenario::Clean => 60nat,
                Scenario::CleanThenCongested => 120,
                Scenario::LossSpike => 80,
                Scenario::Flapping => 120,
                Scenario::SlowDrain => 120,
                Scenario::Cliff => 60,
            })
        }),
{
}

/// The first tick has the highest rate, and that is what a target must leave room for.
pub proof fn law_highest_rate(s: Scenario, i: int, target_bps: u64, first: Tick, t: Tick)
    requires
        0 <= i < s.ticks(),
        s.has_tick(0, target_bps, first),
        s.has_tick(i, target_bps, t),
    ensures
        t.estimated_send_rate_bps <= first.estimated_send_rate_bps,
        100 * first.estimated_send_rate_bps <= target_bps * s.peak_percent() < 100
            * first.estimated_send_rate_bps + 100,
{
    let p = s.percent(i);
    let q = s.peak_percent();
    assert(target_bps * p <= target_bps * q) by (nonlinear_arith)
        requires
            p <= q,
    ;
}

/// The names of the scenarios. There are no others.
pub proof fn law_names(name: Seq<char>)
    ensures
        Scenario::spec_named("clean"@) == Some(Scenario::Clean),
        Scenario::spec_named("clean_then_congested"@) == Some(Scenario::CleanThenCongested),
        Scenario::spec_named("loss_spike"@) == Some(Scenario::LossSpike),
        Scenario::spec_named("flapping"@) == Some(Scenario::Flapping),
        Scenario::spec_named("slow_drain"@) == Some(Scenario::SlowDrain),
        Scenario::spec_named("cliff"@) == Some(Scenario::Cliff),
        Scenario::spec_named(name) is Some <==> {
            ||| name == "clean"@
            ||| name == "clean_then_congested"@
            ||| name == "loss_spike"@
            ||| name == "flapping"@
            ||| name == "slow_drain"@
            ||| name == "cliff"@
        },
{
    law_scenarios_are_named(Scenario::Clean);
    law_scenarios_are_named(Scenario::CleanThenCongested);
    law_scenarios_are_named(Scenario::LossSpike);
    law_scenarios_are_named(Scenario::Flapping);
    law_scenarios_are_named(Scenario::SlowDrain);
    law_scenarios_are_named(Scenario::Cliff);
}

/// A row of a replay shows the state and the ceiling of the controller, the time and the
/// round-trip time of the tick, and the estimate of the signal: the smoothed rate, the
/// loss rate and the trend. Without a signal it shows zeroes and no trend.
pub proof fn law_rows(replay: Replay, t: Tick, signal: Option<BitrateSignal>, row: Row)
    requires
        call_ensures(Replay::row, (&replay, &t, &signal), row),
    ensures
        row.elapsed_ms == t.elapsed_ms,
        row.rtt_us == t.rtt_us,
        row.state == replay@.controller.allocator.state,
        row.ceiling_bps == replay@.controller.allocator.ceiling_bps,
        signal matches Some(s) ==> {
            &&& row.estimate_bps == s.estimate.bps
            &&& row.loss_rate == s.estimate.loss_rate
            &&& row.trend == s.estimate.trend
            &&& s.probe matches Some(p) ==> row.probe_target_bps == p.target_bps
            &&& s.probe is None ==> row.probe_target_bps == 0
        },
        signal is None ==> row.estimate_bps == 0 && row.probe_target_bps == 0 && row.trend
            == TrendDirection::Inconclusive && row.loss_rate@ == (Value::Finite { units: 0 }),
{
}

/// What a replay makes of a tick: the packets add up, the time is that of the tick, and
/// the controller takes in the rate and the round-trip time of the tick.
pub proof fn law_replay(v: ReplayView, t: Tick, target_bps: u64, start: Instant)
    requires
        v.accepts(t),
    ensures
        ({
            let w = v.stepped(t);
            let stats = TransportStats {
                estimated_send_rate_bps: t.estimated_send_rate_bps,
                packets_sent: w.sent,
                packets_lost: w.lost,
                bytes_sent: 0,
                rtt_us: t.rtt_us,
            };
            let now = v.time(t);
            &&& w.sent == v.sent + t.interval_sent
            &&& w.lost == v.lost + t.interval_lost
            &&& now.nanos == v.start.nanos + 1_000_000 * t.elapsed_ms
            &&& w.controller == v.controller.updated(stats, now)
            &&& w.start == v.start && w.shown_state == v.shown_state && w.signals_emitted
                == v.signals_emitted
            &&& v.stats(t) == stats
        }),
        ({
            let f = ReplayView::fresh(target_bps, start);
            &&& f.sent == 0 && f.lost == 0 && f.signals_emitted == 0
            &&& f.shown_state == AllocatorState::Stable
            &&& f.start == start
            &&& f.controller.allocator.target_bps == target_bps
            &&& f.controller.created == start
        }),
{
}

} // verus!
