//! Laws of the relay and its sessions: what holds of every datagram, every round
//! of feedback and every replay.

use crate::allocator::AllocatorState;
use crate::clock::{elapsed, Instant};
use crate::config::{KEYFRAME_INTERVAL_NANOS, PROBE_SETTLE_RTTS, RELAY_TARGET_BPS};
use crate::datagram::{
    big_endian, big_endian_value, ceiling_kbps, ceiling_message, heartbeat_message,
    is_sync_request, lemma_big_endian_len, stats_message, sync_message, LinkReport,
};
use crate::laws::{
    ceiling_in_bounds, law_ceiling_stays_in_bounds, law_fresh_ceiling_in_bounds,
    law_ordinary_readings_accepted,
};
use crate::link::LinkStats;
use crate::lite::{PollEvent, Polling};
use crate::relay::{controller_stats, Action, FeedbackView, Phase};
use crate::session::SessionView;
use crate::sim::{ReplayView, Scenario, Tick};
use vstd::arithmetic::power::{lemma_pow0, lemma_pow1, lemma_pow_adds, pow};
use vstd::prelude::*;

verus! {

// Datagrams.

/// A number that fits into its bytes is read back as it was written.
pub proof fn law_numbers_survive(n: nat, width: nat)
    requires
        n < pow(256, width),
    ensures
        big_endian_value(big_endian(n, width)) == n,
    decreases width,
{
    let s = big_endian(n, width);
    lemma_big_endian_len(n, width);
    if width == 0 {
        lemma_pow0(256);
    } else {
        let w = (width - 1) as nat;
        lemma_pow_adds(256, w, 1);
        lemma_pow1(256);
        assert(n / 256 < pow(256, w));
        law_numbers_survive(n / 256, w);
        assert(s.drop_last() == big_endian(n / 256, w));
    }
}

/// What is written in eight bytes is any number of 64 bits.
proof fn lemma_u64_survives(n: u64)
    ensures
        big_endian(n as nat, 8).len() == 8,
        big_endian_value(big_endian(n as nat, 8)) == n,
{
    assert(pow(256, 8) == 0x1_0000_0000_0000_0000) by {
        reveal(pow);
        reveal_with_fuel(pow, 9);
    }
    lemma_big_endian_len(n as nat, 8);
    law_numbers_survive(n as nat, 8);
}

/// The transport stats have 49 bytes, from which every number can be read back.
pub proof fn law_stats_survive(report: LinkReport, now_us: u64)
    ensures
        stats_message(report, now_us).len() == 49,
        stats_message(report, now_us)[0] == 0x03,
        big_endian_value(stats_message(report, now_us).subrange(1, 9)) == report.bytes_received,
        big_endian_value(stats_message(report, now_us).subrange(9, 17)) == report.packets_received,
        big_endian_value(stats_message(report, now_us).subrange(17, 25)) == report.packets_lost,
        big_endian_value(stats_message(report, now_us).subrange(25, 33)) == report.rtt_us,
        big_endian_value(stats_message(report, now_us).subrange(33, 41)) == report.congestion_window,
        big_endian_value(stats_message(report, now_us).subrange(41, 49)) == now_us,
{
    let m = stats_message(report, now_us);
    lemma_u64_survives(report.bytes_received);
    lemma_u64_survives(report.packets_received);
    lemma_u64_survives(report.packets_lost);
    lemma_u64_survives(report.rtt_us);
    lemma_u64_survives(report.congestion_window);
    lemma_u64_survives(now_us);
    assert(m.subrange(1, 9) == big_endian(report.bytes_received as nat, 8));
    assert(m.subrange(9, 17) == big_endian(report.packets_received as nat, 8));
    assert(m.subrange(17, 25) == big_endian(report.packets_lost as nat, 8));
    assert(m.subrange(25, 33) == big_endian(report.rtt_us as nat, 8));
    assert(m.subrange(33, 41) == big_endian(report.congestion_window as nat, 8));
    assert(m.subrange(41, 49) == big_endian(now_us as nat, 8));
}

/// The heartbeat has 9 bytes, from which the time can be read back.
pub proof fn law_heartbeat_survives(now_us: u64)
    ensures
        heartbeat_message(now_us).len() == 9,
        heartbeat_message(now_us)[0] == 0x0a,
        big_endian_value(heartbeat_message(now_us).subrange(1, 9)) == now_us,
{
    lemma_u64_survives(now_us);
    assert(heartbeat_message(now_us).subrange(1, 9) == big_endian(now_us as nat, 8));
}

/// The ceiling has 6 bytes, from which the kilobits per second and the state can
/// be read back. A stable publisher is told that there is no limit.
pub proof fn law_ceiling_survives(state: AllocatorState, ceiling_bps: u64)
    requires
        ceiling_bps / 1_000 <= u32::MAX,
    ensures
        ceiling_message(state, ceiling_bps).len() == 6,
        ceiling_message(state, ceiling_bps)[0] == 0x07,
        big_endian_value(ceiling_message(state, ceiling_bps).subrange(1, 5)) == if state
            == AllocatorState::Stable {
            0
        } else {
            ceiling_bps as nat / 1_000
        },
        ceiling_message(state, ceiling_bps)[5] == state.code(),
{
    let kbps = ceiling_kbps(state, ceiling_bps);
    assert(pow(256, 4) == 0x1_0000_0000) by {
        reveal(pow);
        reveal_with_fuel(pow, 5);
    }
    lemma_big_endian_len(kbps as nat, 4);
    law_numbers_survive(kbps as nat, 4);
    assert(ceiling_message(state, ceiling_bps).subrange(1, 5) == big_endian(kbps as nat, 4));
}

/// The answer to a request for the time has 25 bytes and holds the time of the
/// client just as it was sent.
pub proof fn law_sync_response_echoes(request: Seq<u8>, received_us: u64, sent_us: u64)
    requires
        is_sync_request(request),
    ensures
        sync_message(request, received_us, sent_us).len() == 25,
        sync_message(request, received_us, sent_us)[0] == 0x02,
        sync_message(request, received_us, sent_us).subrange(1, 9) == request.subrange(1, 9),
        big_endian_value(sync_message(request, received_us, sent_us).subrange(9, 17))
            == received_us,
        big_endian_value(sync_message(request, received_us, sent_us).subrange(17, 25)) == sent_us,
{
    let m = sync_message(request, received_us, sent_us);
    lemma_u64_survives(received_us);
    lemma_u64_survives(sent_us);
    assert(m.subrange(1, 9) == request.subrange(1, 9));
    assert(m.subrange(9, 17) == big_endian(received_us as nat, 8));
    assert(m.subrange(17, 25) == big_endian(sent_us as nat, 8));
}

// Feedback.

/// Whether a feedback loop holds the target that it started with, and its
/// ceiling in bounds.
pub open spec fn on_target(v: FeedbackView) -> bool {
    &&& v.wf()
    &&& v.controller.allocator.target_bps == RELAY_TARGET_BPS
    &&& ceiling_in_bounds(v.controller.allocator)
}

/// A feedback loop keeps its ceiling in bounds at every step.
pub proof fn law_feedback_stays_on_target(
    v: FeedbackView,
    stats: LinkStats,
    sent: bool,
    now: Instant,
    now_us: u64,
    next: FeedbackView,
    action: Action,
)
    requires
        on_target(v),
        v.accepts(sent, now),
        v.goes_on(sent, now, now_us, next, action),
        next.wf(),
    ensures
        on_target(FeedbackView::fresh(now)),
        on_target(v.begun(stats, now)),
        on_target(next),
{
    law_fresh_ceiling_in_bounds(RELAY_TARGET_BPS, now);
    if let Phase::Heartbeat(report) = v.phase {
        law_ceiling_stays_in_bounds(
            v.controller.allocator,
            v.controller.estimate(controller_stats(report), now),
            now,
        );
    }
}

/// A feedback loop accepts every report with ordinary numbers.
pub proof fn law_ordinary_reports_accepted(v: FeedbackView, sent: bool, now: Instant)
    requires
        on_target(v),
        v.ordinary(),
    ensures
        v.accepts(sent, now),
{
    if let Phase::Heartbeat(report) = v.phase {
        law_ordinary_readings_accepted(v.controller, controller_stats(report), now);
    }
}

/// A round sends a report and then a heartbeat. The loop ends only if one of the
/// two cannot be sent, and then for good.
pub proof fn law_round_of_feedback(
    v: FeedbackView,
    sent: bool,
    now: Instant,
    now_us: u64,
    next: FeedbackView,
    action: Action,
)
    requires
        v.goes_on(sent, now, now_us, next, action),
    ensures
        v.phase is Report && sent ==> next.phase is Heartbeat && action is Send,
        action is Stop <==> next.phase is Stopped,
        action is Stop ==> v.phase is Stopped || !sent && (v.phase is Report
            || v.phase is Heartbeat),
        v.phase is Stopped ==> action is Stop,
{
}

/// Two requests for a keyframe are further apart than their interval: one is only
/// sent when the time since the one before is over, and only then that time
/// starts anew.
pub proof fn law_keyframes_are_spaced(
    v: FeedbackView,
    sent: bool,
    now: Instant,
    now_us: u64,
    next: FeedbackView,
    action: Action,
)
    requires
        v.goes_on(sent, now, now_us, next, action),
    ensures
        next.phase is Keyframe ==> elapsed(v.last_keyframe_request, now)
            > KEYFRAME_INTERVAL_NANOS,
        v.phase is Keyframe ==> next.last_keyframe_request == now,
        !(v.phase is Keyframe) ==> next.last_keyframe_request == v.last_keyframe_request,
{
}

// Sessions.

/// A session closes its transport once, when it is closed or else when it is dropped.
pub proof fn law_session_closes_once(v: SessionView)
    ensures
        !v.shut().owes_close(),
        v.shut().shut() == v.shut(),
{
}

/// The send rate is polled only after a consumer came, until there is none, and
/// never again once the channel is closed.
pub proof fn law_polled_only_when_used(state: Polling, event: PollEvent)
    ensures
        state == Polling::Idle && state.spec_next(event) == Polling::Active ==> event == (
        PollEvent::Used { ok: true }),
        state == Polling::Active && event == (PollEvent::Unused { ok: true }) ==> state.spec_next(
            event,
        ) == Polling::Idle,
        state == Polling::Stopped ==> state.spec_next(event) == Polling::Stopped,
{
}

// Replays.

/// A replay accepts every tick with ordinary numbers, and keeps doing so.
pub proof fn law_ordinary_ticks_accepted(v: ReplayView, t: Tick)
    requires
        v.controller.wf(),
        v.controller.allocator.target_bps <= u64::MAX / 2,
        ceiling_in_bounds(v.controller.allocator),
        v.start.nanos + t.elapsed_ms * 1_000_000 <= u64::MAX,
        v.sent + t.interval_sent + v.lost + t.interval_lost <= u64::MAX,
        t.rtt_us * PROBE_SETTLE_RTTS <= u64::MAX,
    ensures
        v.accepts(t),
        ceiling_in_bounds(v.stepped(t).controller.allocator),
        v.stepped(t).controller.allocator.target_bps == v.controller.allocator.target_bps,
{
    let e = v.controller.estimate(v.stats(t), v.time(t));
    law_ordinary_readings_accepted(v.controller, v.stats(t), v.time(t));
    law_ceiling_stays_in_bounds(v.controller.allocator, e, v.time(t));
}

/// Every scenario is found by its name.
pub proof fn law_scenarios_are_named(s: Scenario)
    ensures
        Scenario::spec_named(s.spec_name()) == Some(s),
{
    reveal_strlit("clean");
    reveal_strlit("clean_then_congested");
    reveal_strlit("loss_spike");
    reveal_strlit("flapping");
    reveal_strlit("slow_drain");
    reveal_strlit("cliff");
    assert("clean"@.len() == 5 && "cliff"@.len() == 5 && "flapping"@.len() == 8);
    assert("loss_spike"@.len() == 10 && "slow_drain"@.len() == 10);
    assert("clean_then_congested"@.len() == 20);
    assert("clean"@[2] == 'e' && "cliff"@[2] == 'i');
    assert("loss_spike"@[0] != "slow_drain"@[0]);
}

} // verus!
