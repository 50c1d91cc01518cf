//! What a relay tells a client, and what it does with what it is told.

use crate::allocator::AllocatorState;
use crate::binary64::Binary64;
use crate::clock::{elapsed, seconds, Instant};
use crate::config::{
    EIGHT, KEYFRAME_INTERVAL_NANOS, KEYFRAME_LOSS_RATIO, MIN_THROUGHPUT_SECONDS, PROBE_SETTLE_RTTS,
    RELAY_TARGET_BPS,
};
use crate::controller::{BitrateController, BitrateSignal, ControllerView};
use crate::datagram::{
    ceiling_message, contents, encode_ceiling, encode_heartbeat, encode_keyframe_request,
    encode_stats, heartbeat_message, keyframe_message, stats_message, LinkReport,
};
use crate::estimator::TransportStats;
use crate::link::{known_or_zero, or_zero, LinkStats};
use crate::value::{decoded, larger, less, of_int, product, quotient, truncated, Value};
use bytes::Bytes;
use vstd::arithmetic::power2::{lemma_pow2_pos, pow2};
use vstd::prelude::*;

verus! {

/// The bits per second of a number of bytes over a number of nanoseconds.
pub open spec fn throughput(bytes: nat, nanos: nat) -> u64 {
    truncated(
        quotient(
            product(of_int(bytes as int), decoded(EIGHT)),
            larger(seconds(nanos), decoded(MIN_THROUGHPUT_SECONDS)),
        ),
    )
}

/// Where a round of feedback stands. A round is a report, a heartbeat and, where
/// the bitrate controller has something to say, a ceiling and perhaps a request
/// for a keyframe.
pub enum Phase {
    /// Between two rounds.
    Waiting,
    /// The report is being sent.
    Report(LinkReport),
    /// The heartbeat is being sent.
    Heartbeat(LinkReport),
    /// The ceiling is being sent.
    Ceiling(BitrateSignal),
    /// The keyframe request is being sent.
    Keyframe,
    /// The connection is gone.
    Stopped,
}

/// What the feedback loop does next.
pub enum Action {
    /// Sends a datagram, and goes on whether or not that worked.
    Send(Bytes),
    /// Waits for the next round.
    Wait,
    /// Ends.
    Stop,
}

/// Sends transport stats and the clock of the relay to a client at every tick,
/// and the bitrate ceiling and keyframe requests where they are due.
pub struct FeedbackLoop {
    phase: Phase,
    controller: BitrateController,
    last_keyframe_request: Instant,
    // Inbound throughput (peer to relay) is what matters for a publisher: how
    // fast can they send us data.
    prev_bytes_received: u64,
    prev_time: Instant,
}

/// What a [`FeedbackLoop`] holds.
pub struct FeedbackView {
    pub phase: Phase,
    pub controller: ControllerView,
    pub last_keyframe_request: Instant,
    pub prev_bytes_received: u64,
    pub prev_time: Instant,
}

/// What the bitrate controller of a relay is told: the inbound throughput, as
/// that is what the encoder of a publisher can be held to.
pub open spec fn controller_stats(report: LinkReport) -> TransportStats {
    TransportStats {
        estimated_send_rate_bps: report.inbound_bps,
        packets_sent: report.packets_received,
        packets_lost: report.packets_lost,
        bytes_sent: report.bytes_received,
        rtt_us: report.rtt_us,
    }
}

/// What the bitrate controller of a relay is told.
fn told(report: &LinkReport) -> (r: TransportStats)
    ensures
        r == controller_stats(*report),
{
    TransportStats {
        estimated_send_rate_bps: report.inbound_bps,
        packets_sent: report.packets_received,
        packets_lost: report.packets_lost,
        bytes_sent: report.bytes_received,
        rtt_us: report.rtt_us,
    }
}

impl FeedbackView {
    pub open spec fn wf(self) -> bool {
        self.controller.wf()
    }

    pub open spec fn fresh(now: Instant) -> Self {
        FeedbackView {
            phase: Phase::Waiting,
            controller: ControllerView::fresh(RELAY_TARGET_BPS, now),
            last_keyframe_request: now,
            prev_bytes_received: 0,
            prev_time: now,
        }
    }

    /// The bytes that came since the last round.
    pub open spec fn new_bytes(self, bytes_received: u64) -> nat {
        if bytes_received >= self.prev_bytes_received {
            (bytes_received - self.prev_bytes_received) as nat
        } else {
            0
        }
    }

    /// What a reading of the transport says.
    pub open spec fn report(self, stats: LinkStats, now: Instant) -> LinkReport {
        let bytes_received = known_or_zero(stats.bytes_received);
        LinkReport {
            bytes_received,
            packets_received: known_or_zero(stats.packets_received),
            packets_lost: known_or_zero(stats.packets_lost),
            rtt_us: stats.spec_rtt_us(),
            congestion_window: known_or_zero(stats.congestion_window),
            inbound_bps: throughput(self.new_bytes(bytes_received), elapsed(self.prev_time, now)),
        }
    }

    /// The loop at the start of a round.
    pub open spec fn begun(self, stats: LinkStats, now: Instant) -> Self {
        FeedbackView {
            phase: Phase::Report(self.report(stats, now)),
            prev_bytes_received: known_or_zero(stats.bytes_received),
            prev_time: now,
            ..self
        }
    }

    /// Whether a signal makes a keyframe due: loss has hurt the picture, and
    /// none was requested lately.
    pub open spec fn keyframe_due(self, signal: BitrateSignal, now: Instant) -> bool {
        &&& signal.state == AllocatorState::Deficient
        &&& less(decoded(KEYFRAME_LOSS_RATIO), signal.estimate.loss_rate@)
        &&& elapsed(self.last_keyframe_request, now) > KEYFRAME_INTERVAL_NANOS
    }

    /// Whether the numbers that the next step leads to are in range.
    pub open spec fn accepts(self, sent: bool, now: Instant) -> bool {
        match self.phase {
            Phase::Heartbeat(report) => sent ==> self.controller.accepts(
                controller_stats(report),
                now,
            ),
            _ => true,
        }
    }

    /// Whether the numbers of the report that the next step takes in are ordinary:
    /// the packets since the last one can be counted, and some round trips can be
    /// added up.
    pub open spec fn ordinary(self) -> bool {
        match self.phase {
            Phase::Heartbeat(report) => {
                &&& self.controller.estimator.accepts(controller_stats(report))
                &&& report.rtt_us * PROBE_SETTLE_RTTS <= u64::MAX
            },
            _ => true,
        }
    }

    /// Whether the loop goes on from here to `next` with an action, after a
    /// datagram was sent or could not be sent.
    pub open spec fn goes_on(
        self,
        sent: bool,
        now: Instant,
        now_us: u64,
        next: Self,
        action: Action,
    ) -> bool {
        match self.phase {
            // A connection that takes no report or heartbeat is gone.
            Phase::Report(report) => if sent {
                &&& next == (FeedbackView { phase: Phase::Heartbeat(report), ..self })
                &&& action matches Action::Send(b) && contents(b) == heartbeat_message(now_us)
            } else {
                next == (FeedbackView { phase: Phase::Stopped, ..self }) && action is Stop
            },
            Phase::Heartbeat(report) => if sent {
                let stats = controller_stats(report);
                let controller = self.controller.updated(stats, now);
                if self.controller.signals(stats, now) {
                    &&& next.phase matches Phase::Ceiling(signal)
                    &&& next == (FeedbackView { phase: next.phase, controller, ..self })
                    &&& self.controller.announces(stats, now, signal)
                    &&& action matches Action::Send(b) && contents(b) == ceiling_message(
                        signal.state,
                        signal.ceiling_bps,
                    )
                } else {
                    next == (FeedbackView { phase: Phase::Waiting, controller, ..self })
                        && action is Wait
                }
            } else {
                next == (FeedbackView { phase: Phase::Stopped, ..self }) && action is Stop
            },
            Phase::Ceiling(signal) => if self.keyframe_due(signal, now) {
                &&& next == (FeedbackView { phase: Phase::Keyframe, ..self })
                &&& action matches Action::Send(b) && contents(b) == keyframe_message()
            } else {
                next == (FeedbackView { phase: Phase::Waiting, ..self }) && action is Wait
            },
            Phase::Keyframe => {
                &&& next == (FeedbackView {
                    phase: Phase::Waiting,
                    last_keyframe_request: now,
                    ..self
                })
                &&& action is Wait
            },
            Phase::Waiting => next == self && action is Wait,
            Phase::Stopped => next == self && action is Stop,
        }
    }
}

impl View for FeedbackLoop {
    type V = FeedbackView;

    closed spec fn view(&self) -> FeedbackView {
        FeedbackView {
            phase: self.phase,
            controller: self.controller@,
            last_keyframe_request: self.last_keyframe_request,
            prev_bytes_received: self.prev_bytes_received,
            prev_time: self.prev_time,
        }
    }
}

/// The shortest time that a throughput is taken over is longer than none.
proof fn lemma_some_time(nanos: nat)
    ensures
        larger(seconds(nanos), decoded(MIN_THROUGHPUT_SECONDS)) != (Value::Finite { units: 0 }),
{
    lemma_pow2_pos(1012);
    let m = 0x10_624d_d2f1_a9fcnat;
    assert(decoded(MIN_THROUGHPUT_SECONDS) == (Value::Finite { units: (m * pow2(1012)) as int }));
    assert(m * pow2(1012) > 0) by (nonlinear_arith)
        requires
            m > 0,
            pow2(1012) > 0,
    ;
}

/// The bits per second of a number of bytes over a span of time.
fn inbound_throughput(bytes: u64, since: Instant, now: Instant) -> (r: u64)
    ensures
        r == throughput(bytes as nat, elapsed(since, now)),
{
    let delta_s = now.duration_since(since).as_secs().max(
        Binary64::from_bits(MIN_THROUGHPUT_SECONDS),
    );
    proof {
        lemma_some_time(elapsed(since, now));
    }
    Binary64::from_u64(bytes).times(Binary64::from_bits(EIGHT)).over(delta_s).to_u64()
}

impl FeedbackLoop {
    pub fn new(now: Instant) -> (r: Self)
        ensures
            r@ == FeedbackView::fresh(now),
            r@.wf(),
    {
        FeedbackLoop {
            phase: Phase::Waiting,
            controller: BitrateController::new(RELAY_TARGET_BPS, now),
            last_keyframe_request: now,
            prev_bytes_received: 0,
            prev_time: now,
        }
    }

    /// Starts a round with a reading of the transport. Returns the report to send.
    pub fn begin(&mut self, stats: &LinkStats, now: Instant, now_us: u64) -> (r: Bytes)
        requires
            old(self)@.wf(),
            old(self)@.phase is Waiting,
        ensures
            final(self)@ == old(self)@.begun(*stats, now),
            final(self)@.wf(),
            contents(r) == stats_message(old(self)@.report(*stats, now), now_us),
    {
        let bytes_received: u64 = or_zero(stats.bytes_received);
        let delta_bytes: u64 = bytes_received.saturating_sub(self.prev_bytes_received);
        let report = LinkReport {
            bytes_received,
            packets_received: or_zero(stats.packets_received),
            packets_lost: or_zero(stats.packets_lost),
            rtt_us: stats.rtt_us(),
            congestion_window: or_zero(stats.congestion_window),
            inbound_bps: inbound_throughput(delta_bytes, self.prev_time, now),
        };
        self.prev_bytes_received = bytes_received;
        self.prev_time = now;
        self.phase = Phase::Report(report);
        encode_stats(&report, now_us)
    }

    /// Whether the numbers of the report that the next step takes in are ordinary.
    pub fn is_ordinary(&self) -> (r: bool)
        ensures
            r == self@.ordinary(),
    {
        match &self.phase {
            Phase::Heartbeat(report) => self.controller.takes(&told(report)) && report.rtt_us
                <= u64::MAX / PROBE_SETTLE_RTTS,
            _ => true,
        }
    }

    /// The signal that is being sent, if one is.
    pub fn signal(&self) -> (r: Option<&BitrateSignal>)
        ensures
            match self@.phase {
                Phase::Ceiling(signal) => r == Some(&signal),
                _ => r is None,
            },
    {
        match &self.phase {
            Phase::Ceiling(signal) => Some(signal),
            _ => None,
        }
    }

    /// Goes on with the round after a datagram was sent or could not be sent.
    pub fn proceed(&mut self, sent: bool, now: Instant, now_us: u64) -> (r: Action)
        requires
            old(self)@.wf(),
            old(self)@.accepts(sent, now),
        ensures
            old(self)@.goes_on(sent, now, now_us, final(self)@, r),
            final(self)@.wf(),
    {
        let mut phase = Phase::Stopped;
        std::mem::swap(&mut phase, &mut self.phase);
        match phase {
            Phase::Report(report) => {
                if !sent {
                    return Action::Stop;
                }
                self.phase = Phase::Heartbeat(report);
                Action::Send(encode_heartbeat(now_us))
            },
            Phase::Heartbeat(report) => {
                if !sent {
                    return Action::Stop;
                }
                match self.controller.update(told(&report), now) {
                    Some(signal) => {
                        let ceiling = encode_ceiling(signal.state, signal.ceiling_bps);
                        self.phase = Phase::Ceiling(signal);
                        Action::Send(ceiling)
                    },
                    None => {
                        self.phase = Phase::Waiting;
                        Action::Wait
                    },
                }
            },
            Phase::Ceiling(signal) => {
                let since = now.duration_since(self.last_keyframe_request);
                if signal.state == AllocatorState::Deficient && Binary64::from_bits(
                    KEYFRAME_LOSS_RATIO,
                ).less_than(signal.estimate.loss_rate) && since.nanos
                    > KEYFRAME_INTERVAL_NANOS as u128 {
                    self.phase = Phase::Keyframe;
                    Action::Send(encode_keyframe_request())
                } else {
                    self.phase = Phase::Waiting;
                    Action::Wait
                }
            },
            Phase::Keyframe => {
                self.last_keyframe_request = now;
                self.phase = Phase::Waiting;
                Action::Wait
            },
            Phase::Waiting => {
                self.phase = Phase::Waiting;
                Action::Wait
            },
            Phase::Stopped => Action::Stop,
        }
    }
}

/// What happened to the task that forwards datagrams of other connections.
#[derive(Clone, Copy, Debug, PartialEq, Eq, Structural)]
pub enum ForwardEvent {
    /// A datagram came, from this connection itself or from another one.
    Received { own: bool },
    /// Datagrams were dropped because the task was too slow.
    Lagged,
    /// No more datagrams will come.
    Closed,
    /// A datagram was sent, or could not be sent.
    Sent { ok: bool },
}

/// What that task does next.
#[derive(Clone, Copy, Debug, PartialEq, Eq, Structural)]
pub enum ForwardAction {
    Send,
    Receive,
    Stop,
}

/// What the task that forwards datagrams does next: a datagram goes to all other
/// connections, but not back to its sender. A gap is no reason to stop, the end of
/// the datagrams or of the connection is.
pub fn forward(event: ForwardEvent) -> (r: ForwardAction)
    ensures
        r == (match event {
            ForwardEvent::Received { own } => if own {
                ForwardAction::Receive
            } else {
                ForwardAction::Send
            },
            ForwardEvent::Lagged => ForwardAction::Receive,
            ForwardEvent::Closed => ForwardAction::Stop,
            ForwardEvent::Sent { ok } => if ok {
                ForwardAction::Receive
            } else {
                ForwardAction::Stop
            },
        }),
{
    match event {
        ForwardEvent::Received { own } => if own {
            ForwardAction::Receive
        } else {
            ForwardAction::Send
        },
        ForwardEvent::Lagged => ForwardAction::Receive,
        ForwardEvent::Closed => ForwardAction::Stop,
        ForwardEvent::Sent { ok } => if ok {
            ForwardAction::Receive
        } else {
            ForwardAction::Stop
        },
    }
}

/// What a client may do.
#[derive(Clone, Copy, Debug, PartialEq, Eq, Structural)]
pub enum Role {
    /// Publish and subscribe.
    Session,
    /// Only publish.
    Publisher,
    /// Only subscribe.
    Subscriber,
}

/// How a client is served. The two origins are seen from the relay, which
/// publishes what the client may subscribe to, and consumes what it may publish.
pub struct Admission<P, S> {
    pub role: Role,
    pub publish: Option<S>,
    pub consume: Option<P>,
}

/// Decides how a client is served, given what it may publish and subscribe to.
/// A client that may do neither is turned away.
pub fn admission<P, S>(publish: Option<P>, subscribe: Option<S>) -> (r: Option<Admission<P, S>>)
    ensures
        r is None <==> publish is None && subscribe is None,
        r matches Some(a) ==> {
            &&& a.publish == subscribe
            &&& a.consume == publish
            &&& a.role == Role::Session <==> publish is Some && subscribe is Some
            &&& a.role == Role::Publisher <==> publish is Some && subscribe is None
            &&& a.role == Role::Subscriber <==> publish is None && subscribe is Some
        },
{
    let role = match (&publish, &subscribe) {
        (Some(_), Some(_)) => Role::Session,
        (Some(_), None) => Role::Publisher,
        (None, Some(_)) => Role::Subscriber,
        (None, None) => {
            return None;
        },
    };
    Some(Admission { role, publish: subscribe, consume: publish })
}

} // verus!
