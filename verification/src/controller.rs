//! Variable-bitrate control for a MoQ subscriber connection: a single stream
//! with a single ceiling per subscriber.

use crate::allocator::{Allocator, AllocatorState, AllocatorView};
use crate::clock::{elapsed, Duration, Instant};
use crate::config::{MIN_SIGNAL_INTERVAL_NANOS, PROBE_DURATION_NANOS, WARMUP_DURATION_NANOS};
use crate::estimator::{
    BandwidthEstimator, Estimate, EstimateView, EstimatorView, TransportStats,
};
use crate::prober::{probe_target, ProbeRequest};
use vstd::prelude::*;

verus! {

/// Emitted when the controller wants to signal a change to the publisher.
#[derive(Debug, Clone)]
pub struct BitrateSignal {
    pub ceiling_bps: u64,
    pub state: AllocatorState,
    pub probe: Option<ProbeRequest>,
    /// Latest estimate at time of signal (for logging).
    pub estimate: Estimate,
}

/// Per-subscriber bitrate controller. Fed QUIC transport stats every tick
/// (typically every 500ms), emits signals when the state changes or
/// periodically when non-stable.
pub struct BitrateController {
    estimator: BandwidthEstimator,
    allocator: Allocator,
    created: Instant,
    last_signal: Instant,
    last_emitted_state: AllocatorState,
    last_emitted_ceiling: u64,
}

/// What a [`BitrateController`] holds.
pub struct ControllerView {
    pub estimator: EstimatorView,
    pub allocator: AllocatorView,
    pub created: Instant,
    pub last_signal: Instant,
    pub last_emitted_state: AllocatorState,
    pub last_emitted_ceiling: u64,
}

impl ControllerView {
    pub open spec fn wf(self) -> bool {
        self.estimator.wf() && self.allocator.wf()
    }

    pub open spec fn fresh(target_bps: u64, now: Instant) -> Self {
        ControllerView {
            estimator: EstimatorView::fresh(),
            allocator: AllocatorView::fresh(target_bps, now),
            created: now,
            last_signal: now,
            last_emitted_state: AllocatorState::Stable,
            last_emitted_ceiling: target_bps,
        }
    }

    /// Whether the controller only collects a baseline yet.
    pub open spec fn warming_up(self, now: Instant) -> bool {
        elapsed(self.created, now) < WARMUP_DURATION_NANOS
    }

    /// The estimate after a reading.
    pub open spec fn estimate(self, stats: TransportStats, now: Instant) -> EstimateView {
        self.estimator.updated(stats, now).estimate(stats)
    }

    /// Whether the numbers that a reading leads to are in range.
    pub open spec fn accepts(self, stats: TransportStats, now: Instant) -> bool {
        &&& self.estimator.accepts(stats)
        &&& self.warming_up(now) || self.allocator.accepts(self.estimate(stats, now), now)
    }

    /// The controller after a reading, before it signals anything.
    pub open spec fn informed(self, stats: TransportStats, now: Instant) -> Self {
        ControllerView {
            estimator: self.estimator.updated(stats, now),
            allocator: if self.warming_up(now) {
                self.allocator
            } else {
                self.allocator.updated(self.estimate(stats, now), now)
            },
            ..self
        }
    }

    /// Whether the reading starts a probe.
    pub open spec fn starts_probe(self, stats: TransportStats, now: Instant) -> bool {
        self.allocator.decided(self.estimate(stats, now), now).starts_probe(now)
    }

    /// Whether a reading is signalled: never while warming up, else if the state
    /// or the ceiling differ from what was signalled last, if a probe starts, or
    /// if the last signal of a state other than stable is old.
    pub open spec fn signals(self, stats: TransportStats, now: Instant) -> bool {
        let a = self.informed(stats, now).allocator;
        !self.warming_up(now) && {
            ||| a.state != self.last_emitted_state
            ||| a.emitted_bps() != self.last_emitted_ceiling
            ||| self.starts_probe(stats, now)
            ||| a.state != AllocatorState::Stable && elapsed(self.last_signal, now)
                >= MIN_SIGNAL_INTERVAL_NANOS
        }
    }

    /// The controller after a reading.
    pub open spec fn updated(self, stats: TransportStats, now: Instant) -> Self {
        let v = self.informed(stats, now);
        if self.signals(stats, now) {
            ControllerView {
                last_signal: now,
                last_emitted_state: v.allocator.state,
                last_emitted_ceiling: v.allocator.emitted_bps(),
                ..v
            }
        } else {
            v
        }
    }

    /// Whether a signal tells what a reading led to.
    pub open spec fn announces(
        self,
        stats: TransportStats,
        now: Instant,
        signal: BitrateSignal,
    ) -> bool {
        let a = self.updated(stats, now).allocator;
        let decided = self.allocator.decided(self.estimate(stats, now), now);
        &&& signal.ceiling_bps == a.emitted_bps()
        &&& signal.state == a.state
        &&& signal.estimate@ == self.estimate(stats, now)
        &&& signal.probe is Some == self.starts_probe(stats, now)
        &&& signal.probe matches Some(req) ==> req.target_bps == probe_target(decided.ceiling_bps)
            && req.duration.nanos == PROBE_DURATION_NANOS
    }
}

impl View for BitrateController {
    type V = ControllerView;

    closed spec fn view(&self) -> ControllerView {
        ControllerView {
            estimator: self.estimator@,
            allocator: self.allocator@,
            created: self.created,
            last_signal: self.last_signal,
            last_emitted_state: self.last_emitted_state,
            last_emitted_ceiling: self.last_emitted_ceiling,
        }
    }
}

impl BitrateController {
    pub fn new(publisher_target_bps: u64, now: Instant) -> (r: Self)
        ensures
            r@ == ControllerView::fresh(publisher_target_bps, now),
            r@.wf(),
    {
        BitrateController {
            estimator: BandwidthEstimator::new(),
            allocator: Allocator::new(publisher_target_bps, now),
            created: now,
            last_signal: now,
            last_emitted_state: AllocatorState::Stable,
            last_emitted_ceiling: publisher_target_bps,
        }
    }

    pub fn set_publisher_target(&mut self, bps: u64)
        ensures
            final(self)@ == (ControllerView {
                allocator: old(self)@.allocator.retargeted(bps),
                ..old(self)@
            }),
            old(self)@.wf() ==> final(self)@.wf(),
    {
        self.allocator.set_publisher_target(bps);
    }

    pub fn state(&self) -> (r: AllocatorState)
        ensures
            r == self@.allocator.state,
    {
        self.allocator.state()
    }

    pub fn ceiling_bps(&self) -> (r: u64)
        ensures
            r == self@.allocator.ceiling_bps,
    {
        self.allocator.ceiling_bps()
    }

    /// Whether the packet counts since the last reading can be added up.
    pub fn takes(&self, stats: &TransportStats) -> (r: bool)
        ensures
            r == self@.estimator.accepts(*stats),
    {
        self.estimator.takes(stats)
    }

    /// Feeds QUIC stats. Returns a signal when the controller wants the
    /// publisher to change ceiling, or when a probe should be dispatched.
    pub fn update(&mut self, stats: TransportStats, now: Instant) -> (r: Option<BitrateSignal>)
        requires
            old(self)@.wf(),
            old(self)@.accepts(stats, now),
        ensures
            final(self)@ == old(self)@.updated(stats, now),
            final(self)@.wf(),
            r is Some == old(self)@.signals(stats, now),
            r matches Some(signal) ==> old(self)@.announces(stats, now, signal),
    {
        let estimate = self.estimator.update(stats, now);

        // Don't make decisions during warmup.
        if now.duration_since(self.created).nanos < WARMUP_DURATION_NANOS as u128 {
            return None;
        }
        let decision = self.allocator.update(&estimate, now);

        let state_changed: bool = decision.state != self.last_emitted_state;
        let ceiling_changed: bool = decision.ceiling_bps != self.last_emitted_ceiling;
        let should_refresh: bool = decision.state != AllocatorState::Stable && now.duration_since(
            self.last_signal,
        ).nanos >= MIN_SIGNAL_INTERVAL_NANOS as u128;
        let has_probe: bool = decision.probe.is_some();

        if state_changed || ceiling_changed || should_refresh || has_probe {
            self.last_signal = now;
            self.last_emitted_state = decision.state;
            self.last_emitted_ceiling = decision.ceiling_bps;

            return Some(
                BitrateSignal {
                    ceiling_bps: decision.ceiling_bps,
                    state: decision.state,
                    probe: decision.probe,
                    estimate,
                },
            );
        }
        None
    }

    /// Time since the controller was created.
    pub fn age(&self, now: Instant) -> (r: Duration)
        ensures
            r.nanos == elapsed(self@.created, now),
    {
        now.duration_since(self.created)
    }
}

} // verus!
