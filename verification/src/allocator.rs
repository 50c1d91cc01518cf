//! Allocator: the state machine that translates bandwidth estimates and
//! congestion signals into a per-subscriber bitrate ceiling.
//!
//! States:
//!   STABLE: ceiling = publisher target, no constraint
//!   EARLY_WARNING: congestion suspected, hold current ceiling (don't increase)
//!   DEFICIENT: ceiling reduced below target, waiting for probe recovery
//!   PROBING: actively testing if headroom has returned
//!
//! Ceiling computation is proportional to the bandwidth estimate, smoothed by
//! the trend detector and loss-based override. No hardcoded reduction tiers.

use crate::binary64::Binary64;
use crate::clock::Instant;
use crate::config::{
    COMMIT_THRESHOLD_RATIO, LOSS_ATTENUATOR, LOSS_CLEAR_RATIO, LOSS_CONGESTION_RATIO,
    LOSS_FACTOR_FLOOR, LOSS_TRIGGER_RATIO, MIN_CEILING_RATIO, ONE, PROBE_DURATION_NANOS,
};
use crate::estimator::{Estimate, EstimateView};
use crate::prober::{probe_target, ProbeRequest, ProbeResult, ProbeState, Prober, ProberView};
use crate::trend::TrendDirection;
use crate::value::{decoded, difference, larger, less, of_int, product, truncated, Value};
use vstd::prelude::*;

verus! {

#[derive(Debug, Clone, Copy, PartialEq, Eq, Structural)]
pub enum AllocatorState {
    Stable,
    EarlyWarning,
    Deficient,
    Probing,
}

impl AllocatorState {
    /// The number that stands for the state on the wire.
    pub open spec fn code(self) -> u8 {
        match self {
            AllocatorState::Stable => 0,
            AllocatorState::EarlyWarning => 1,
            AllocatorState::Deficient => 2,
            AllocatorState::Probing => 3,
        }
    }

    pub fn as_u8(self) -> (r: u8)
        ensures
            r == self.code(),
    {
        match self {
            AllocatorState::Stable => 0,
            AllocatorState::EarlyWarning => 1,
            AllocatorState::Deficient => 2,
            AllocatorState::Probing => 3,
        }
    }
}

/// Decision emitted by the allocator.
#[derive(Debug, Clone)]
pub struct AllocatorDecision {
    pub state: AllocatorState,
    pub ceiling_bps: u64,
    pub probe: Option<ProbeRequest>,
}

pub struct Allocator {
    state: AllocatorState,
    publisher_target_bps: u64,
    committed_ceiling_bps: u64,
    /// When probing, this is the probe target being tested.
    active_probe_target_bps: u64,
    prober: Prober,
    last_state_change: Instant,
}

/// What an [`Allocator`] holds.
pub struct AllocatorView {
    pub state: AllocatorState,
    pub target_bps: u64,
    pub ceiling_bps: u64,
    pub probe_target_bps: u64,
    pub prober: ProberView,
    pub last_state_change: Instant,
}

/// A fraction, given by its bits, of a bitrate.
pub open spec fn fraction(bps: u64, ratio: u64) -> u64 {
    truncated(product(of_int(bps as int), decoded(ratio)))
}

/// The lowest ceiling for a target.
pub open spec fn ceiling_floor(target_bps: u64) -> u64 {
    fraction(target_bps, MIN_CEILING_RATIO)
}

/// What a new ceiling has to be below to replace the current one.
pub open spec fn commit_threshold(ceiling_bps: u64) -> u64 {
    fraction(ceiling_bps, COMMIT_THRESHOLD_RATIO)
}

/// The ceiling that loss alone asks for: the target less an attenuated share,
/// but never less than a fifth of it.
pub open spec fn loss_ceiling(target_bps: u64, loss_rate: Value) -> u64 {
    truncated(
        product(
            of_int(target_bps as int),
            larger(
                difference(decoded(ONE), product(decoded(LOSS_ATTENUATOR), loss_rate)),
                decoded(LOSS_FACTOR_FLOOR),
            ),
        ),
    )
}

/// Whether an estimate shows loss above the trigger.
pub open spec fn lossy(e: EstimateView) -> bool {
    less(decoded(LOSS_TRIGGER_RATIO), e.loss_rate)
}

/// Whether an estimate shows congestion: a downward trend, or loss well above
/// the trigger.
pub open spec fn shows_congestion(e: EstimateView) -> bool {
    e.trend == TrendDirection::Downward || less(decoded(LOSS_CONGESTION_RATIO), e.loss_rate)
}

/// Whether an estimate allows a lower ceiling: a downward trend, or loss above
/// the trigger.
pub open spec fn allows_reduction(e: EstimateView) -> bool {
    e.trend == TrendDirection::Downward || lossy(e)
}

/// The bitrate that an estimate asks for.
pub open spec fn asked_bps(e: EstimateView, target_bps: u64) -> u64 {
    let by_loss = loss_ceiling(target_bps, e.loss_rate);
    if lossy(e) && by_loss < e.bps {
        by_loss
    } else {
        e.bps
    }
}

impl AllocatorView {
    /// In the stable state the ceiling is the target, and a probe runs exactly
    /// while probing, from the current ceiling.
    pub open spec fn wf(self) -> bool {
        &&& self.prober.wf()
        &&& self.state == AllocatorState::Stable ==> self.ceiling_bps == self.target_bps
        &&& (self.state == AllocatorState::Probing) == (self.prober.state != ProbeState::Idle)
        &&& if self.state == AllocatorState::Probing {
            self.probe_target_bps == probe_target(self.ceiling_bps) && self.prober.goal_bps
                == self.probe_target_bps
        } else {
            self.probe_target_bps == 0
        }
    }

    pub open spec fn fresh(target_bps: u64, now: Instant) -> Self {
        AllocatorView {
            state: AllocatorState::Stable,
            target_bps,
            ceiling_bps: target_bps,
            probe_target_bps: 0,
            prober: ProberView::fresh(now),
            last_state_change: now,
        }
    }

    /// The allocator with a new target, which the ceiling tracks while stable.
    pub open spec fn retargeted(self, bps: u64) -> Self {
        AllocatorView {
            target_bps: bps,
            ceiling_bps: if self.state == AllocatorState::Stable {
                bps
            } else {
                self.ceiling_bps
            },
            ..self
        }
    }

    /// The allocator in another state.
    pub open spec fn moved(self, state: AllocatorState, now: Instant) -> Self {
        if state == self.state {
            self
        } else {
            AllocatorView { state, last_state_change: now, ..self }
        }
    }

    /// The prober after it saw the estimate.
    pub open spec fn prober_informed(self, e: EstimateView) -> ProberView {
        let p = self.prober.observed(e.raw_bps);
        if self.state == AllocatorState::Probing && shows_congestion(e) {
            p.marked()
        } else {
            p
        }
    }

    /// The allocator after a probe ended. Success raises the ceiling to the
    /// observed peak, capped by the target.
    pub open spec fn concluded(self, result: ProbeResult, now: Instant) -> Self {
        let v = AllocatorView { probe_target_bps: 0, ..self };
        match result {
            ProbeResult::Success { peak_estimate_bps } => {
                if peak_estimate_bps >= self.target_bps {
                    AllocatorView { ceiling_bps: self.target_bps, ..v }.moved(
                        AllocatorState::Stable,
                        now,
                    )
                } else {
                    AllocatorView { ceiling_bps: peak_estimate_bps, ..v }.moved(
                        AllocatorState::Deficient,
                        now,
                    )
                }
            },
            _ => v.moved(AllocatorState::Deficient, now),
        }
    }

    /// The allocator after the prober saw the estimate and the time.
    pub open spec fn probed(self, e: EstimateView, now: Instant) -> Self {
        let p = self.prober_informed(e);
        let v = AllocatorView { prober: p.ticked(now, e.rtt_us), ..self };
        if p.completes(now, e.rtt_us) {
            v.concluded(p.outcome(), now)
        } else {
            v
        }
    }

    /// The state that an estimate leads to, which was found to show congestion or
    /// not. While probing, the probe decides.
    pub open spec fn next_state(self, e: EstimateView, congested: bool) -> AllocatorState {
        match self.state {
            AllocatorState::Stable => if congested && e.bps < self.target_bps {
                AllocatorState::Deficient
            } else if lossy(e) {
                AllocatorState::EarlyWarning
            } else {
                AllocatorState::Stable
            },
            AllocatorState::EarlyWarning => if congested {
                AllocatorState::Deficient
            } else if less(e.loss_rate, decoded(LOSS_CLEAR_RATIO)) && e.trend
                != TrendDirection::Downward {
                AllocatorState::Stable
            } else {
                AllocatorState::EarlyWarning
            },
            AllocatorState::Deficient => if e.bps >= self.target_bps && less(
                e.loss_rate,
                decoded(LOSS_TRIGGER_RATIO),
            ) && e.trend != TrendDirection::Downward {
                AllocatorState::Stable
            } else {
                AllocatorState::Deficient
            },
            AllocatorState::Probing => AllocatorState::Probing,
        }
    }

    /// The allocator in the state that an estimate leads to. Recovery from the
    /// deficient state cancels what the prober had planned.
    pub open spec fn transitioned(self, e: EstimateView, congested: bool, now: Instant) -> Self {
        let next = self.next_state(e, congested);
        let prober = if self.state == AllocatorState::Deficient && next == AllocatorState::Stable {
            self.prober.cancelled(now)
        } else if self.state == AllocatorState::Probing && congested {
            self.prober.marked()
        } else {
            self.prober
        };
        AllocatorView { prober, ..self }.moved(next, now)
    }

    /// The ceiling that an estimate leads to. It is the target while stable; a
    /// deficient allocator lowers it, by a margin and not below the floor, if
    /// the estimate allows that; otherwise it is held.
    pub open spec fn next_ceiling(self, e: EstimateView) -> u64 {
        match self.state {
            AllocatorState::Stable => self.target_bps,
            AllocatorState::Deficient => {
                let asked = asked_bps(e, self.target_bps);
                if allows_reduction(e) && asked < commit_threshold(self.ceiling_bps) {
                    if asked > ceiling_floor(self.target_bps) {
                        asked
                    } else {
                        ceiling_floor(self.target_bps)
                    }
                } else {
                    self.ceiling_bps
                }
            },
            _ => self.ceiling_bps,
        }
    }

    /// The allocator just before it may start a probe.
    pub open spec fn decided(self, e: EstimateView, now: Instant) -> Self {
        let v = self.probed(e, now).transitioned(e, shows_congestion(e), now);
        AllocatorView { ceiling_bps: v.next_ceiling(e), ..v }
    }

    /// Whether the allocator, as `decided`, starts a probe.
    pub open spec fn starts_probe(self, now: Instant) -> bool {
        self.state == AllocatorState::Deficient && self.prober.due(now)
    }

    /// The allocator, as `decided`, after it may have started a probe.
    pub open spec fn launched(self, now: Instant) -> Self {
        if self.starts_probe(now) {
            AllocatorView {
                prober: self.prober.started(self.ceiling_bps, now),
                probe_target_bps: probe_target(self.ceiling_bps) as u64,
                ..self
            }.moved(AllocatorState::Probing, now)
        } else {
            self
        }
    }

    /// The allocator after an estimate.
    pub open spec fn updated(self, e: EstimateView, now: Instant) -> Self {
        self.decided(e, now).launched(now)
    }

    /// Whether the numbers that an update needs are in range.
    pub open spec fn accepts(self, e: EstimateView, now: Instant) -> bool {
        let v = self.decided(e, now);
        &&& self.prober_informed(e).accepts_tick(now, e.rtt_us)
        &&& v.state == AllocatorState::Deficient ==> v.prober.accepts_start(
            v.ceiling_bps,
            now,
            e.rtt_us,
        )
    }

    /// The ceiling to tell the publisher: while probing the probe target, so
    /// that the pipe is measured at that rate.
    pub open spec fn emitted_bps(self) -> u64 {
        if self.state == AllocatorState::Probing {
            self.probe_target_bps
        } else {
            self.ceiling_bps
        }
    }

    /// Whether a decision tells what an update of `self` did.
    pub open spec fn announces(self, e: EstimateView, now: Instant, d: AllocatorDecision) -> bool {
        &&& d.state == self.updated(e, now).state
        &&& d.ceiling_bps == self.updated(e, now).emitted_bps()
        &&& d.probe is Some == self.decided(e, now).starts_probe(now)
        &&& d.probe matches Some(req) ==> req.target_bps == probe_target(
            self.decided(e, now).ceiling_bps,
        ) && req.duration.nanos == PROBE_DURATION_NANOS
    }
}

impl View for Allocator {
    type V = AllocatorView;

    closed spec fn view(&self) -> AllocatorView {
        AllocatorView {
            state: self.state,
            target_bps: self.publisher_target_bps,
            ceiling_bps: self.committed_ceiling_bps,
            probe_target_bps: self.active_probe_target_bps,
            prober: self.prober@,
            last_state_change: self.last_state_change,
        }
    }
}

/// A fraction of a bitrate.
fn fraction_of(bps: u64, ratio: u64) -> (r: u64)
    ensures
        r == fraction(bps, ratio),
{
    Binary64::from_u64(bps).times(Binary64::from_bits(ratio)).to_u64()
}

impl Allocator {
    pub fn new(publisher_target_bps: u64, now: Instant) -> (r: Self)
        ensures
            r@ == AllocatorView::fresh(publisher_target_bps, now),
            r@.wf(),
    {
        Allocator {
            state: AllocatorState::Stable,
            publisher_target_bps,
            committed_ceiling_bps: publisher_target_bps,
            active_probe_target_bps: 0,
            prober: Prober::new(now),
            last_state_change: now,
        }
    }

    pub fn state(&self) -> (r: AllocatorState)
        ensures
            r == self@.state,
    {
        self.state
    }

    pub fn ceiling_bps(&self) -> (r: u64)
        ensures
            r == self@.ceiling_bps,
    {
        self.committed_ceiling_bps
    }

    pub fn set_publisher_target(&mut self, bps: u64)
        ensures
            final(self)@ == old(self)@.retargeted(bps),
            old(self)@.wf() ==> final(self)@.wf(),
    {
        self.publisher_target_bps = bps;
        // If we're stable, the ceiling tracks the target.
        if self.state == AllocatorState::Stable {
            self.committed_ceiling_bps = bps;
        }
    }

    /// Advances the allocator with a new bandwidth estimate. Returns a decision
    /// that should be acted on (may include a probe request).
    pub fn update(&mut self, estimate: &Estimate, now: Instant) -> (r: AllocatorDecision)
        requires
            old(self)@.wf(),
            old(self)@.accepts(estimate@, now),
        ensures
            final(self)@ == old(self)@.updated(estimate@, now),
            final(self)@.wf(),
            old(self)@.announces(estimate@, now, r),
    {
        // Feed the RAW estimate to the prober: the smoothed value can't catch up
        // in time during a probe window.
        self.prober.observe_estimate(estimate.raw_bps);

        // Detect congestion from the estimate and loss.
        let congested: bool = Self::detect_congestion(estimate);
        if congested && self.state == AllocatorState::Probing {
            self.prober.mark_congested();
        }

        // Tick the prober: may finalize a probe.
        if let Some(result) = self.prober.tick(now, estimate.rtt_us) {
            self.handle_probe_result(result, now);
        }
        assert(self@ == old(self)@.probed(estimate@, now));

        // Evaluate state transitions based on current estimate and trend.
        self.evaluate_transitions(estimate, congested, now);

        // Compute ceiling based on state.
        self.update_ceiling(estimate);
        assert(self@ == old(self)@.decided(estimate@, now));

        // Maybe start a new probe.
        let probe = if self.state == AllocatorState::Deficient {
            match self.prober.maybe_start(self.committed_ceiling_bps, now, estimate.rtt_us) {
                Some(req) => {
                    self.active_probe_target_bps = req.target_bps;
                    self.transition(AllocatorState::Probing, now);
                    Some(req)
                },
                None => None,
            }
        } else {
            None
        };

        // During probing, emit the probe target as the ceiling: the publisher encodes
        // at that rate so that it can be measured whether the pipe handles it.
        let emitted_ceiling: u64 = if self.state == AllocatorState::Probing
            && self.active_probe_target_bps > 0 {
            self.active_probe_target_bps
        } else {
            self.committed_ceiling_bps
        };

        AllocatorDecision { state: self.state, ceiling_bps: emitted_ceiling, probe }
    }

    fn detect_congestion(estimate: &Estimate) -> (r: bool)
        ensures
            r == shows_congestion(estimate@),
    {
        // Primary signal: bandwidth estimate trending downward.
        if estimate.trend == TrendDirection::Downward {
            return true;
        }
        // Secondary: loss rate elevated.
        Binary64::from_bits(LOSS_CONGESTION_RATIO).less_than(estimate.loss_rate)
    }

    fn evaluate_transitions(&mut self, estimate: &Estimate, congested: bool, now: Instant)
        ensures
            final(self)@ == old(self)@.transitioned(estimate@, congested, now),
    {
        match self.state {
            AllocatorState::Stable => {
                // Drop to deficient on clear congestion, or early warning on
                // stable-but-elevated loss.
                if congested && estimate.bps < self.publisher_target_bps {
                    self.transition(AllocatorState::Deficient, now);
                } else if Binary64::from_bits(LOSS_TRIGGER_RATIO).less_than(estimate.loss_rate) {
                    self.transition(AllocatorState::EarlyWarning, now);
                }
            },
            AllocatorState::EarlyWarning => {
                if congested {
                    self.transition(AllocatorState::Deficient, now);
                } else if estimate.loss_rate.less_than(Binary64::from_bits(LOSS_CLEAR_RATIO))
                    && estimate.trend != TrendDirection::Downward {
                    self.transition(AllocatorState::Stable, now);
                }
            },
            AllocatorState::Deficient => {
                // Return to stable if the estimate recovers above the publisher target.
                if estimate.bps >= self.publisher_target_bps && estimate.loss_rate.less_than(
                    Binary64::from_bits(LOSS_TRIGGER_RATIO),
                ) && estimate.trend != TrendDirection::Downward {
                    self.transition(AllocatorState::Stable, now);
                    self.prober.cancel(now);
                }
            },
            AllocatorState::Probing => {
                // Transitions are handled by the probe result, which congestion decides.
                if congested {
                    self.prober.mark_congested();
                }
            },
        }
    }

    fn handle_probe_result(&mut self, result: ProbeResult, now: Instant)
        ensures
            final(self)@ == old(self)@.concluded(result, now),
    {
        self.active_probe_target_bps = 0;
        match result {
            ProbeResult::Success { peak_estimate_bps } => {
                // Raise ceiling to the observed peak (capped by publisher target).
                self.committed_ceiling_bps =
                if peak_estimate_bps < self.publisher_target_bps {
                    peak_estimate_bps
                } else {
                    self.publisher_target_bps
                };
                if self.committed_ceiling_bps >= self.publisher_target_bps {
                    self.transition(AllocatorState::Stable, now);
                } else {
                    self.transition(AllocatorState::Deficient, now);
                }
            },
            ProbeResult::Failed => {
                self.transition(AllocatorState::Deficient, now);
            },
            ProbeResult::Congested => {
                self.transition(AllocatorState::Deficient, now);
            },
        }
    }

    fn update_ceiling(&mut self, estimate: &Estimate)
        ensures
            final(self)@ == (AllocatorView {
                ceiling_bps: old(self)@.next_ceiling(estimate@),
                ..old(self)@
            }),
    {
        match self.state {
            AllocatorState::Stable => {
                self.committed_ceiling_bps = self.publisher_target_bps;
            },
            AllocatorState::EarlyWarning => {
                // Hold at current ceiling. Don't reduce unless we drop to deficient.
            },
            AllocatorState::Deficient => {
                // Only ratchet the ceiling DOWN on active congestion: otherwise hold steady
                // and let probing move us up. Prevents noise from walking us down.
                let lossy: bool = Binary64::from_bits(LOSS_TRIGGER_RATIO).less_than(
                    estimate.loss_rate,
                );
                if estimate.trend != TrendDirection::Downward && !lossy {
                    return;
                }
                let mut target: u64 = estimate.bps;

                // Loss-based reduction: reduce beyond pure estimate if loss is high.
                if lossy {
                    let share = Binary64::from_bits(LOSS_ATTENUATOR).times(estimate.loss_rate);
                    let factor = Binary64::from_bits(ONE).minus(share).max(
                        Binary64::from_bits(LOSS_FACTOR_FLOOR),
                    );
                    let by_loss: u64 = Binary64::from_u64(self.publisher_target_bps).times(
                        factor,
                    ).to_u64();
                    if by_loss < target {
                        target = by_loss;
                    }
                }

                // Hysteresis: only commit a reduction if new target is clearly below current.
                let threshold: u64 = fraction_of(
                    self.committed_ceiling_bps,
                    COMMIT_THRESHOLD_RATIO,
                );
                if target < threshold {
                    let floor: u64 = fraction_of(self.publisher_target_bps, MIN_CEILING_RATIO);
                    self.committed_ceiling_bps =
                    if target > floor {
                        target
                    } else {
                        floor
                    };
                }
            },
            AllocatorState::Probing => {
                // Don't change ceiling during probe: probe finalization decides.
            },
        }
    }

    fn transition(&mut self, new_state: AllocatorState, now: Instant)
        ensures
            final(self)@ == old(self)@.moved(new_state, now),
    {
        if new_state != self.state {
            self.state = new_state;
            self.last_state_change = now;
        }
    }
}

} // verus!
