//! Probe controller: decides WHEN to probe, the probe bitrate goal, and
//! interprets the result.
//!
//! When the allocator is in the deficient state, the prober periodically requests
//! a higher bitrate than the current committed ceiling to test if headroom
//! has returned. If the estimate rises to meet or exceed the probe goal
//! without triggering congestion, the ceiling is raised.
//!
//! Backoff: failed probes double the wait interval (up to the maximum interval).
//! Successful probes reset it to the base interval.

use crate::clock::{elapsed, Duration, Instant};
use crate::config::{
    PROBE_BACKOFF_FACTOR, PROBE_BASE_INTERVAL_NANOS, PROBE_DURATION_NANOS,
    PROBE_MAX_INTERVAL_NANOS, PROBE_MIN_BPS, PROBE_MIN_SETTLE_MICROS, PROBE_OVERAGE_DIVISOR,
    PROBE_SETTLE_RTTS,
};
use vstd::prelude::*;

verus! {

#[derive(Debug, Clone, Copy, PartialEq, Eq, Structural)]
pub enum ProbeState {
    /// Not probing. Waiting for next probe attempt.
    Idle,
    /// Currently sending probe traffic.
    Active,
    /// Probe ended, waiting for settle period before evaluating.
    Settling,
}

/// Result of evaluating a completed probe.
#[derive(Debug, Clone, Copy, PartialEq, Eq, Structural)]
pub enum ProbeResult {
    /// Probe succeeded: the bandwidth estimate reached or exceeded the goal.
    /// New ceiling should be set to the observed peak.
    Success { peak_estimate_bps: u64 },
    /// Probe failed: the estimate did not rise to meet the goal.
    /// Back off and retry later.
    Failed,
    /// Congestion was detected during the probe: stay conservative.
    Congested,
}

/// A probe request emitted to the transport layer (the relay sends probe traffic).
#[derive(Debug, Clone, Copy)]
pub struct ProbeRequest {
    /// Target bitrate for the probe (current usage plus probe headroom).
    pub target_bps: u64,
    /// How long to send probe traffic.
    pub duration: Duration,
}

pub struct Prober {
    state: ProbeState,
    next_attempt_nanos: u128,
    current_interval_nanos: u64,
    probe_start: Option<Instant>,
    probe_goal_bps: u64,
    peak_estimate_during_probe: u64,
    congested_during_probe: bool,
}

/// What a [`Prober`] holds. Times are in nanoseconds.
pub struct ProberView {
    pub state: ProbeState,
    pub next_attempt: nat,
    pub interval: nat,
    pub probe_start: Option<Instant>,
    pub goal_bps: u64,
    pub peak_bps: u64,
    pub congested: bool,
}

/// The probe headroom above a ceiling: a fifth of it, or the minimum where that
/// is more.
pub open spec fn probe_headroom(ceiling_bps: u64) -> u64 {
    let share = ceiling_bps / PROBE_OVERAGE_DIVISOR;
    if share > PROBE_MIN_BPS {
        share
    } else {
        PROBE_MIN_BPS
    }
}

/// The bitrate that a probe from a ceiling aims for.
pub open spec fn probe_target(ceiling_bps: u64) -> int {
    ceiling_bps + probe_headroom(ceiling_bps)
}

/// How long a probe takes from its start until it is evaluated: its duration
/// and some round trips, in nanoseconds.
pub open spec fn probe_total_wait(rtt_us: u64) -> nat {
    let round_trips = rtt_us * PROBE_SETTLE_RTTS;
    let settle = if round_trips > PROBE_MIN_SETTLE_MICROS {
        round_trips
    } else {
        PROBE_MIN_SETTLE_MICROS as int
    };
    (PROBE_DURATION_NANOS + settle * 1_000) as nat
}

impl ProberView {
    /// A probe has a start exactly while it runs, and the wait between probes
    /// stays between its bounds.
    pub open spec fn wf(self) -> bool {
        &&& self.probe_start is Some == (self.state != ProbeState::Idle)
        &&& PROBE_BASE_INTERVAL_NANOS <= self.interval <= PROBE_MAX_INTERVAL_NANOS
    }

    pub open spec fn fresh(now: Instant) -> Self {
        ProberView {
            state: ProbeState::Idle,
            next_attempt: (now.nanos + PROBE_BASE_INTERVAL_NANOS) as nat,
            interval: PROBE_BASE_INTERVAL_NANOS as nat,
            probe_start: None,
            goal_bps: 0,
            peak_bps: 0,
            congested: false,
        }
    }

    /// Whether a probe would start now.
    pub open spec fn due(self, now: Instant) -> bool {
        self.state == ProbeState::Idle && now.nanos >= self.next_attempt
    }

    /// Whether the numbers of a probe that starts now are in range.
    pub open spec fn accepts_start(self, ceiling_bps: u64, now: Instant, rtt_us: u64) -> bool {
        self.due(now) ==> probe_target(ceiling_bps) <= u64::MAX && rtt_us * PROBE_SETTLE_RTTS
            <= u64::MAX
    }

    /// The prober after it was asked for a probe.
    pub open spec fn started(self, ceiling_bps: u64, now: Instant) -> Self {
        if self.due(now) {
            ProberView {
                state: ProbeState::Active,
                probe_start: Some(now),
                goal_bps: probe_target(ceiling_bps) as u64,
                peak_bps: 0,
                congested: false,
                ..self
            }
        } else {
            self
        }
    }

    /// The prober after it saw an estimate.
    pub open spec fn observed(self, estimate_bps: u64) -> Self {
        if self.state == ProbeState::Active && estimate_bps > self.peak_bps {
            ProberView { peak_bps: estimate_bps, ..self }
        } else {
            self
        }
    }

    /// The prober after congestion was detected.
    pub open spec fn marked(self) -> Self {
        if self.state == ProbeState::Active {
            ProberView { congested: true, ..self }
        } else {
            self
        }
    }

    /// Whether probe traffic has been sent for long enough.
    pub open spec fn past_traffic(self, now: Instant) -> bool {
        match self.state {
            ProbeState::Idle => false,
            ProbeState::Active => elapsed(self.probe_start->0, now) >= PROBE_DURATION_NANOS,
            ProbeState::Settling => true,
        }
    }

    /// Whether the round-trip time of a tick is in range, where it is needed.
    pub open spec fn accepts_tick(self, now: Instant, rtt_us: u64) -> bool {
        self.past_traffic(now) ==> rtt_us * PROBE_SETTLE_RTTS <= u64::MAX
    }

    /// Whether the probe is evaluated now.
    pub open spec fn completes(self, now: Instant, rtt_us: u64) -> bool {
        self.past_traffic(now) && elapsed(self.probe_start->0, now) >= probe_total_wait(rtt_us)
    }

    /// How the probe ends: congestion outweighs everything, else the peak counts.
    pub open spec fn outcome(self) -> ProbeResult {
        if self.congested {
            ProbeResult::Congested
        } else if self.peak_bps >= self.goal_bps {
            ProbeResult::Success { peak_estimate_bps: self.peak_bps }
        } else {
            ProbeResult::Failed
        }
    }

    /// The wait after a probe that did not succeed.
    pub open spec fn backed_off(self) -> nat {
        if self.interval * PROBE_BACKOFF_FACTOR < PROBE_MAX_INTERVAL_NANOS {
            (self.interval * PROBE_BACKOFF_FACTOR) as nat
        } else {
            PROBE_MAX_INTERVAL_NANOS as nat
        }
    }

    /// The prober at rest, to probe again after `interval`.
    pub open spec fn at_rest(self, now: Instant, interval: nat) -> Self {
        ProberView {
            state: ProbeState::Idle,
            next_attempt: now.nanos as nat + interval,
            interval,
            probe_start: None,
            peak_bps: 0,
            congested: false,
            ..self
        }
    }

    /// The prober after a tick.
    pub open spec fn ticked(self, now: Instant, rtt_us: u64) -> Self {
        if self.completes(now, rtt_us) {
            if self.outcome() is Success {
                self.at_rest(now, PROBE_BASE_INTERVAL_NANOS as nat)
            } else {
                self.at_rest(now, self.backed_off())
            }
        } else if self.past_traffic(now) {
            ProberView { state: ProbeState::Settling, ..self }
        } else {
            self
        }
    }

    /// The prober after it was cancelled.
    pub open spec fn cancelled(self, now: Instant) -> Self {
        self.at_rest(now, PROBE_BASE_INTERVAL_NANOS as nat)
    }
}

impl View for Prober {
    type V = ProberView;

    closed spec fn view(&self) -> ProberView {
        ProberView {
            state: self.state,
            next_attempt: self.next_attempt_nanos as nat,
            interval: self.current_interval_nanos as nat,
            probe_start: self.probe_start,
            goal_bps: self.probe_goal_bps,
            peak_bps: self.peak_estimate_during_probe,
            congested: self.congested_during_probe,
        }
    }
}

impl Prober {
    pub fn new(now: Instant) -> (r: Self)
        ensures
            r@ == ProberView::fresh(now),
            r@.wf(),
    {
        Prober {
            state: ProbeState::Idle,
            next_attempt_nanos: now.nanos as u128 + PROBE_BASE_INTERVAL_NANOS as u128,
            current_interval_nanos: PROBE_BASE_INTERVAL_NANOS,
            probe_start: None,
            probe_goal_bps: 0,
            peak_estimate_during_probe: 0,
            congested_during_probe: false,
        }
    }

    pub fn state(&self) -> (r: ProbeState)
        ensures
            r == self@.state,
    {
        self.state
    }

    pub fn is_active(&self) -> (r: bool)
        ensures
            r == (self@.state == ProbeState::Active || self@.state == ProbeState::Settling),
    {
        matches!(self.state, ProbeState::Active | ProbeState::Settling)
    }

    /// The wait between probe attempts.
    pub fn current_interval(&self) -> (r: Duration)
        ensures
            r.nanos == self@.interval,
    {
        Duration::from_nanos(self.current_interval_nanos)
    }

    /// Checks if a new probe should be started. Returns the probe request if yes.
    pub fn maybe_start(&mut self, current_ceiling_bps: u64, now: Instant, rtt_us: u64) -> (r: Option<
        ProbeRequest,
    >)
        requires
            old(self)@.wf(),
            old(self)@.accepts_start(current_ceiling_bps, now, rtt_us),
        ensures
            final(self)@ == old(self)@.started(current_ceiling_bps, now),
            final(self)@.wf(),
            r is Some == old(self)@.due(now),
            r matches Some(req) ==> req.target_bps == probe_target(current_ceiling_bps)
                && req.duration.nanos == PROBE_DURATION_NANOS,
    {
        if self.state != ProbeState::Idle {
            return None;
        }
        if (now.nanos as u128) < self.next_attempt_nanos {
            return None;
        }

        // The overage above the current ceiling, with a minimum absolute headroom.
        let share: u64 = current_ceiling_bps / PROBE_OVERAGE_DIVISOR;
        let headroom: u64 = if share > PROBE_MIN_BPS {
            share
        } else {
            PROBE_MIN_BPS
        };
        let target_bps: u64 = current_ceiling_bps + headroom;

        self.state = ProbeState::Active;
        self.probe_start = Some(now);
        self.probe_goal_bps = target_bps;
        self.peak_estimate_during_probe = 0;
        self.congested_during_probe = false;

        Some(ProbeRequest { target_bps, duration: Duration::from_nanos(PROBE_DURATION_NANOS) })
    }

    /// Feeds bandwidth estimate samples during an active probe.
    pub fn observe_estimate(&mut self, estimate_bps: u64)
        ensures
            final(self)@ == old(self)@.observed(estimate_bps),
            old(self)@.wf() ==> final(self)@.wf(),
    {
        if self.state == ProbeState::Active && estimate_bps > self.peak_estimate_during_probe {
            self.peak_estimate_during_probe = estimate_bps;
        }
    }

    /// Signals that congestion was detected during the probe.
    pub fn mark_congested(&mut self)
        ensures
            final(self)@ == old(self)@.marked(),
            old(self)@.wf() ==> final(self)@.wf(),
    {
        if self.state == ProbeState::Active {
            self.congested_during_probe = true;
        }
    }

    /// Advances the state machine. Call on each tick. Returns a result when a
    /// probe completes.
    pub fn tick(&mut self, now: Instant, rtt_us: u64) -> (r: Option<ProbeResult>)
        requires
            old(self)@.wf(),
            old(self)@.accepts_tick(now, rtt_us),
        ensures
            final(self)@ == old(self)@.ticked(now, rtt_us),
            final(self)@.wf(),
            r == if old(self)@.completes(now, rtt_us) {
                Some(old(self)@.outcome())
            } else {
                None
            },
    {
        // Active to settling (drop through on same tick if time has elapsed).
        if self.state == ProbeState::Active {
            if let Some(start) = self.probe_start {
                if now.duration_since(start).nanos >= PROBE_DURATION_NANOS as u128 {
                    self.state = ProbeState::Settling;
                }
            }
        }
        // Settling to idle (with result).
        if self.state == ProbeState::Settling {
            let round_trips: u64 = rtt_us * PROBE_SETTLE_RTTS;
            let settle_micros: u64 = if round_trips > PROBE_MIN_SETTLE_MICROS {
                round_trips
            } else {
                PROBE_MIN_SETTLE_MICROS
            };
            let total_wait: u128 = PROBE_DURATION_NANOS as u128 + (settle_micros as u128) * 1_000;
            if let Some(start) = self.probe_start {
                if now.duration_since(start).nanos >= total_wait {
                    return Some(self.finalize(now));
                }
            }
        }
        None
    }

    /// Ends the probe with a result.
    fn finalize(&mut self, now: Instant) -> (r: ProbeResult)
        requires
            PROBE_BASE_INTERVAL_NANOS <= old(self)@.interval <= PROBE_MAX_INTERVAL_NANOS,
        ensures
            r == old(self)@.outcome(),
            final(self)@ == if r is Success {
                old(self)@.at_rest(now, PROBE_BASE_INTERVAL_NANOS as nat)
            } else {
                old(self)@.at_rest(now, old(self)@.backed_off())
            },
    {
        self.state = ProbeState::Idle;
        self.probe_start = None;

        let result = if self.congested_during_probe {
            self.back_off(now);
            ProbeResult::Congested
        } else if self.peak_estimate_during_probe >= self.probe_goal_bps {
            self.reset_interval(now);
            ProbeResult::Success { peak_estimate_bps: self.peak_estimate_during_probe }
        } else {
            self.back_off(now);
            ProbeResult::Failed
        };

        self.peak_estimate_during_probe = 0;
        self.congested_during_probe = false;
        result
    }

    /// Waits longer before the next probe.
    fn back_off(&mut self, now: Instant)
        requires
            old(self)@.interval <= PROBE_MAX_INTERVAL_NANOS,
        ensures
            final(self)@ == (ProberView {
                interval: old(self)@.backed_off(),
                next_attempt: now.nanos as nat + old(self)@.backed_off(),
                ..old(self)@
            }),
    {
        let longer: u64 = self.current_interval_nanos * PROBE_BACKOFF_FACTOR;
        self.current_interval_nanos = if longer < PROBE_MAX_INTERVAL_NANOS {
            longer
        } else {
            PROBE_MAX_INTERVAL_NANOS
        };
        self.next_attempt_nanos = now.nanos as u128 + self.current_interval_nanos as u128;
    }

    /// Goes back to the base interval.
    fn reset_interval(&mut self, now: Instant)
        ensures
            final(self)@ == (ProberView {
                interval: PROBE_BASE_INTERVAL_NANOS as nat,
                next_attempt: (now.nanos + PROBE_BASE_INTERVAL_NANOS) as nat,
                ..old(self)@
            }),
    {
        self.current_interval_nanos = PROBE_BASE_INTERVAL_NANOS;
        self.next_attempt_nanos = now.nanos as u128 + self.current_interval_nanos as u128;
    }

    /// Called when the deficient state is left: cancels a pending probe.
    pub fn cancel(&mut self, now: Instant)
        ensures
            final(self)@ == old(self)@.cancelled(now),
            final(self)@.wf(),
    {
        self.state = ProbeState::Idle;
        self.probe_start = None;
        self.peak_estimate_during_probe = 0;
        self.congested_during_probe = false;
        self.reset_interval(now);
    }
}

} // verus!
