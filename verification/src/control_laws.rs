//! Laws of the bitrate controller in terms of what goes in and what comes out:
//! times in nanoseconds, bitrates in bits per second, loss as a fraction.

use crate::allocator::{AllocatorDecision, AllocatorState, AllocatorView};
use crate::clock::{elapsed, Instant};
use crate::controller::{BitrateSignal, ControllerView};
use crate::decimals::{law_fractions, ratio};
use crate::estimator::{EstimateView, EstimatorView, TransportStats};
use crate::prober::{probe_target, ProbeResult, ProbeState, ProberView};
use crate::trend::TrendDirection;
use crate::value::{difference, larger, less, of_int, product, truncated};
use vstd::prelude::*;

verus! {

// Probes.

/// A probe aims a fifth above the ceiling that it starts from, but at least 200
/// kilobits per second above it.
pub proof fn law_probe_target(ceiling_bps: u64)
    ensures
        probe_target(ceiling_bps) >= ceiling_bps + 200_000,
        5 * (probe_target(ceiling_bps) - ceiling_bps) > ceiling_bps - 5,
        probe_target(ceiling_bps) > ceiling_bps + 200_000 ==> 5 * (probe_target(ceiling_bps)
            - ceiling_bps) <= ceiling_bps,
{
}

/// When a probe may start: three seconds after the prober was made or cancelled.
/// Starting it asks for the target of the ceiling, and forgets what was seen before.
pub proof fn law_probe_starts(p: ProberView, ceiling_bps: u64, now: Instant, later: Instant)
    requires
        probe_target(ceiling_bps) <= u64::MAX,
    ensures
        ProberView::fresh(now).due(later) <==> later.nanos >= now.nanos + 3_000_000_000,
        p.cancelled(now).due(later) <==> later.nanos >= now.nanos + 3_000_000_000,
        p.cancelled(now).state == ProbeState::Idle,
        p.due(now) <==> p.state == ProbeState::Idle && now.nanos >= p.next_attempt,
        p.due(now) ==> {
            let q = p.started(ceiling_bps, now);
            &&& q.state == ProbeState::Active
            &&& q.probe_start == Some(now)
            &&& q.goal_bps == probe_target(ceiling_bps)
            &&& q.peak_bps == 0
            &&& !q.congested
            &&& q.interval == p.interval
        },
        !p.due(now) ==> p.started(ceiling_bps, now) == p,
{
}

/// What a probe takes in while its traffic is sent, and only then: the largest
/// estimate, and whether there was congestion.
pub proof fn law_probe_observes(p: ProberView, estimate_bps: u64)
    ensures
        p.state == ProbeState::Active ==> {
            let q = p.observed(estimate_bps);
            &&& q.peak_bps >= p.peak_bps && q.peak_bps >= estimate_bps
            &&& q.peak_bps == p.peak_bps || q.peak_bps == estimate_bps
            &&& q == (ProberView { peak_bps: q.peak_bps, ..p })
            &&& p.marked() == (ProberView { congested: true, ..p })
        },
        p.state != ProbeState::Active ==> p.observed(estimate_bps) == p && p.marked() == p,
{
}

/// How long a probe takes: half a second of traffic, and then five round trips, but
/// at least a quarter of a second, until it is judged.
pub proof fn law_probe_timing(p: ProberView, now: Instant, rtt_us: u64)
    requires
        p.wf(),
    ensures
        p.state == ProbeState::Idle ==> p.ticked(now, rtt_us) == p && !p.completes(now, rtt_us),
        p.state != ProbeState::Idle ==> {
            let t = elapsed(p.probe_start->0, now);
            let judged = t >= 500_000_000 + 5_000 * rtt_us && t >= 750_000_000;
            let q = p.ticked(now, rtt_us);
            &&& p.completes(now, rtt_us) <==> q.state == ProbeState::Idle
            &&& p.state == ProbeState::Active ==> (q.state == ProbeState::Idle <==> judged) && (
            q.state == ProbeState::Active <==> t < 500_000_000)
            &&& p.state == ProbeState::Settling ==> (q.state == ProbeState::Idle <==> judged)
                && q.state != ProbeState::Active
            &&& q.state != ProbeState::Idle ==> q == (ProberView { state: q.state, ..p })
        },
{
}

/// When the next probe may start after one was judged: three seconds after a
/// success; after anything else the wait before is doubled, up to two minutes.
pub proof fn law_probe_backs_off(p: ProberView, now: Instant, rtt_us: u64, later: Instant)
    requires
        p.wf(),
        p.completes(now, rtt_us),
    ensures
        ({
            let q = p.ticked(now, rtt_us);
            let success = !p.congested && p.peak_bps >= p.goal_bps;
            let wait = if success {
                3_000_000_000
            } else if p.interval <= 60_000_000_000 {
                2 * p.interval
            } else {
                120_000_000_000
            };
            &&& q.due(later) <==> later.nanos >= now.nanos + wait
            &&& q.interval == wait
            &&& p.outcome() == (if success {
                ProbeResult::Success { peak_estimate_bps: p.peak_bps }
            } else if p.congested {
                ProbeResult::Congested
            } else {
                ProbeResult::Failed
            })
            &&& q.peak_bps == 0 && !q.congested && q.probe_start is None
        }),
{
}

/// Which numbers a prober can go on with: a target and five round trips that 64 bits
/// hold, as far as they are needed. That is the target when a probe starts, and the round
/// trips then and once its traffic was sent.
pub proof fn law_probes_that_fit(p: ProberView, ceiling_bps: u64, now: Instant, rtt_us: u64)
    requires
        p.wf(),
    ensures
        p.accepts_start(ceiling_bps, now, rtt_us) <==> {
            ||| p.state != ProbeState::Idle
            ||| now.nanos < p.next_attempt
            ||| probe_target(ceiling_bps) < 0x1_0000_0000_0000_0000 && 5 * rtt_us
                < 0x1_0000_0000_0000_0000
        },
        p.accepts_tick(now, rtt_us) <==> {
            ||| p.state == ProbeState::Idle
            ||| p.state == ProbeState::Active && elapsed(p.probe_start->0, now) < 500_000_000
            ||| 5 * rtt_us < 0x1_0000_0000_0000_0000
        },
{
}

// States.

/// A stable allocator turns deficient (and probes at once where that is due) exactly
/// on congestion with an estimate below the target: a downward trend or a loss above
/// 10%. Otherwise a loss above 5% is an early warning, and anything else is no reason
/// to leave.
pub proof fn law_leaving_stable(v: AllocatorView, e: EstimateView, now: Instant)
    requires
        v.wf(),
        v.state == AllocatorState::Stable,
    ensures
        ({
            let next = v.updated(e, now).state;
            let congested = e.trend == TrendDirection::Downward || less(
                ratio(10, 100),
                e.loss_rate,
            );
            &&& (next == AllocatorState::Deficient || next == AllocatorState::Probing)
                <==> congested && e.bps < v.target_bps
            &&& next == AllocatorState::EarlyWarning <==> !(congested && e.bps < v.target_bps)
                && less(ratio(5, 100), e.loss_rate)
        }),
{
    law_fractions();
}

/// An allocator in early warning turns deficient (and probes at once where that is
/// due) exactly on congestion, by a downward trend or by a loss above 10%. Without,
/// it is stable again exactly if the loss is below 2.5%.
pub proof fn law_leaving_early_warning(v: AllocatorView, e: EstimateView, now: Instant)
    requires
        v.wf(),
        v.state == AllocatorState::EarlyWarning,
    ensures
        ({
            let next = v.updated(e, now).state;
            let congested = e.trend == TrendDirection::Downward || less(
                ratio(10, 100),
                e.loss_rate,
            );
            &&& (next == AllocatorState::Deficient || next == AllocatorState::Probing)
                <==> congested
            &&& next == AllocatorState::Stable <==> !congested && less(
                e.loss_rate,
                ratio(25, 1000),
            )
        }),
{
    law_fractions();
}

/// A deficient allocator is stable again exactly if the estimate reaches the target
/// with a loss below 5% and no downward trend. Otherwise it stays deficient, or
/// probes.
pub proof fn law_leaving_deficient(v: AllocatorView, e: EstimateView, now: Instant)
    requires
        v.wf(),
        v.state == AllocatorState::Deficient,
    ensures
        ({
            let next = v.updated(e, now).state;
            &&& next == AllocatorState::Stable <==> e.bps >= v.target_bps && less(
                e.loss_rate,
                ratio(5, 100),
            ) && e.trend != TrendDirection::Downward
            &&& next != AllocatorState::EarlyWarning
        }),
{
    law_fractions();
}

/// An allocator that is deficient after an estimate probes exactly if the time for
/// the next attempt has come; the probe starts then, and aims at the target of the
/// ceiling.
pub proof fn law_deficient_probes(v: AllocatorView, e: EstimateView, now: Instant)
    requires
        v.wf(),
        v.accepts(e, now),
        v.state != AllocatorState::Probing,
    ensures
        ({
            let w = v.updated(e, now);
            &&& w.state == AllocatorState::Deficient ==> now.nanos < v.prober.next_attempt
            &&& w.state == AllocatorState::Probing ==> {
                &&& now.nanos >= v.prober.next_attempt
                &&& w.prober.state == ProbeState::Active
                &&& w.prober.probe_start == Some(now)
                &&& w.prober.peak_bps == 0 && !w.prober.congested
                &&& w.prober.goal_bps == probe_target(w.ceiling_bps)
                &&& w.probe_target_bps == probe_target(w.ceiling_bps)
                &&& w.prober.interval == v.prober.interval
            }
            &&& w.state != AllocatorState::Probing ==> w.prober.state == ProbeState::Idle
            &&& w.state == AllocatorState::Deficient || w.state == AllocatorState::EarlyWarning
                ==> w.prober == v.prober
            // Recovery puts off the next attempt, staying stable does not.
            &&& w.state == AllocatorState::Stable && v.state == AllocatorState::Deficient ==> {
                &&& w.prober.next_attempt == now.nanos + 3_000_000_000
                &&& w.prober.interval == 3_000_000_000
            }
            &&& w.state == AllocatorState::Stable && v.state != AllocatorState::Deficient
                ==> w.prober == v.prober
            &&& w.target_bps == v.target_bps
        }),
{
}

// Ceilings.

/// The ceiling that goes with a state. It is the target while stable, and is held in
/// early warning. A deficient allocator holds it too, but for a downward trend or a
/// loss above 5%: then it comes down to what is asked for, if that is below 95% of
/// it, but not below a fifth of the target. Asked for is the estimate, or with such a
/// loss the target less one and a half times that share, if that is less.
pub proof fn law_ceiling_of_state(v: AllocatorView, e: EstimateView, now: Instant)
    requires
        v.wf(),
        v.state != AllocatorState::Probing,
    ensures
        ({
            let w = v.updated(e, now);
            let lossy = less(ratio(5, 100), e.loss_rate);
            let fifth = truncated(product(of_int(v.target_bps as int), ratio(2, 10)));
            let margin = truncated(product(of_int(v.ceiling_bps as int), ratio(95, 100)));
            let left = larger(
                difference(ratio(1, 1), product(ratio(3, 2), e.loss_rate)),
                ratio(2, 10),
            );
            let by_loss = truncated(product(of_int(v.target_bps as int), left));
            &&& w.state == AllocatorState::Stable ==> w.ceiling_bps == v.target_bps
            &&& w.state == AllocatorState::EarlyWarning ==> w.ceiling_bps == v.ceiling_bps
            &&& w.state == AllocatorState::Deficient || w.state == AllocatorState::Probing ==> {
                // It is held without a sign of congestion, and by a small margin.
                &&& !lossy && e.trend != TrendDirection::Downward ==> w.ceiling_bps
                    == v.ceiling_bps
                &&& e.bps >= margin && !(lossy && by_loss < margin) ==> w.ceiling_bps
                    == v.ceiling_bps
                // Otherwise it meets every demand, down to the fifth.
                &&& (lossy || e.trend == TrendDirection::Downward) && (e.bps < margin || lossy
                    && by_loss < margin) ==> {
                    &&& w.ceiling_bps >= fifth
                    &&& w.ceiling_bps <= e.bps || w.ceiling_bps == fifth
                    &&& lossy ==> w.ceiling_bps <= by_loss || w.ceiling_bps == fifth
                    &&& w.ceiling_bps == fifth || w.ceiling_bps == e.bps || lossy && w.ceiling_bps
                        == by_loss
                    &&& w.ceiling_bps == fifth ==> e.bps <= fifth || lossy && by_loss <= fifth
                }
            }
        }),
{
    law_fractions();
}

/// With loss above 5%, an estimate below 95% of the ceiling brings a deficient
/// allocator's ceiling down to that estimate or lower, whatever the trend is; and
/// the trend makes no difference to it.
pub proof fn law_loss_lowers_the_ceiling(
    v: AllocatorView,
    e: EstimateView,
    trend: TrendDirection,
    now: Instant,
)
    requires
        v.wf(),
        v.state == AllocatorState::Deficient,
        less(ratio(5, 100), e.loss_rate),
    ensures
        ({
            let w = v.updated(e, now);
            let fifth = truncated(product(of_int(v.target_bps as int), ratio(2, 10)));
            let margin = truncated(product(of_int(v.ceiling_bps as int), ratio(95, 100)));
            &&& fifth < e.bps < margin ==> w.ceiling_bps <= e.bps
            &&& e.bps <= fifth && e.bps < margin ==> w.ceiling_bps == fifth
            &&& v.updated(EstimateView { trend, ..e }, now).ceiling_bps == w.ceiling_bps
        }),
{
    law_fractions();
}

/// While a probe is not judged yet, the allocator keeps probing, and holds the ceiling
/// and the target of the probe. The probe is shown the unsmoothed rate, and told of
/// congestion.
pub proof fn law_probing_goes_on(v: AllocatorView, e: EstimateView, now: Instant)
    requires
        v.wf(),
        v.state == AllocatorState::Probing,
        ({
            let t = elapsed(v.prober.probe_start->0, now);
            t < 500_000_000 + 5_000 * e.rtt_us || t < 750_000_000
        }),
    ensures
        ({
            let w = v.updated(e, now);
            let congested = e.trend == TrendDirection::Downward || less(
                ratio(10, 100),
                e.loss_rate,
            );
            let active = v.prober.state == ProbeState::Active;
            &&& w.state == AllocatorState::Probing
            &&& w.ceiling_bps == v.ceiling_bps
            &&& w.target_bps == v.target_bps
            &&& w.probe_target_bps == v.probe_target_bps
            &&& w.prober.goal_bps == v.prober.goal_bps
            &&& w.prober.probe_start == v.prober.probe_start
            &&& w.prober.peak_bps == (if active && e.raw_bps > v.prober.peak_bps {
                e.raw_bps
            } else {
                v.prober.peak_bps
            })
            &&& w.prober.congested <==> v.prober.congested || active && congested
            &&& w.prober.state == (if active && elapsed(v.prober.probe_start->0, now)
                < 500_000_000 {
                ProbeState::Active
            } else {
                ProbeState::Settling
            })
            &&& w.prober.interval == v.prober.interval
            &&& w.prober.next_attempt == v.prober.next_attempt
        }),
{
    law_fractions();
}

/// What the end of a probe leads to. A probe that saw no congestion and a peak of at
/// least its goal succeeds: the allocator goes on from the smaller of that peak and
/// the target, stable if that is the target and deficient if not. Any other one
/// leaves it deficient at the ceiling that it had. From there the estimate counts as
/// it does for an allocator that did not probe, and no new probe starts yet.
pub proof fn law_end_of_probe(v: AllocatorView, e: EstimateView, now: Instant)
    requires
        v.wf(),
        v.state == AllocatorState::Probing,
        elapsed(v.prober.probe_start->0, now) >= 500_000_000 + 5_000 * e.rtt_us,
        elapsed(v.prober.probe_start->0, now) >= 750_000_000,
    ensures
        ({
            let w = v.updated(e, now);
            let active = v.prober.state == ProbeState::Active;
            let shown = e.trend == TrendDirection::Downward || less(ratio(10, 100), e.loss_rate);
            let peak = if active && e.raw_bps > v.prober.peak_bps {
                e.raw_bps
            } else {
                v.prober.peak_bps
            };
            let success = !v.prober.congested && !(active && shown) && peak >= v.prober.goal_bps;
            let reached = if peak < v.target_bps {
                peak
            } else {
                v.target_bps
            };
            let calm = AllocatorView {
                state: if success && reached == v.target_bps {
                    AllocatorState::Stable
                } else {
                    AllocatorState::Deficient
                },
                ceiling_bps: if success {
                    reached
                } else {
                    v.ceiling_bps
                },
                probe_target_bps: 0,
                prober: v.prober.cancelled(now),
                ..v
            };
            &&& w.state == calm.updated(e, now).state
            &&& w.ceiling_bps == calm.updated(e, now).ceiling_bps
            &&& w.state != AllocatorState::Probing
            // After anything but success the wait is doubled, up to two minutes.
            &&& w.prober.interval == (if success || w.state == AllocatorState::Stable {
                3_000_000_000
            } else if v.prober.interval <= 60_000_000_000 {
                2 * v.prober.interval
            } else {
                120_000_000_000
            })
            &&& w.prober.next_attempt == now.nanos + w.prober.interval
            // Without a sign of congestion, that is where it stays.
            &&& !less(ratio(5, 100), e.loss_rate) && e.trend != TrendDirection::Downward ==> {
                let recovered = e.bps >= v.target_bps && less(e.loss_rate, ratio(5, 100));
                &&& w.state == AllocatorState::Stable <==> success && peak >= v.target_bps
                    || recovered
                &&& w.state == AllocatorState::Stable || w.state == AllocatorState::Deficient
                &&& w.state == AllocatorState::Stable ==> w.ceiling_bps == v.target_bps
                &&& success && !recovered ==> w.ceiling_bps == reached
                &&& !success && !recovered ==> w.ceiling_bps == v.ceiling_bps
            }
        }),
{
    law_fractions();
    crate::laws::lemma_congestion_allows_reduction(e);
}

/// What a result of a probe does by itself, whatever else is known. Success takes the
/// ceiling to the smaller of the peak and the target, and the state to stable exactly if
/// the peak reached the target. Any other result leaves the ceiling, and the state is
/// deficient.
pub proof fn law_result_of_probe(v: AllocatorView, result: ProbeResult, now: Instant)
    ensures
        ({
            let w = v.concluded(result, now);
            &&& w.target_bps == v.target_bps
            &&& w.prober == v.prober
            &&& w.probe_target_bps == 0
            &&& w.state == AllocatorState::Stable || w.state == AllocatorState::Deficient
            &&& result matches ProbeResult::Success { peak_estimate_bps } ==> {
                &&& w.ceiling_bps <= peak_estimate_bps && w.ceiling_bps <= v.target_bps
                &&& w.ceiling_bps == peak_estimate_bps || w.ceiling_bps == v.target_bps
                &&& w.state == AllocatorState::Stable <==> peak_estimate_bps >= v.target_bps
            }
            &&& !(result is Success) ==> {
                &&& w.ceiling_bps == v.ceiling_bps
                &&& w.state == AllocatorState::Deficient
            }
        }),
{
}

/// What congestion does to the state by itself, whatever else is known. It leads from
/// early warning to the deficient state, and from stable too if the estimate is below
/// the target. It marks a running probe, and does not end it.
pub proof fn law_congestion_moves(v: AllocatorView, e: EstimateView, now: Instant)
    ensures
        ({
            let w = v.transitioned(e, true, now);
            &&& v.state == AllocatorState::EarlyWarning ==> w.state == AllocatorState::Deficient
            &&& v.state == AllocatorState::Stable && e.bps < v.target_bps ==> w.state
                == AllocatorState::Deficient
            &&& v.state == AllocatorState::Probing ==> w.state == AllocatorState::Probing && (
            v.prober.state == ProbeState::Active ==> w.prober.congested)
            &&& w.ceiling_bps == v.ceiling_bps && w.target_bps == v.target_bps
        }),
{
}

/// The time of the last change of the state is that of the update that changed it.
pub proof fn law_changes_are_dated(v: AllocatorView, e: EstimateView, now: Instant)
    requires
        v.wf(),
    ensures
        v.updated(e, now).last_state_change == (if v.updated(e, now).state == v.state {
            v.last_state_change
        } else {
            now
        }),
{
    crate::laws::lemma_congestion_allows_reduction(e);
}

/// What a decision tells the publisher: the state, and the ceiling, or while probing
/// the target of the probe. A request for a probe comes exactly with the update that
/// begins to probe; it is for half a second, at a fifth above the ceiling and at least
/// 200 kilobits per second above it.
pub proof fn law_decision_tells(
    v: AllocatorView,
    e: EstimateView,
    now: Instant,
    d: AllocatorDecision,
)
    requires
        v.wf(),
        v.accepts(e, now),
        v.announces(e, now, d),
    ensures
        ({
            let w = v.updated(e, now);
            &&& d.state == w.state
            &&& d.ceiling_bps == (if w.state == AllocatorState::Probing {
                w.prober.goal_bps
            } else {
                w.ceiling_bps
            })
            &&& d.probe is Some <==> v.state != AllocatorState::Probing && w.state
                == AllocatorState::Probing
            &&& d.probe matches Some(req) ==> {
                &&& req.duration.nanos == 500_000_000
                &&& req.target_bps == d.ceiling_bps
                &&& req.target_bps >= w.ceiling_bps + 200_000
                &&& 5 * (req.target_bps - w.ceiling_bps) > w.ceiling_bps - 5
                &&& req.target_bps > w.ceiling_bps + 200_000 ==> 5 * (req.target_bps
                    - w.ceiling_bps) <= w.ceiling_bps
            }
        }),
{
}

/// An allocator starts stable at its target. A new target takes the ceiling with it
/// while stable, and changes nothing else in any other state.
pub proof fn law_targets(v: AllocatorView, bps: u64, now: Instant)
    ensures
        AllocatorView::fresh(bps, now).state == AllocatorState::Stable,
        AllocatorView::fresh(bps, now).target_bps == bps,
        AllocatorView::fresh(bps, now).ceiling_bps == bps,
        v.retargeted(bps).target_bps == bps,
        v.retargeted(bps).state == v.state,
        v.retargeted(bps).prober == v.prober,
        v.retargeted(bps).probe_target_bps == v.probe_target_bps,
        v.retargeted(bps).last_state_change == v.last_state_change,
        v.state == AllocatorState::Stable ==> v.retargeted(bps).ceiling_bps == bps,
        v.state != AllocatorState::Stable ==> v.retargeted(bps).ceiling_bps == v.ceiling_bps,
        AllocatorState::Stable.code() == 0,
        AllocatorState::EarlyWarning.code() == 1,
        AllocatorState::Deficient.code() == 2,
        AllocatorState::Probing.code() == 3,
{
}

// Signals.

/// The estimate of a reading is the one that the estimator gives for it. The
/// estimator takes in every reading, during warmup too; after that the allocator
/// decides by the estimate, and a signal carries it.
pub proof fn law_one_estimate(
    v: ControllerView,
    stats: TransportStats,
    now: Instant,
    signal: BitrateSignal,
)
    requires
        v.signals(stats, now),
        v.announces(stats, now, signal),
    ensures
        signal.estimate@ == v.estimator.updated(stats, now).estimate(stats),
        v.updated(stats, now).allocator == v.allocator.updated(signal.estimate@, now),
{
}

/// A reading changes the estimator as it does without a controller, and the allocator
/// as the estimate of the reading does, but not in the first five seconds.
pub proof fn law_reading(v: ControllerView, stats: TransportStats, now: Instant)
    ensures
        ({
            let w = v.updated(stats, now);
            let estimator = v.estimator.updated(stats, now);
            &&& w.estimator == estimator
            &&& w.created == v.created
            &&& w.allocator == (if elapsed(v.created, now) < 5_000_000_000 {
                v.allocator
            } else {
                v.allocator.updated(estimator.estimate(stats), now)
            })
        }),
{
}

/// When the publisher is told, and what: never in the first five seconds; after that
/// exactly if the state or the ceiling that it would be told differ from the last
/// ones, if a probe begins, or if it is not told "stable" and the last time was a
/// second ago or more.
pub proof fn law_telling(
    v: ControllerView,
    stats: TransportStats,
    now: Instant,
    signal: BitrateSignal,
)
    requires
        v.wf(),
        v.accepts(stats, now),
        v.signals(stats, now) ==> v.announces(stats, now, signal),
    ensures
        ({
            let w = v.updated(stats, now);
            let a = w.allocator;
            let told = if a.state == AllocatorState::Probing {
                a.prober.goal_bps
            } else {
                a.ceiling_bps
            };
            let begins = v.allocator.state != AllocatorState::Probing && a.state
                == AllocatorState::Probing;
            let tells = v.signals(stats, now);
            &&& elapsed(v.created, now) < 5_000_000_000 ==> !tells
            &&& elapsed(v.created, now) >= 5_000_000_000 ==> (tells <==> {
                ||| a.state != v.last_emitted_state
                ||| told != v.last_emitted_ceiling
                ||| begins
                ||| a.state != AllocatorState::Stable && elapsed(v.last_signal, now)
                    >= 1_000_000_000
            })
            &&& tells ==> {
                &&& signal.state == a.state
                &&& signal.ceiling_bps == told
                &&& signal.probe is Some <==> begins
                &&& signal.probe matches Some(req) ==> req.target_bps == told
                    && req.duration.nanos == 500_000_000
                &&& w.last_emitted_state == a.state
                &&& w.last_emitted_ceiling == told
                &&& w.last_signal == now
            }
            &&& !tells ==> {
                &&& w.last_emitted_state == v.last_emitted_state
                &&& w.last_emitted_ceiling == v.last_emitted_ceiling
                &&& w.last_signal == v.last_signal
            }
        }),
{
}

/// A controller starts with a fresh estimator and an allocator that is stable at the
/// target, and as if it had told the publisher just that.
pub proof fn law_new_controller(target_bps: u64, now: Instant)
    ensures
        ({
            let v = ControllerView::fresh(target_bps, now);
            &&& v.allocator.state == AllocatorState::Stable
            &&& v.allocator.target_bps == target_bps
            &&& v.allocator.ceiling_bps == target_bps
            &&& v.created == now && v.last_signal == now
            &&& v.last_emitted_state == AllocatorState::Stable
            &&& v.last_emitted_ceiling == target_bps
            &&& v.estimator == EstimatorView::fresh()
            &&& v.allocator.prober.next_attempt == now.nanos + 3_000_000_000
            &&& v.allocator.prober.state == ProbeState::Idle
        }),
{
}

} // verus!
