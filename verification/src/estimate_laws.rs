//! Laws of the bandwidth estimate in terms of what goes in and what comes out: which
//! samples count, what their trend is, and how rates and losses are smoothed.

use crate::clock::{elapsed, Instant};
use crate::config::{ESTIMATE_BASELINE_ALPHA, SAMPLE_EPSILON};
use crate::controller::{BitrateSignal, ControllerView};
use crate::decimals::{law_fractions, ratio};
use crate::estimator::{EstimatorView, TransportStats};
use crate::laws::{lemma_cancel, lemma_whole_bps};
use crate::rounding::{
    lemma_round_units_close, lemma_round_units_exact, lemma_round_units_monotone, round_units,
    units_per_one,
};
use crate::trend::{TrendDirection, TrendView};
use crate::value::{
    decoded, difference, lemma_blended_in_range, lemma_blended_weights, lemma_of_int_in_range,
    less, magnitude, of_int, product, quotient, sum, truncated, Value,
};
use vstd::arithmetic::power2::{
    lemma2_to64, lemma2_to64_rest, lemma_pow2_adds, lemma_pow2_pos, lemma_pow2_strictly_increases,
    pow2,
};
use vstd::prelude::*;

verus! {

// Trends.

/// The window after a sample was taken: the sample is the newest, the others keep
/// their order, and the oldest leaves a full window.
pub open spec fn takes_sample(v: TrendView, w: TrendView, value: Value, now: Instant) -> bool {
    let n = w.samples.len() as int;
    &&& n == if v.samples.len() < v.max_samples {
        v.samples.len() + 1
    } else {
        v.max_samples
    }
    &&& w.samples[n - 1] == value
    &&& forall|i: int|
        0 <= i < n - 1 ==> #[trigger] w.samples[i] == v.samples[v.samples.len() - n + 1 + i]
    &&& w.last_added == Some((now, value))
    &&& w.max_samples == v.max_samples && w.min_samples == v.min_samples
    &&& w.upward_threshold == v.upward_threshold && w.downward_threshold == v.downward_threshold
}

/// Which samples count: the first one; one that comes half a second after the last one
/// or later; and one that differs from the last one, by 2^-52 or more. One that comes
/// sooner and is equal, or differs by 2^-53 at most, changes nothing.
pub proof fn law_samples_that_count(
    v: TrendView,
    value: int,
    now: Instant,
    time: Instant,
    last: int,
)
    requires
        v.wf(),
        v.max_samples > 0,
    ensures
        ({
            let new = Value::Finite { units: value };
            let w = v.added(new, now);
            let apart = magnitude(value - last);
            &&& v.last_added is None ==> takes_sample(v, w, new, now)
            &&& v.last_added == Some((time, Value::Finite { units: last })) ==> {
                &&& elapsed(time, now) >= 500_000_000 ==> takes_sample(v, w, new, now)
                &&& apart * 0x10_0000_0000_0000 >= units_per_one() ==> takes_sample(v, w, new, now)
                &&& elapsed(time, now) < 500_000_000 && apart * 0x20_0000_0000_0000
                    <= units_per_one() ==> w == v
            }
        }),
{
    let apart = magnitude(value - last);
    lemma_pow2_pos(1021);
    lemma_pow2_pos(1022);
    lemma2_to64();
    lemma2_to64_rest();
    lemma_pow2_adds(52, 970);
    lemma_pow2_adds(52, 1022);
    lemma_pow2_adds(53, 1021);
    lemma_pow2_strictly_increases(1021, 1022);
    lemma_pow2_strictly_increases(1022, 2098);
    assert(decoded(SAMPLE_EPSILON) == (Value::Finite {
        units: (0x10_0000_0000_0000 * pow2(970)) as int,
    }));
    if apart * 0x10_0000_0000_0000 >= units_per_one() {
        assert(apart >= pow2(1022));
        lemma_round_units_exact(1, 1022, 1);
        assert(1 * pow2(1022) * 1 == pow2(1022));
        lemma_round_units_monotone(pow2(1022), 1, apart, 1);
    }
    if apart * 0x20_0000_0000_0000 <= units_per_one() {
        assert(apart <= pow2(1021));
        lemma_round_units_exact(1, 1021, 1);
        assert(1 * pow2(1021) * 1 == pow2(1021));
        lemma_round_units_monotone(apart, 1, pow2(1021), 1);
    }
}

/// How a window is classified: not at all with too few samples; as rising if the
/// coefficient is above 0.4; else as falling if it is below the threshold of the
/// detector; else as stable.
pub proof fn law_classification(v: TrendView)
    requires
        v.wf(),
    ensures
        v.samples.len() < v.min_samples <==> v.direction() == TrendDirection::Inconclusive,
        v.samples.len() >= v.min_samples ==> {
            &&& v.direction() == TrendDirection::Upward <==> less(ratio(4, 10), v.tau())
            &&& v.direction() == TrendDirection::Downward <==> less(v.tau(), v.downward_threshold)
                && !less(ratio(4, 10), v.tau())
        },
        v.cleared().samples.len() == 0,
        v.cleared().last_added is None,
{
    law_fractions();
}

// Rates.

/// The first rate that is read is taken as it is. After that an estimate is nine parts
/// the last estimate and one part the rate that is read, up to rounding: two bits per
/// second, and more only for rates of 2^46 bits per second and up.
pub proof fn law_weight_of_a_reading(v: EstimatorView, stats: TransportStats, now: Instant)
    requires
        v.wf(),
        stats.estimated_send_rate_bps != 0,
    ensures
        v.updated(stats, now).initialized,
        !v.initialized ==> v.updated(stats, now).baseline_bps == of_int(
            stats.estimated_send_rate_bps as int,
        ),
        v.initialized ==> {
            let last = truncated(v.baseline_bps);
            let parts = stats.estimated_send_rate_bps + 9 * last;
            let bps = v.updated(stats, now).estimate(stats).bps;
            parts - 20 - parts / 0x2_0000_0000_0000 <= 10 * bps <= parts + 20 + parts
                / 0x2_0000_0000_0000
        },
{
    if v.initialized {
        let c = 0x20_0000_0000_0000int;
        let u = units_per_one() as int;
        let rate = stats.estimated_send_rate_bps as int;
        let new = of_int(rate);
        let old = v.baseline_bps;
        let smoothed = v.smoothed(stats.estimated_send_rate_bps);
        let last = truncated(old) as int;
        let bps = truncated(smoothed) as int;
        let n = new->units;
        let o = old->units;
        let r = smoothed->units;
        let parts = rate + 9 * last;
        lemma_pow2_pos(1074);
        lemma2_to64();
        lemma2_to64_rest();
        lemma_pow2_adds(60, 60);
        lemma_pow2_strictly_increases(120, 1074);
        lemma_of_int_in_range(rate);
        lemma_blended_in_range(ESTIMATE_BASELINE_ALPHA, new, old, 64);
        lemma_blended_weights(new, old);
        lemma_whole_bps(old);
        lemma_whole_bps(smoothed);
        let ru = rate * u;
        assert(ru >= 0) by (nonlinear_arith)
            requires
                ru == rate * u,
                rate >= 0,
                u > 0,
        ;
        lemma_round_units_close(ru as nat, 1);
        assert(n == round_units(ru as nat, 1));
        assert(c * n <= (c + 1) * ru + c);
        assert(c * n + c >= (c - 1) * ru);
        assert((c * c * (10 * bps)) * u < ((c + 5) * (c + 1) * (parts + 9) + 1) * u)
            by (nonlinear_arith)
            requires
                bps * u <= r,
                c * (10 * r) <= (c + 5) * (n + 9 * o) + 50 * c,
                c * n <= (c + 1) * ru + c,
                ru == rate * u,
                o <= (last + 1) * u,
                parts == rate + 9 * last,
                last >= 0,
                rate >= 0,
                u > 60 * c * c,
                c == 0x20_0000_0000_0000int,
        ;
        lemma_cancel(c * c * (10 * bps), (c + 5) * (c + 1) * (parts + 9), u);
        assert(c * (c * (10 * bps - parts - 9)) <= c * (6 * (parts + 9)) + 5 * (parts + 9))
            by (nonlinear_arith)
            requires
                c * c * (10 * bps) <= (c + 5) * (c + 1) * (parts + 9),
        ;
        if bps < u64::MAX {
            assert(((c - 5) * (c - 1) * parts) * u < (c * c * (10 * (bps + 1)) + 1) * u)
                by (nonlinear_arith)
                requires
                    r < (bps + 1) * u,
                    c * (10 * r) + 50 * c >= (c - 5) * (n + 9 * o),
                    c * n + c >= (c - 1) * ru,
                    ru == rate * u,
                    o >= last * u,
                    parts == rate + 9 * last,
                    last >= 0,
                    rate >= 0,
                    u > 60 * c * c,
                    c == 0x20_0000_0000_0000int,
            ;
            lemma_cancel((c - 5) * (c - 1) * parts, c * c * (10 * (bps + 1)), u);
            assert(c * (c * (parts - 10 * bps - 10)) <= c * (6 * parts) - 5 * parts)
                by (nonlinear_arith)
                requires
                    (c - 5) * (c - 1) * parts <= c * c * (10 * (bps + 1)),
            ;
        }
    }
}

/// One reading does not make a signal: what a signal says of the bandwidth is nine
/// parts the last estimate and one part the reading, up to rounding.
pub proof fn law_signals_are_smoothed(
    v: ControllerView,
    stats: TransportStats,
    now: Instant,
    signal: BitrateSignal,
)
    requires
        v.wf(),
        v.estimator.initialized,
        stats.estimated_send_rate_bps != 0,
        v.signals(stats, now),
        v.announces(stats, now, signal),
    ensures
        ({
            let last = truncated(v.estimator.baseline_bps);
            let parts = stats.estimated_send_rate_bps + 9 * last;
            parts - 20 - parts / 0x2_0000_0000_0000 <= 10 * signal.estimate.bps <= parts + 20
                + parts / 0x2_0000_0000_0000
        }),
        signal.estimate.raw_bps == stats.estimated_send_rate_bps,
        signal.estimate.rtt_us == stats.rtt_us,
{
    law_weight_of_a_reading(v.estimator, stats, now);
}

/// How the loss rate follows the packets that were lost since the last reading, as a
/// share of those sent and lost: half of the way up, a tenth of the way down. A
/// counter that went back counts as no packets.
pub proof fn law_loss_follows(v: EstimatorView, stats: TransportStats, now: Instant)
    requires
        v.wf(),
        stats.estimated_send_rate_bps != 0,
    ensures
        ({
            let w = v.updated(stats, now);
            let sent = if stats.packets_sent > v.prev_packets_sent {
                stats.packets_sent - v.prev_packets_sent
            } else {
                0
            };
            let lost = if stats.packets_lost > v.prev_packets_lost {
                stats.packets_lost - v.prev_packets_lost
            } else {
                0
            };
            let share = if sent + lost == 0 {
                Value::Finite { units: 0 }
            } else {
                quotient(of_int(lost), of_int(sent + lost))
            };
            let weight = if less(v.loss_rate, share) {
                ratio(1, 2)
            } else {
                ratio(1, 10)
            };
            &&& w.loss_rate == sum(
                product(weight, share),
                product(difference(ratio(1, 1), weight), v.loss_rate),
            )
            &&& w.prev_packets_sent == stats.packets_sent
            &&& w.prev_packets_lost == stats.packets_lost
        }),
{
    law_fractions();
}

/// Which readings can be taken in: those without a rate, and those whose packets, sent
/// and lost since the last one, are at most 2^64 - 1 together.
pub proof fn law_readings_that_fit(v: EstimatorView, stats: TransportStats)
    ensures
        ({
            let sent = if stats.packets_sent > v.prev_packets_sent {
                stats.packets_sent - v.prev_packets_sent
            } else {
                0
            };
            let lost = if stats.packets_lost > v.prev_packets_lost {
                stats.packets_lost - v.prev_packets_lost
            } else {
                0
            };
            v.accepts(stats) <==> stats.estimated_send_rate_bps == 0 || sent + lost
                < 0x1_0000_0000_0000_0000
        }),
{
}

/// What an estimate says: the smoothed rate in whole bits per second, the rate and the
/// round-trip time that were read, the smoothed loss rate, and the trend of the
/// smoothed rates with this one. A reading without a rate changes nothing, and says
/// nothing of a trend.
pub proof fn law_estimate_says(v: EstimatorView, stats: TransportStats, now: Instant)
    ensures
        ({
            let w = v.updated(stats, now);
            let e = w.estimate(stats);
            &&& e.bps == truncated(w.baseline_bps)
            &&& e.raw_bps == stats.estimated_send_rate_bps
            &&& e.rtt_us == stats.rtt_us
            &&& e.loss_rate == w.loss_rate
            &&& stats.estimated_send_rate_bps == 0 ==> {
                &&& w == v
                &&& e.trend == TrendDirection::Inconclusive
                &&& e.trend_coefficient == (Value::Finite { units: 0 })
            }
            &&& stats.estimated_send_rate_bps != 0 ==> {
                &&& w.trend == v.trend.added(w.baseline_bps, now)
                &&& e.trend == w.trend.direction()
                &&& e.trend_coefficient == w.trend.tau()
            }
        }),
        !EstimatorView::fresh().initialized,
        EstimatorView::fresh().loss_rate == (Value::Finite { units: 0 }),
        EstimatorView::fresh().prev_packets_sent == 0,
        EstimatorView::fresh().prev_packets_lost == 0,
        EstimatorView::fresh().trend.samples.len() == 0,
        EstimatorView::fresh().trend.max_samples == 12,
        EstimatorView::fresh().trend.min_samples == 8,
        EstimatorView::fresh().trend.downward_threshold == ratio(-6, 10),
{
    law_fractions();
}

} // verus!
