//! Laws of the bitrate controller: what holds of every history of samples,
//! probes, estimates and readings.

use crate::allocator::{
    allows_reduction, asked_bps, ceiling_floor, commit_threshold, shows_congestion,
    AllocatorDecision, AllocatorState, AllocatorView,
};
use crate::clock::{elapsed, Instant};
use crate::config::{
    COMMIT_THRESHOLD_RATIO, ESTIMATE_BASELINE_ALPHA, LOSS_ATTACK_ALPHA, LOSS_CONGESTION_RATIO,
    LOSS_DECAY_ALPHA, LOSS_TRIGGER_RATIO, MIN_CEILING_RATIO, MIN_SIGNAL_INTERVAL_NANOS, ONE,
    PROBE_BASE_INTERVAL_NANOS, PROBE_MAX_INTERVAL_NANOS, PROBE_MIN_BPS, PROBE_SETTLE_RTTS,
    SAMPLE_EPSILON, TREND_COLLAPSE_WINDOW_NANOS, TREND_UPWARD_THRESHOLD, WARMUP_DURATION_NANOS,
};
use crate::controller::{BitrateSignal, ControllerView};
use crate::estimator::{law_rates_stay_in_range, EstimateView, EstimatorView, TransportStats};
use crate::prober::{probe_target, probe_total_wait, ProbeResult, ProbeState, ProberView};
use crate::rounding::{
    lemma_round_units_close, lemma_round_units_monotone, round_units, units_per_one,
};
use crate::trend::{
    kendalls_tau, largest, lemma_pairs_room, pairs, pairs_before, smallest, steps, steps_from,
    TrendDirection, TrendView,
};
use crate::value::{
    decoded, difference, exactly, in_range, lemma_blended_between, lemma_blended_in_range,
    lemma_difference_self, lemma_exact_int, lemma_of_int_in_range, lemma_of_int_negated,
    lemma_of_positive, lemma_quotient_of_zero, lemma_quotient_self, lemma_ratio_in_range,
    lemma_round_at_most, lemma_scaled_at_most, lemma_weights, lemma_zero, less, magnitude, negated,
    of_int, product, sum, truncated, Value,
};
use vstd::arithmetic::power2::{
    lemma2_to64, lemma2_to64_rest, lemma_pow2_adds, lemma_pow2_pos, lemma_pow2_strictly_increases,
    pow2,
};
use vstd::arithmetic::div_mod::lemma_fundamental_div_mod;
use crate::decimals::ratio;
use vstd::prelude::*;

verus! {

// Trends.

/// The trend coefficient lies between -1 and +1.
pub proof fn law_coefficient_bounded(s: Seq<Value>)
    requires
        s.len() <= 0x1_0000_0000,
    ensures
        kendalls_tau(s) matches Value::Finite { units } && -(units_per_one() as int) <= units
            <= units_per_one(),
{
    let c = pairs(s, true);
    let d = pairs(s, false);
    lemma_pairs_room(s, s.len() as int);
    lemma_pow2_pos(1074);
    if c + d > 0 {
        lemma_of_positive((c + d) as int);
        lemma_of_int_in_range((c + d) as int);
        if c >= d {
            lemma_ratio_in_range((c - d) as nat, c + d);
        } else {
            lemma_ratio_in_range((d - c) as nat, c + d);
            lemma_of_int_negated(d - c);
            lemma_of_int_in_range(d - c);
            lemma_of_positive(d - c);
        }
    }
}

/// Whether every later sample is larger (with `!up`, smaller) than every
/// earlier one.
pub open spec fn monotonic(s: Seq<Value>, up: bool) -> bool {
    forall|i: int, j: int| 0 <= i < j < s.len() ==> steps(#[trigger] s[i], #[trigger] s[j], up)
}

proof fn lemma_monotonic_steps(s: Seq<Value>, up: bool, i: int, j: int)
    requires
        monotonic(s, up),
        0 <= i < j <= s.len(),
    ensures
        steps_from(s, i, j, up) == j - i - 1,
        steps_from(s, i, j, !up) == 0,
    decreases j - i,
{
    if j > i + 1 {
        lemma_monotonic_steps(s, up, i, j - 1);
        assert(steps(s[i], s[j - 1], up));
    }
}

proof fn lemma_monotonic_pairs(s: Seq<Value>, up: bool, i: int)
    requires
        monotonic(s, up),
        0 <= i <= s.len(),
    ensures
        pairs_before(s, i, !up) == 0,
        i > 0 && s.len() >= 2 ==> pairs_before(s, i, up) > 0,
    decreases i,
{
    if i > 0 {
        lemma_monotonic_pairs(s, up, i - 1);
        lemma_monotonic_steps(s, up, i - 1, s.len() as int);
    }
}

/// Samples that only rise have the coefficient 1, and samples that only fall
/// have -1, whatever their values are.
pub proof fn law_monotonic_coefficient(s: Seq<Value>, up: bool)
    requires
        monotonic(s, up),
        2 <= s.len() <= 0x1_0000_0000,
    ensures
        kendalls_tau(s) == exactly(if up {
            1
        } else {
            -1
        }),
{
    lemma_monotonic_pairs(s, up, s.len() as int);
    lemma_pairs_room(s, s.len() as int);
    let n = pairs(s, up) as int;
    lemma_of_positive(n);
    lemma_of_int_in_range(n);
    lemma_of_int_negated(n);
    lemma_quotient_self(of_int(n)->units);
}

/// With enough samples, a rise throughout is classified as upward and a fall
/// throughout as downward, unless the threshold for that is -1 or less.
pub proof fn law_monotonic_direction(v: TrendView, up: bool)
    requires
        v.wf(),
        monotonic(v.samples, up),
        2 <= v.samples.len() <= 0x1_0000_0000,
        v.min_samples <= v.samples.len(),
        !up ==> less(exactly(-1), v.downward_threshold),
    ensures
        v.direction() == if up {
            TrendDirection::Upward
        } else {
            TrendDirection::Downward
        },
{
    law_monotonic_coefficient(v.samples, up);
    let p = pow2(1020);
    lemma_pow2_pos(1020);
    lemma2_to64_rest();
    lemma_pow2_adds(54, 1020);
    assert(decoded(TREND_UPWARD_THRESHOLD) == (Value::Finite {
        units: (0x19_9999_9999_999a * p) as int,
    }));
    let u = units_per_one() as int;
    assert(u == 0x40_0000_0000_0000 * p);
    assert(1 * u == u && (-1) * u == -u) by (nonlinear_arith);
    assert(v.tau() == (Value::Finite {
        units: if up {
            u
        } else {
            -u
        },
    }));
    assert(0x19_9999_9999_999a * p < u) by (nonlinear_arith)
        requires
            u == 0x40_0000_0000_0000 * p,
            p > 0,
    ;
}

/// Whether two series of samples rise and fall between the same positions.
pub open spec fn same_order(s: Seq<Value>, t: Seq<Value>) -> bool {
    s.len() == t.len() && forall|i: int, j: int, up: bool|
        0 <= i < j < s.len() ==> #[trigger] steps(s[i], s[j], up) == steps(t[i], t[j], up)
}

proof fn lemma_same_steps(s: Seq<Value>, t: Seq<Value>, up: bool, i: int, j: int)
    requires
        same_order(s, t),
        0 <= i < j <= s.len(),
    ensures
        steps_from(s, i, j, up) == steps_from(t, i, j, up),
    decreases j - i,
{
    if j > i + 1 {
        lemma_same_steps(s, t, up, i, j - 1);
        assert(steps(s[i], s[j - 1], up) == steps(t[i], t[j - 1], up));
    }
}

proof fn lemma_same_pairs(s: Seq<Value>, t: Seq<Value>, up: bool, i: int)
    requires
        same_order(s, t),
        0 <= i <= s.len(),
    ensures
        pairs_before(s, i, up) == pairs_before(t, i, up),
    decreases i,
{
    if i > 0 {
        lemma_same_pairs(s, t, up, i - 1);
        lemma_same_steps(s, t, up, i - 1, s.len() as int);
    }
}

/// The coefficient depends on the ranks of the samples alone: an outlier counts
/// no more than any other sample in its place.
pub proof fn law_coefficient_by_rank(s: Seq<Value>, t: Seq<Value>)
    requires
        same_order(s, t),
    ensures
        kendalls_tau(s) == kendalls_tau(t),
{
    lemma_same_pairs(s, t, true, s.len() as int);
    lemma_same_pairs(s, t, false, s.len() as int);
}

proof fn lemma_steps_shifted(s: Seq<Value>, up: bool, i: int, j: int)
    requires
        0 <= i < j < s.len(),
    ensures
        steps_from(s, i + 1, j + 1, up) == steps_from(s.drop_first(), i, j, up),
    decreases j - i,
{
    if j > i + 1 {
        lemma_steps_shifted(s, up, i, j - 1);
    }
}

proof fn lemma_pairs_shifted(s: Seq<Value>, up: bool, i: int)
    requires
        0 <= i < s.len(),
    ensures
        pairs_before(s, i + 1, up) == steps_from(s, 0, s.len() as int, up) + pairs_before(
            s.drop_first(),
            i,
            up,
        ),
    decreases i,
{
    if i > 0 {
        lemma_pairs_shifted(s, up, i - 1);
        lemma_steps_shifted(s, up, i - 1, s.len() - 1);
    } else {
        assert(pairs_before(s, 0, up) == 0);
    }
}

/// The number of the first `i` samples from which going to `x` is a step up (with
/// `!up`, down).
spec fn steps_into(s: Seq<Value>, x: Value, i: int, up: bool) -> nat
    decreases i,
{
    if i <= 0 {
        0
    } else {
        steps_into(s, x, i - 1, up) + if steps(s[i - 1], x, up) {
            1nat
        } else {
            0
        }
    }
}

proof fn lemma_steps_pushed(s: Seq<Value>, x: Value, up: bool, i: int, j: int)
    requires
        0 <= i < j <= s.len(),
    ensures
        steps_from(s.push(x), i, j, up) == steps_from(s, i, j, up),
    decreases j - i,
{
    if j > i + 1 {
        lemma_steps_pushed(s, x, up, i, j - 1);
    }
}

proof fn lemma_pairs_pushed(s: Seq<Value>, x: Value, up: bool, i: int)
    requires
        0 <= i <= s.len(),
    ensures
        pairs_before(s.push(x), i, up) == pairs_before(s, i, up) + steps_into(s, x, i, up),
    decreases i,
{
    if i > 0 {
        lemma_pairs_pushed(s, x, up, i - 1);
        lemma_steps_pushed(s, x, up, i - 1, s.len() as int);
    }
}

/// Going from the last `i` samples to the first one, in the reversed window.
proof fn lemma_steps_reversed(s: Seq<Value>, up: bool, i: int)
    requires
        0 <= i < s.len(),
    ensures
        steps_into(s.drop_first().reverse(), s[0], i, up) + steps_from(s, 0, s.len() - i, !up)
            == steps_from(s, 0, s.len() as int, !up),
    decreases i,
{
    if i > 0 {
        lemma_steps_reversed(s, up, i - 1);
        assert(s.drop_first().reverse()[i - 1] == s[s.len() - i]);
    }
}

proof fn lemma_pairs_reversed(s: Seq<Value>, up: bool)
    ensures
        pairs(s.reverse(), up) == pairs(s, !up),
    decreases s.len(),
{
    let n = s.len() as int;
    if n > 0 {
        let t = s.drop_first();
        lemma_pairs_reversed(t, up);
        assert(s.reverse() =~= t.reverse().push(s[0]));
        lemma_pairs_pushed(t.reverse(), s[0], up, n - 1);
        assert(steps_from(s.reverse(), n - 1, n, up) == 0);
        lemma_steps_reversed(s, up, n - 1);
        assert(steps_from(s, 0, 1, !up) == 0);
        lemma_pairs_shifted(s, !up, n - 1);
    }
}

proof fn lemma_steps_into_rest(s: Seq<Value>, x: Value, i: int, up: bool)
    requires
        0 <= i < s.len(),
    ensures
        steps_into(s, x, i, up) == steps_into(s.drop_last(), x, i, up),
    decreases i,
{
    if i > 0 {
        lemma_steps_into_rest(s, x, i - 1, up);
    }
}

proof fn lemma_steps_into_filtered(s: Seq<Value>, x: Value, up: bool)
    ensures
        steps_into(s, x, s.len() as int, up) == s.filter(
            |y: Value|
                if up {
                    less(y, x)
                } else {
                    less(x, y)
                },
        ).len(),
    decreases s.len(),
{
    reveal(Seq::filter);
    if s.len() > 0 {
        lemma_steps_into_filtered(s.drop_last(), x, up);
        lemma_steps_into_rest(s, x, s.len() - 1, up);
    }
}

/// How rising and falling pairs are counted: a further sample makes a rising pair
/// with every smaller sample before it, and a falling pair with every larger one.
pub proof fn law_pairs_counted(s: Seq<Value>, x: Value, up: bool)
    ensures
        pairs(Seq::empty(), up) == 0,
        pairs(s.push(x), up) == pairs(s, up) + s.filter(
            |y: Value|
                if up {
                    less(y, x)
                } else {
                    less(x, y)
                },
        ).len(),
{
    let n = s.len() as int;
    lemma_pairs_pushed(s, x, up, n);
    lemma_steps_into_filtered(s, x, up);
    assert(steps_from(s.push(x), n, n + 1, up) == 0);
}

/// The coefficient is the double nearest to the surplus of rising pairs over falling
/// ones as a share of both; zero where there are none.
pub proof fn law_coefficient_is_share(s: Seq<Value>)
    requires
        pairs(s, true) + pairs(s, false) <= 0x20_0000_0000_0000,
    ensures
        ({
            let p = pairs(s, true);
            let q = pairs(s, false);
            kendalls_tau(s) == if p + q == 0 {
                Value::Finite { units: 0 }
            } else {
                ratio(p - q, p + q)
            }
        }),
{
    let p = pairs(s, true);
    let q = pairs(s, false);
    let t = p + q;
    let d = p - q;
    let m = magnitude(d);
    let u = units_per_one();
    lemma_pow2_pos(1074);
    if t > 0 {
        lemma_exact_int(t);
        lemma_exact_int(m);
        lemma_of_positive(t as int);
        if d < 0 {
            lemma_of_int_negated(-d);
        }
        assert(magnitude(d * u) == m * u) by (nonlinear_arith)
            requires
                m == if d < 0 {
                    -d
                } else {
                    d
                },
                magnitude(d * u) == if d * u < 0 {
                    -(d * u)
                } else {
                    d * u
                },
                u > 0,
        ;
        assert(d * u < 0 <==> d < 0) by (nonlinear_arith)
            requires
                u > 0,
        ;
        let tu = (t * u) as nat;
        let x = ((m * u) * u) as nat;
        assert(tu > 0) by (nonlinear_arith)
            requires
                tu == t * u,
                t > 0,
                u > 0,
        ;
        assert((m * u) * tu == x * t) by (nonlinear_arith)
            requires
                tu == t * u,
                x == (m * u) * u,
        ;
        lemma_round_units_monotone(m * u, t, x, tu);
        lemma_round_units_monotone(x, tu, m * u, t);
    }
}

/// A window in reverse order has the negative coefficient.
pub proof fn law_reversed_window(s: Seq<Value>)
    requires
        s.len() <= 0x1_0000_0000,
    ensures
        kendalls_tau(s.reverse()) == negated(kendalls_tau(s)),
{
    lemma_pairs_reversed(s, true);
    lemma_pairs_reversed(s, false);
    lemma_pairs_room(s, s.len() as int);
    let d = pairs(s, true) - pairs(s, false);
    let t = (pairs(s, true) + pairs(s, false)) as int;
    if t > 0 {
        lemma_of_positive(t);
        lemma_of_int_in_range(t);
        if d > 0 {
            lemma_of_positive(d);
            lemma_of_int_in_range(d);
            lemma_of_int_negated(d);
        } else if d < 0 {
            lemma_of_positive(-d);
            lemma_of_int_in_range(-d);
            lemma_of_int_negated(-d);
        } else {
            lemma_of_int_in_range(0);
            lemma_zero();
            lemma_quotient_of_zero(of_int(t)->units);
        }
    }
}

proof fn lemma_steps_seen(s: Seq<Value>, up: bool, i: int, k: int, j: int)
    requires
        0 <= i < k < j <= s.len(),
        steps(s[i], s[k], up),
    ensures
        steps_from(s, i, j, up) > 0,
    decreases j,
{
    if j > k + 1 {
        lemma_steps_seen(s, up, i, k, j - 1);
    }
}

proof fn lemma_pair_seen(s: Seq<Value>, up: bool, i: int, k: int, j: int)
    requires
        0 <= i < k < s.len(),
        i < j <= s.len(),
        steps(s[i], s[k], up),
    ensures
        pairs_before(s, j, up) > 0,
    decreases j,
{
    if j > i + 1 {
        lemma_pair_seen(s, up, i, k, j - 1);
    } else {
        lemma_steps_seen(s, up, i, k, s.len() as int);
    }
}

proof fn lemma_no_steps(s: Seq<Value>, up: bool, i: int, j: int)
    requires
        0 <= i < j <= s.len(),
        forall|k: int| i < k < s.len() ==> !steps(s[i], #[trigger] s[k], up),
    ensures
        steps_from(s, i, j, up) == 0,
    decreases j,
{
    if j > i + 1 {
        lemma_no_steps(s, up, i, j - 1);
    }
}

proof fn lemma_no_pairs(s: Seq<Value>, up: bool, j: int)
    requires
        0 <= j <= s.len(),
        forall|i: int, k: int|
            0 <= i < k < s.len() ==> !steps(#[trigger] s[i], #[trigger] s[k], up),
    ensures
        pairs_before(s, j, up) == 0,
    decreases j,
{
    if j > 0 {
        lemma_no_pairs(s, up, j - 1);
        lemma_no_steps(s, up, j - 1, s.len() as int);
    }
}

/// Whether no later sample is smaller than an earlier one.
pub open spec fn never_falls(s: Seq<Value>) -> bool {
    forall|i: int, j: int| 0 <= i < j < s.len() ==> !less(#[trigger] s[j], #[trigger] s[i])
}

/// Whether all samples are equal.
pub open spec fn all_equal(s: Seq<Value>) -> bool {
    forall|i: int, j: int| 0 <= i < j < s.len() ==> #[trigger] s[i] == #[trigger] s[j]
}

/// The coefficient of numbers is 1 exactly if they never fall and are not all
/// equal. Ties do not count against it. (Of more than 2^53 rising and falling
/// pairs, a few falling ones are lost to rounding.)
pub proof fn law_coefficient_one(s: Seq<Value>)
    requires
        forall|i: int| 0 <= i < s.len() ==> #[trigger] s[i] is Finite,
        pairs(s, true) + pairs(s, false) <= 0x20_0000_0000_0000,
    ensures
        kendalls_tau(s) == exactly(1) <==> never_falls(s) && !all_equal(s),
{
    let n = s.len() as int;
    let p = pairs(s, true);
    let q = pairs(s, false);
    let u = units_per_one();
    lemma_pow2_pos(1074);
    assert(never_falls(s) <==> q == 0) by {
        if never_falls(s) {
            lemma_no_pairs(s, false, n);
        } else {
            let (i, j) = choose|i: int, j: int|
                0 <= i < j < s.len() && less(#[trigger] s[j], #[trigger] s[i]);
            lemma_pair_seen(s, false, i, j, n);
        }
    }
    if never_falls(s) {
        assert(all_equal(s) <==> p == 0) by {
            if all_equal(s) {
                lemma_no_pairs(s, true, n);
            } else {
                let (i, j) = choose|i: int, j: int|
                    0 <= i < j < s.len() && #[trigger] s[i] != #[trigger] s[j];
                lemma_pair_seen(s, true, i, j, n);
            }
        }
    }
    if p + q > 0 {
        let t = p + q;
        lemma_of_positive(t as int);
        lemma_of_int_in_range(t as int);
        if q == 0 {
            lemma_quotient_self(of_int(t as int)->units);
        } else if p > q {
            let d = (p - q) as nat;
            lemma_of_positive(d as int);
            lemma_of_int_in_range(d as int);
            lemma_exact_int(t);
            lemma_exact_int(d);
            lemma2_to64_rest();
            lemma_pow2_adds(53, 1021);
            lemma_pow2_pos(1021);
            let m = 0x1f_ffff_ffff_ffffnat;
            let den = t * u;
            let num = (d * u) * u;
            assert(num <= m * pow2(1021) * den) by (nonlinear_arith)
                requires
                    num == (d * u) * u,
                    den == t * u,
                    u == 0x20_0000_0000_0000 * pow2(1021),
                    d + 2 <= t <= 0x20_0000_0000_0000,
                    m == 0x1f_ffff_ffff_ffffnat,
            ;
            assert(den > 0) by (nonlinear_arith)
                requires
                    den == t * u,
                    t > 0,
                    u > 0,
            ;
            lemma_round_at_most(num, den, m, 1021);
        } else if p < q {
            lemma_of_positive(q - p);
            lemma_of_int_in_range(q - p);
            lemma_of_int_negated(q - p);
        } else {
            lemma_zero();
            lemma_quotient_of_zero(of_int(t as int)->units);
        }
    }
}

/// A number that is repeated within the collapse window is counted once.
pub proof fn law_repeats_collapse(v: TrendView, value: Value, first: Instant, second: Instant)
    requires
        value is Finite,
        elapsed(first, second) < TREND_COLLAPSE_WINDOW_NANOS,
        !v.collapses(value, first),
    ensures
        v.added(value, first).added(value, second) == v.added(value, first),
{
    lemma_difference_self(value);
    lemma_pow2_pos(970);
    assert(decoded(SAMPLE_EPSILON) == (Value::Finite {
        units: (0x10_0000_0000_0000 * pow2(970)) as int,
    }));
}

/// A number that does not repeat the last one too soon becomes the newest
/// sample. The others keep their order, and the oldest leaves a full window.
pub proof fn law_changes_are_kept(v: TrendView, value: Value, now: Instant)
    requires
        v.wf(),
        v.max_samples > 0,
        !v.collapses(value, now),
    ensures
        v.added(value, now).samples.last() == value,
        v.added(value, now).samples.len() == if v.samples.len() < v.max_samples {
            v.samples.len() + 1
        } else {
            v.max_samples
        },
        forall|i: int|
            0 <= i < v.added(value, now).samples.len() - 1 ==> #[trigger] v.added(
                value,
                now,
            ).samples[i] == v.samples[v.samples.len() - v.added(value, now).samples.len() + 1 + i],
{
}

proof fn lemma_largest(s: Seq<Value>)
    requires
        s.len() > 0,
        forall|i: int| 0 <= i < s.len() ==> !(#[trigger] s[i] is Nan),
    ensures
        largest(s) is Some,
        s.contains(largest(s)->0),
        forall|i: int| 0 <= i < s.len() ==> !less(largest(s)->0, #[trigger] s[i]),
    decreases s.len(),
{
    let rest = s.drop_last();
    assert(s.last() == s[s.len() - 1]);
    if rest.len() == 0 {
        assert(largest(rest) is None);
        assert(s.contains(s.last()));
    } else {
        assert forall|i: int| 0 <= i < rest.len() implies !(#[trigger] rest[i] is Nan) by {
            assert(rest[i] == s[i]);
        }
        lemma_largest(rest);
        let a = largest(rest)->0;
        let k = choose|k: int| 0 <= k < rest.len() && rest[k] == a;
        assert(s[k] == a);
        assert forall|i: int| 0 <= i < s.len() implies !less(largest(s)->0, #[trigger] s[i]) by {
            if i < rest.len() {
                assert(rest[i] == s[i]);
            }
        }
    }
}

proof fn lemma_smallest(s: Seq<Value>)
    requires
        s.len() > 0,
        forall|i: int| 0 <= i < s.len() ==> !(#[trigger] s[i] is Nan),
    ensures
        smallest(s) is Some,
        s.contains(smallest(s)->0),
        forall|i: int| 0 <= i < s.len() ==> !less(#[trigger] s[i], smallest(s)->0),
    decreases s.len(),
{
    let rest = s.drop_last();
    assert(s.last() == s[s.len() - 1]);
    if rest.len() == 0 {
        assert(smallest(rest) is None);
        assert(s.contains(s.last()));
    } else {
        assert forall|i: int| 0 <= i < rest.len() implies !(#[trigger] rest[i] is Nan) by {
            assert(rest[i] == s[i]);
        }
        lemma_smallest(rest);
        let a = smallest(rest)->0;
        let k = choose|k: int| 0 <= k < rest.len() && rest[k] == a;
        assert(s[k] == a);
        assert forall|i: int| 0 <= i < s.len() implies !less(#[trigger] s[i], smallest(s)->0) by {
            if i < rest.len() {
                assert(rest[i] == s[i]);
            }
        }
    }
}

/// The maximum and the minimum of a window of numbers are samples of it that no
/// other sample lies above or below.
pub proof fn law_extremes_bound_window(s: Seq<Value>)
    requires
        s.len() > 0,
        forall|i: int| 0 <= i < s.len() ==> !(#[trigger] s[i] is Nan),
    ensures
        largest(s) is Some && s.contains(largest(s)->0),
        smallest(s) is Some && s.contains(smallest(s)->0),
        forall|i: int|
            0 <= i < s.len() ==> !less(largest(s)->0, #[trigger] s[i]) && !less(
                s[i],
                smallest(s)->0,
            ),
{
    lemma_largest(s);
    lemma_smallest(s);
}

// Estimates.

/// How far rounding can take an estimate of about this size: one bit per second,
/// and more only for rates of 2^51 bits per second and up.
pub open spec fn rounding_slack(bps: int) -> int {
    1 + bps / 0x8_0000_0000_0000
}

pub proof fn lemma_cancel(x: int, y: int, u: int)
    by (nonlinear_arith)
    requires
        u > 0,
        x * u < (y + 1) * u,
    ensures
        x <= y,
{
}

/// The whole bits per second of a smoothed rate.
pub proof fn lemma_whole_bps(a: Value)
    requires
        in_range(a, 64),
    ensures
        truncated(a) * units_per_one() <= a->units <= (truncated(a) + 1) * units_per_one(),
        truncated(a) < u64::MAX ==> a->units < (truncated(a) + 1) * units_per_one(),
{
    let u = units_per_one() as int;
    let x = a->units;
    lemma_pow2_pos(1074);
    lemma_pow2_adds(1074, 64);
    lemma2_to64();
    if x <= 0 {
        assert(0 * u == 0 && (0 + 1) * u == u) by (nonlinear_arith);
    } else {
        lemma_fundamental_div_mod(x, u);
        let q = x / u;
        assert(q * u <= x < (q + 1) * u && q >= 0) by (nonlinear_arith)
            requires
                x == u * q + x % u,
                0 <= x % u < u,
                x > 0,
                u > 0,
        ;
        if q > u64::MAX {
            assert(u64::MAX * u <= q * u) by (nonlinear_arith)
                requires
                    q >= u64::MAX,
                    u > 0,
            ;
            assert((u64::MAX + 1) * u == pow2(1138)) by (nonlinear_arith)
                requires
                    pow2(1138) == u * 0x1_0000_0000_0000_0000,
            ;
        }
    }
}

/// After the first reading, an estimate lies between the last one and the rate
/// that was read, up to rounding.
pub proof fn law_estimate_between(v: EstimatorView, stats: TransportStats, now: Instant)
    requires
        v.wf(),
        v.initialized,
        stats.estimated_send_rate_bps != 0,
    ensures
        ({
            let last = truncated(v.baseline_bps) as int;
            let rate = stats.estimated_send_rate_bps as int;
            let high = if last < rate {
                rate
            } else {
                last
            };
            let low = if last < rate {
                last
            } else {
                rate
            };
            let bps = v.updated(stats, now).estimate(stats).bps;
            low - rounding_slack(low) <= bps <= high + rounding_slack(high)
        }),
{
    let c = 0x20_0000_0000_0000int;
    let u = units_per_one() as int;
    let rate = stats.estimated_send_rate_bps as int;
    let new = of_int(rate);
    let old = v.baseline_bps;
    let smoothed = v.smoothed(stats.estimated_send_rate_bps);
    let last = truncated(old) as int;
    let bps = truncated(smoothed) as int;
    let n = new->units;
    let o = old->units;
    let r = smoothed->units;
    lemma_pow2_pos(1074);
    lemma2_to64();
    lemma2_to64_rest();
    lemma_pow2_strictly_increases(60, 1074);
    lemma_pow2_adds(60, 60);
    lemma_pow2_strictly_increases(120, 1074);
    lemma_of_int_in_range(rate);
    lemma_blended_in_range(ESTIMATE_BASELINE_ALPHA, new, old, 64);
    lemma_blended_between(new, old);
    lemma_whole_bps(old);
    lemma_whole_bps(smoothed);
    let ru = rate * u;
    assert(ru >= 0) by (nonlinear_arith)
        requires
            ru == rate * u,
            rate >= 0,
            u > 0,
    ;
    lemma_round_units_close(ru as nat, 1);
    assert(n == round_units(ru as nat, 1));
    assert(c * n <= (c + 1) * ru + c);
    assert(c * n + c >= (c - 1) * ru);
    // Above the last estimate, or above the rate.
    if n < o {
        assert((c * bps) * u < ((c + 3) * (last + 1) + 1) * u) by (nonlinear_arith)
            requires
                bps * u <= r,
                c * r <= (c + 3) * o + 5 * c,
                o <= (last + 1) * u,
                u > 5 * c,
                c == 0x20_0000_0000_0000int,
        ;
        lemma_cancel(c * bps, (c + 3) * (last + 1), u);
        assert(bps <= last + rounding_slack(last));
    } else {
        assert((c * c * bps) * u < ((c + 3) * (c + 1) * rate + 1) * u) by (nonlinear_arith)
            requires
                bps * u <= r,
                c * r <= (c + 3) * n + 5 * c,
                c * n <= (c + 1) * ru + c,
                ru == rate * u,
                u > 7 * c * c,
                c == 0x20_0000_0000_0000int,
        ;
        lemma_cancel(c * c * bps, (c + 3) * (c + 1) * rate, u);
        assert(c * (c * (bps - rate)) <= c * (4 * rate) + 3 * rate) by (nonlinear_arith)
            requires
                c * c * bps <= (c + 3) * (c + 1) * rate,
        ;
        assert(bps <= rate + rounding_slack(rate));
    }
    // Below them.
    if bps < u64::MAX {
        if n < o {
            assert(((c - 3) * (c - 1) * rate) * u < (c * c * (bps + 1) + 1) * u)
                by (nonlinear_arith)
                requires
                    r < (bps + 1) * u,
                    c * r + 5 * c >= (c - 3) * n,
                    c * n + c >= (c - 1) * ru,
                    ru == rate * u,
                    u > 7 * c * c,
                    c == 0x20_0000_0000_0000int,
            ;
            lemma_cancel((c - 3) * (c - 1) * rate, c * c * (bps + 1), u);
            assert(c * (c * (rate - bps - 1)) <= c * (4 * rate) - 3 * rate) by (nonlinear_arith)
                requires
                    (c - 3) * (c - 1) * rate <= c * c * (bps + 1),
            ;
            assert(bps >= rate - rounding_slack(rate));
        } else {
            assert(((c - 3) * last) * u < (c * (bps + 1) + 1) * u) by (nonlinear_arith)
                requires
                    r < (bps + 1) * u,
                    c * r + 5 * c >= (c - 3) * o,
                    last * u <= o,
                    u > 5 * c,
                    c == 0x20_0000_0000_0000int,
            ;
            lemma_cancel((c - 3) * last, c * (bps + 1), u);
            assert(bps >= last - rounding_slack(last));
        }
    }
}

/// The loss rate follows a rise fast, by half of the way, and a fall slowly, by a
/// tenth. It stays between zero and one, and the coefficient of the trend between
/// -1 and +1.
pub proof fn law_estimate_in_range(v: EstimatorView, stats: TransportStats, now: Instant)
    requires
        v.wf(),
        v.accepts(stats),
        stats.estimated_send_rate_bps != 0,
    ensures
        ({
            let e = v.updated(stats, now).estimate(stats);
            let half = decoded(LOSS_ATTACK_ALPHA);
            let tenth = decoded(LOSS_DECAY_ALPHA);
            let lost = v.interval_loss(stats);
            &&& e.raw_bps == stats.estimated_send_rate_bps
            &&& in_range(e.loss_rate, 0)
            &&& less(v.loss_rate, lost) ==> e.loss_rate == sum(
                product(half, lost),
                product(half, v.loss_rate),
            )
            &&& !less(v.loss_rate, lost) ==> e.loss_rate == sum(
                product(tenth, lost),
                product(difference(decoded(ONE), tenth), v.loss_rate),
            )
            &&& e.trend_coefficient matches Value::Finite { units } && -(units_per_one() as int)
                <= units <= units_per_one()
        }),
{
    law_rates_stay_in_range(v, stats, now);
    lemma_weights(LOSS_ATTACK_ALPHA);
    law_coefficient_bounded(v.updated(stats, now).trend.samples);
}

// Probes.

/// A probe aims above the ceiling that it starts from, by at least the minimum
/// headroom.
pub proof fn law_probe_aims_higher(ceiling_bps: u64)
    ensures
        probe_target(ceiling_bps) >= ceiling_bps + PROBE_MIN_BPS,
{
}

/// The wait after a number of probes in a row that did not succeed.
pub open spec fn wait_after_failures(failures: nat) -> int
    decreases failures,
{
    if failures == 0 {
        PROBE_BASE_INTERVAL_NANOS as int
    } else {
        let doubled = 2 * wait_after_failures((failures - 1) as nat);
        if doubled < PROBE_MAX_INTERVAL_NANOS {
            doubled
        } else {
            PROBE_MAX_INTERVAL_NANOS as int
        }
    }
}

/// A probe that does not succeed doubles the wait, up to the maximum; one that
/// succeeds resets it. Either way no probe starts before the wait is over.
pub proof fn law_backoff(p: ProberView, now: Instant, rtt_us: u64, failures: nat)
    requires
        p.wf(),
        p.interval == wait_after_failures(failures),
        p.completes(now, rtt_us),
    ensures
        p.outcome() is Success ==> p.ticked(now, rtt_us).interval == wait_after_failures(0),
        !(p.outcome() is Success) ==> p.ticked(now, rtt_us).interval == wait_after_failures(
            failures + 1,
        ),
        forall|later: Instant|
            later.nanos < now.nanos + p.ticked(now, rtt_us).interval ==> !#[trigger] p.ticked(
                now,
                rtt_us,
            ).due(later),
{
}

/// The peak of a probe is the largest estimate seen while its traffic is sent.
pub proof fn law_peak_is_largest(p: ProberView, estimate_bps: u64)
    requires
        p.state == ProbeState::Active,
    ensures
        p.observed(estimate_bps).peak_bps >= p.peak_bps,
        p.observed(estimate_bps).peak_bps >= estimate_bps,
        p.observed(estimate_bps).peak_bps == p.peak_bps || p.observed(estimate_bps).peak_bps
            == estimate_bps,
{
}

/// The prober after it saw some estimates, one after the other.
pub open spec fn observed_all(p: ProberView, estimates: Seq<u64>) -> ProberView
    decreases estimates.len(),
{
    if estimates.len() == 0 {
        p
    } else {
        observed_all(p, estimates.drop_last()).observed(estimates.last())
    }
}

/// The largest of some estimates; zero where there are none.
pub open spec fn peak(estimates: Seq<u64>) -> u64
    decreases estimates.len(),
{
    if estimates.len() == 0 {
        0
    } else if estimates.last() > peak(estimates.drop_last()) {
        estimates.last()
    } else {
        peak(estimates.drop_last())
    }
}

/// The peak of a probe that has just started is the largest estimate that it saw.
pub proof fn law_peak_of_probe(p: ProberView, estimates: Seq<u64>)
    requires
        p.state == ProbeState::Active,
        p.peak_bps == 0,
    ensures
        observed_all(p, estimates) == (ProberView { peak_bps: peak(estimates), ..p }),
        forall|i: int| 0 <= i < estimates.len() ==> #[trigger] estimates[i] <= peak(estimates),
        estimates.len() > 0 ==> estimates.contains(peak(estimates)),
    decreases estimates.len(),
{
    if estimates.len() > 0 {
        let rest = estimates.drop_last();
        law_peak_of_probe(p, rest);
        assert forall|i: int| 0 <= i < estimates.len() implies #[trigger] estimates[i] <= peak(
            estimates,
        ) by {
            if i < rest.len() {
                assert(rest[i] == estimates[i]);
            }
        }
        assert(estimates.contains(estimates.last())) by {
            assert(estimates[estimates.len() - 1] == estimates.last());
        }
        if rest.len() > 0 {
            let i = choose|i: int| 0 <= i < rest.len() && rest[i] == peak(rest);
            assert(estimates[i] == peak(rest));
        }
    }
}

/// What a probe comes to, from its start to its end: it aims at the target for the
/// ceiling that it started from, and is judged by the largest estimate that it saw
/// and by whether congestion was detected meanwhile.
pub proof fn law_probe_result(
    p: ProberView,
    ceiling_bps: u64,
    start: Instant,
    estimates: Seq<u64>,
    congested: bool,
    now: Instant,
    rtt_us: u64,
)
    requires
        p.wf(),
        p.due(start),
        probe_target(ceiling_bps) <= u64::MAX,
        elapsed(start, now) >= probe_total_wait(rtt_us),
    ensures
        ({
            let seen = observed_all(p.started(ceiling_bps, start), estimates);
            let probe = if congested {
                seen.marked()
            } else {
                seen
            };
            &&& probe.completes(now, rtt_us)
            &&& probe.ticked(now, rtt_us).state == ProbeState::Idle
            &&& probe.outcome() == if congested {
                ProbeResult::Congested
            } else if peak(estimates) >= probe_target(ceiling_bps) {
                ProbeResult::Success { peak_estimate_bps: peak(estimates) }
            } else {
                ProbeResult::Failed
            }
        }),
{
    law_peak_of_probe(p.started(ceiling_bps, start), estimates);
}

/// How a probe ends. Congestion outweighs any peak, and without it the peak decides
/// by the goal. The next probe starts three seconds after a success, and later
/// after anything else. It starts with a clean slate.
pub proof fn law_probe_ends(p: ProberView, now: Instant, rtt_us: u64, later: Instant, ceiling: u64)
    requires
        p.wf(),
        p.completes(now, rtt_us),
    ensures
        p.congested ==> p.outcome() == ProbeResult::Congested,
        !p.congested && p.peak_bps >= p.goal_bps ==> p.outcome() == (ProbeResult::Success {
            peak_estimate_bps: p.peak_bps,
        }),
        !p.congested && p.peak_bps < p.goal_bps ==> p.outcome() == ProbeResult::Failed,
        p.ticked(now, rtt_us).state == ProbeState::Idle,
        p.outcome() is Success ==> (p.ticked(now, rtt_us).due(later) <==> later.nanos >= now.nanos
            + PROBE_BASE_INTERVAL_NANOS),
        !(p.outcome() is Success) && later.nanos <= now.nanos + PROBE_BASE_INTERVAL_NANOS
            ==> !p.ticked(now, rtt_us).due(later),
        p.ticked(now, rtt_us).due(later) ==> {
            let next = p.ticked(now, rtt_us).started(ceiling, later);
            next.peak_bps == 0 && !next.congested
        },
{
}

// Ceilings.

/// The ceiling lies between the floor for the target and the target.
pub open spec fn ceiling_in_bounds(v: AllocatorView) -> bool {
    ceiling_floor(v.target_bps) <= v.ceiling_bps <= v.target_bps
}

/// An allocator starts with its ceiling in bounds.
pub proof fn law_fresh_ceiling_in_bounds(target_bps: u64, now: Instant)
    ensures
        ceiling_in_bounds(AllocatorView::fresh(target_bps, now)),
{
    lemma_scaled_at_most(target_bps as int, MIN_CEILING_RATIO);
}

/// As long as the target is not changed, no estimate moves the ceiling above the
/// target or below the floor that keeps the stream from starving.
pub proof fn law_ceiling_stays_in_bounds(v: AllocatorView, e: EstimateView, now: Instant)
    requires
        v.wf(),
        ceiling_in_bounds(v),
    ensures
        ceiling_in_bounds(v.updated(e, now)),
{
    lemma_scaled_at_most(v.target_bps as int, MIN_CEILING_RATIO);
    lemma_scaled_at_most(v.ceiling_bps as int, COMMIT_THRESHOLD_RATIO);
    let w = v.probed(e, now);
    lemma_scaled_at_most(w.ceiling_bps as int, COMMIT_THRESHOLD_RATIO);
}

/// Without a downward trend and without loss above the trigger, no estimate
/// lowers the ceiling, however low it is itself: noise does not walk it down.
pub proof fn law_no_reduction_without_signal(v: AllocatorView, e: EstimateView, now: Instant)
    requires
        v.wf(),
        v.ceiling_bps <= v.target_bps,
        !allows_reduction(e),
    ensures
        v.updated(e, now).ceiling_bps >= v.ceiling_bps,
{
}

/// A deficient allocator that is shown no sign of congestion holds its ceiling
/// exactly, until the estimate reaches the target.
pub proof fn law_deficient_holds(v: AllocatorView, e: EstimateView, now: Instant)
    requires
        v.wf(),
        v.state == AllocatorState::Deficient,
        !allows_reduction(e),
        e.bps < v.target_bps,
    ensures
        v.updated(e, now).ceiling_bps == v.ceiling_bps,
        v.updated(e, now).state == AllocatorState::Deficient || v.updated(e, now).state
            == AllocatorState::Probing,
{
}

/// A ceiling is only lowered by a margin: the estimate then asks for less than
/// the commit threshold of the ceiling that it replaces.
pub proof fn law_reduction_by_margin(v: AllocatorView, e: EstimateView, now: Instant)
    requires
        v.wf(),
        v.ceiling_bps <= v.target_bps,
        v.updated(e, now).ceiling_bps < v.ceiling_bps,
    ensures
        allows_reduction(e),
        asked_bps(e, v.target_bps) < commit_threshold(v.probed(e, now).ceiling_bps),
        v.probed(e, now).ceiling_bps >= v.ceiling_bps,
{
}

/// An early warning holds the ceiling.
pub proof fn law_early_warning_holds(v: AllocatorView, e: EstimateView, now: Instant)
    requires
        v.wf(),
        v.updated(e, now).state == AllocatorState::EarlyWarning,
    ensures
        v.state == AllocatorState::EarlyWarning ==> v.updated(e, now).ceiling_bps == v.ceiling_bps,
        v.state == AllocatorState::Stable ==> v.updated(e, now).ceiling_bps == v.target_bps,
{
}

/// While probing, the publisher is asked for more than the committed ceiling,
/// by at least the minimum headroom.
pub proof fn law_probing_asks_for_more(v: AllocatorView)
    requires
        v.wf(),
        v.state == AllocatorState::Probing,
    ensures
        v.emitted_bps() >= v.ceiling_bps + PROBE_MIN_BPS,
{
}

/// Only a deficient allocator starts a probe, and a probe is left only with a
/// result: success goes on from the peak, anything else leaves the ceiling.
pub proof fn law_probe_lifecycle(v: AllocatorView, e: EstimateView, now: Instant)
    requires
        v.wf(),
    ensures
        v.decided(e, now).starts_probe(now) ==> v.decided(e, now).state
            == AllocatorState::Deficient && v.updated(e, now).state == AllocatorState::Probing,
        v.state == AllocatorState::Probing && !v.prober_informed(e).completes(now, e.rtt_us)
            ==> v.updated(e, now).state == AllocatorState::Probing && v.updated(e, now).ceiling_bps
            == v.ceiling_bps,
        v.state == AllocatorState::Probing && v.prober_informed(e).completes(now, e.rtt_us) && !(
        v.prober_informed(e).outcome() is Success) ==> v.probed(e, now).state
            == AllocatorState::Deficient && v.probed(e, now).ceiling_bps == v.ceiling_bps,
{
}

/// An allocator after some estimates, one after the other.
pub open spec fn updated_all(v: AllocatorView, es: Seq<(EstimateView, Instant)>) -> AllocatorView
    decreases es.len(),
{
    if es.len() == 0 {
        v
    } else {
        updated_all(v, es.drop_last()).updated(es.last().0, es.last().1)
    }
}

/// Whether none of some estimates shows a sign of congestion.
pub open spec fn without_congestion(es: Seq<(EstimateView, Instant)>) -> bool {
    forall|i: int| 0 <= i < es.len() ==> !allows_reduction((#[trigger] es[i]).0)
}

/// Whether no probe ends with any of some estimates.
pub open spec fn without_result(v: AllocatorView, es: Seq<(EstimateView, Instant)>) -> bool
    decreases es.len(),
{
    es.len() == 0 || {
        let (e, now) = es.last();
        &&& without_result(v, es.drop_last())
        &&& !updated_all(v, es.drop_last()).prober_informed(e).completes(now, e.rtt_us)
    }
}

/// However many estimates a deficient allocator sees, and however low they are:
/// without a sign of congestion and until a probe ends, its ceiling moves neither
/// down nor up, unless it recovers.
pub proof fn law_ceiling_does_not_drift(v: AllocatorView, es: Seq<(EstimateView, Instant)>)
    requires
        v.state == AllocatorState::Deficient,
        without_congestion(es),
        without_result(v, es),
    ensures
        updated_all(v, es).state == AllocatorState::Stable || updated_all(v, es).ceiling_bps
            == v.ceiling_bps,
        updated_all(v, es).state != AllocatorState::EarlyWarning,
    decreases es.len(),
{
    if es.len() > 0 {
        let rest = es.drop_last();
        assert(!allows_reduction(es[es.len() - 1].0));
        assert forall|i: int| 0 <= i < rest.len() implies !allows_reduction(
            (#[trigger] rest[i]).0,
        ) by {
            assert(rest[i] == es[i]);
        }
        law_ceiling_does_not_drift(v, rest);
        lemma_congestion_allows_reduction(es.last().0);
    }
}

/// What shows congestion also allows a reduction.
pub proof fn lemma_congestion_allows_reduction(e: EstimateView)
    ensures
        shows_congestion(e) ==> allows_reduction(e),
{
    lemma2_to64();
    lemma_pow2_adds(1, 1017);
    lemma_pow2_pos(1017);
    assert(decoded(LOSS_TRIGGER_RATIO) == (Value::Finite {
        units: (0x19_9999_9999_999a * pow2(1017)) as int,
    }));
    assert(decoded(LOSS_CONGESTION_RATIO) == (Value::Finite {
        units: (0x19_9999_9999_999a * pow2(1018)) as int,
    }));
}

/// What a decision says. It has the state of the allocator. While probing, it has
/// the target of the request that began the probe, well above the ceiling, which is
/// left alone; a request comes only with the update that begins to probe. In any
/// other state it has the ceiling.
pub proof fn law_decisions(v: AllocatorView, e: EstimateView, now: Instant, d: AllocatorDecision)
    requires
        v.wf(),
        v.accepts(e, now),
        v.announces(e, now, d),
    ensures
        d.state == v.updated(e, now).state,
        d.state != AllocatorState::Probing ==> d.ceiling_bps == v.updated(e, now).ceiling_bps
            && d.probe is None,
        d.state == AllocatorState::Probing ==> d.ceiling_bps >= v.updated(e, now).ceiling_bps
            + PROBE_MIN_BPS,
        d.state == AllocatorState::Probing && v.state == AllocatorState::Probing ==> d.probe is None
            && d.ceiling_bps == v.emitted_bps() && v.updated(e, now).ceiling_bps == v.ceiling_bps,
        d.state == AllocatorState::Probing && v.state != AllocatorState::Probing
            ==> d.probe is Some && d.ceiling_bps == (d.probe->0).target_bps,
{
}

/// An estimate at the target, with little loss and no downward trend, brings a
/// deficient allocator back to the full target.
pub proof fn law_recovery(v: AllocatorView, e: EstimateView, now: Instant)
    requires
        v.wf(),
        v.state == AllocatorState::Deficient,
        e.bps >= v.target_bps,
        less(e.loss_rate, decoded(LOSS_TRIGGER_RATIO)),
        e.trend != TrendDirection::Downward,
    ensures
        v.updated(e, now).state == AllocatorState::Stable,
        v.updated(e, now).ceiling_bps == v.target_bps,
{
}

/// Numbers that are not astronomical are accepted: a round-trip time of which
/// five fit into the range, and bitrates of at most half the range.
pub proof fn law_ordinary_estimates_accepted(v: AllocatorView, e: EstimateView, now: Instant)
    requires
        v.wf(),
        v.target_bps <= u64::MAX / 2,
        v.ceiling_bps <= u64::MAX / 2,
        e.rtt_us * PROBE_SETTLE_RTTS <= u64::MAX,
    ensures
        v.accepts(e, now),
        v.updated(e, now).ceiling_bps <= u64::MAX / 2,
{
    let w = v.probed(e, now);
    lemma_scaled_at_most(v.target_bps as int, MIN_CEILING_RATIO);
    lemma_scaled_at_most(v.ceiling_bps as int, COMMIT_THRESHOLD_RATIO);
    lemma_scaled_at_most(w.ceiling_bps as int, COMMIT_THRESHOLD_RATIO);
}

/// Readings that are not astronomical are accepted, and keep being so.
pub proof fn law_ordinary_readings_accepted(v: ControllerView, stats: TransportStats, now: Instant)
    requires
        v.wf(),
        v.allocator.target_bps <= u64::MAX / 2,
        v.allocator.ceiling_bps <= u64::MAX / 2,
        v.estimator.accepts(stats),
        stats.rtt_us * PROBE_SETTLE_RTTS <= u64::MAX,
    ensures
        v.accepts(stats, now),
        v.updated(stats, now).allocator.ceiling_bps <= u64::MAX / 2,
        v.updated(stats, now).allocator.target_bps == v.allocator.target_bps,
{
    law_ordinary_estimates_accepted(v.allocator, v.estimate(stats, now), now);
}

// Signals.

/// What is signalled, and when. A fresh controller counts as having signalled the
/// stable state and its target when it was created. During warmup nothing is
/// decided. After it, a signal comes exactly if the state or the ceiling differ from
/// what was signalled last, if a probe starts, or if the state is not stable and the
/// last signal is a second old; it has the state, the ceiling and the probe that
/// were decided on.
pub proof fn law_signals(
    v: ControllerView,
    stats: TransportStats,
    now: Instant,
    signal: BitrateSignal,
    target_bps: u64,
)
    requires
        v.signals(stats, now) ==> v.announces(stats, now, signal),
    ensures
        ControllerView::fresh(target_bps, now).last_emitted_state == AllocatorState::Stable,
        ControllerView::fresh(target_bps, now).last_emitted_ceiling == target_bps,
        ControllerView::fresh(target_bps, now).last_signal == now,
        elapsed(v.created, now) < WARMUP_DURATION_NANOS ==> !v.signals(stats, now) && v.updated(
            stats,
            now,
        ).allocator == v.allocator,
        elapsed(v.created, now) >= WARMUP_DURATION_NANOS ==> {
            let decided = v.allocator.updated(v.estimate(stats, now), now);
            let after = v.updated(stats, now);
            &&& after.allocator == decided
            &&& v.signals(stats, now) <==> {
                ||| decided.state != v.last_emitted_state
                ||| decided.emitted_bps() != v.last_emitted_ceiling
                ||| v.starts_probe(stats, now)
                ||| decided.state != AllocatorState::Stable && elapsed(v.last_signal, now)
                    >= MIN_SIGNAL_INTERVAL_NANOS
            }
            &&& v.signals(stats, now) ==> {
                &&& signal.state == decided.state
                &&& signal.ceiling_bps == decided.emitted_bps()
                &&& signal.probe is Some == v.starts_probe(stats, now)
                &&& after.last_emitted_state == decided.state
                &&& after.last_emitted_ceiling == decided.emitted_bps()
                &&& after.last_signal == now
            }
        },
        !v.signals(stats, now) ==> {
            let after = v.updated(stats, now);
            &&& after.last_emitted_state == v.last_emitted_state
            &&& after.last_emitted_ceiling == v.last_emitted_ceiling
            &&& after.last_signal == v.last_signal
        },
{
}

/// A stable controller whose ceiling does not move never signals again.
pub proof fn law_stable_is_silent(v: ControllerView, stats: TransportStats, now: Instant)
    requires
        v.last_emitted_state == AllocatorState::Stable,
        v.updated(stats, now).allocator.state == AllocatorState::Stable,
        v.updated(stats, now).allocator.ceiling_bps == v.last_emitted_ceiling,
    ensures
        !v.signals(stats, now),
{
}

/// Nothing is signalled and nothing decided during warmup.
pub proof fn law_warmup_is_silent(v: ControllerView, stats: TransportStats, now: Instant)
    requires
        v.warming_up(now),
    ensures
        !v.signals(stats, now),
        v.updated(stats, now).allocator == v.allocator,
{
}

/// After warmup the publisher always knows the current state and ceiling: what
/// is not signalled has not changed since the last signal.
pub proof fn law_publisher_is_informed(v: ControllerView, stats: TransportStats, now: Instant)
    requires
        !v.warming_up(now),
    ensures
        v.updated(stats, now).last_emitted_state == v.updated(stats, now).allocator.state,
        v.updated(stats, now).last_emitted_ceiling == v.updated(
            stats,
            now,
        ).allocator.emitted_bps(),
{
}

/// A state other than stable is signalled again once the signal interval is over.
pub proof fn law_unstable_is_refreshed(v: ControllerView, stats: TransportStats, now: Instant)
    requires
        !v.warming_up(now),
        v.updated(stats, now).allocator.state != AllocatorState::Stable,
        elapsed(v.last_signal, now) >= MIN_SIGNAL_INTERVAL_NANOS,
    ensures
        v.signals(stats, now),
{
}

/// A reading without a rate leaves the estimates as they are.
pub proof fn law_empty_reading_is_skipped(v: ControllerView, stats: TransportStats, now: Instant)
    requires
        stats.estimated_send_rate_bps == 0,
    ensures
        v.updated(stats, now).estimator == v.estimator,
{
}

} // verus!
