//! Fractions as doubles, and what the fractional constants stand for.

use crate::config::{
    COMMIT_THRESHOLD_RATIO, EIGHT, ESTIMATE_BASELINE_ALPHA, KEYFRAME_LOSS_RATIO, LOSS_ATTACK_ALPHA,
    LOSS_ATTENUATOR, LOSS_CLEAR_RATIO, LOSS_CONGESTION_RATIO, LOSS_DECAY_ALPHA, LOSS_FACTOR_FLOOR,
    LOSS_TRIGGER_RATIO, MIN_CEILING_RATIO, MIN_THROUGHPUT_SECONDS, ONE, TREND_DOWNWARD_PROBE,
    TREND_DOWNWARD_THRESHOLD, TREND_UPWARD_THRESHOLD,
};
use crate::rounding::{
    lemma_nearest_even_bounds, lemma_nearest_even_scale, lemma_spacing_unique, nearest_even,
    units_per_one,
};
use crate::value::{decoded, rounded, Value};
use vstd::arithmetic::div_mod::lemma_fundamental_div_mod;
use vstd::arithmetic::power2::{
    lemma2_to64, lemma2_to64_rest, lemma_pow2_adds, lemma_pow2_pos, lemma_pow2_strictly_increases,
    pow2,
};
use vstd::prelude::*;

verus! {

/// The double nearest to a fraction.
pub open spec fn ratio(num: int, den: nat) -> Value {
    rounded(num * units_per_one(), den)
}

/// The double nearest to a fraction that lies between two to the power of `52 - d`
/// and `53 - d`.
proof fn lemma_ratio(num: nat, den: nat, d: nat, n: nat)
    requires
        den > 0,
        num > 0,
        d <= 64,
        0x10_0000_0000_0000 * den <= num * pow2(d) < 0x20_0000_0000_0000 * den,
        nearest_even((num * pow2(d)) as int, den as int) == n,
    ensures
        ratio(num as int, den) == (Value::Finite { units: (n * pow2((1074 - d) as nat)) as int }),
        ratio(-(num as int), den) == (Value::Finite {
            units: -((n * pow2((1074 - d) as nat)) as int),
        }),
{
    let s = (1074 - d) as nat;
    let p = pow2(s);
    let u = units_per_one();
    let x = num * u;
    let m = num * pow2(d);
    lemma_pow2_pos(s);
    lemma_pow2_pos(d);
    lemma_pow2_pos(1074);
    lemma_pow2_adds(d, s);
    lemma2_to64();
    lemma2_to64_rest();
    lemma_pow2_adds(52, s);
    lemma_pow2_adds(53, s);
    assert(x == m * p) by (nonlinear_arith)
        requires
            x == num * u,
            m == num * pow2(d),
            u == pow2(d) * p,
    ;
    let q = x / den;
    lemma_fundamental_div_mod(x as int, den as int);
    assert(0x10_0000_0000_0000 * p * den <= x < 0x20_0000_0000_0000 * p * den) by (nonlinear_arith)
        requires
            x == m * p,
            0x10_0000_0000_0000 * den <= m < 0x20_0000_0000_0000 * den,
            p > 0,
    ;
    assert(0x10_0000_0000_0000 * p <= q < 0x20_0000_0000_0000 * p) by (nonlinear_arith)
        requires
            0x10_0000_0000_0000 * p * den <= x < 0x20_0000_0000_0000 * p * den,
            x == den * q + x % den,
            0 <= x % den < den,
            den > 0,
    ;
    lemma_spacing_unique(q, s);
    lemma_nearest_even_scale(m as int, den as int, p as int);
    lemma_nearest_even_bounds(m as int, den as int);
    assert(n <= 0x20_0000_0000_0000) by {
        if n > 0x20_0000_0000_0000 {
            assert(n * den >= 0x20_0000_0000_0000 * den + den) by (nonlinear_arith)
                requires
                    n >= 0x20_0000_0000_0001,
                    den > 0,
            ;
        }
    }
    assert(n * p <= 0x20_0000_0000_0000 * p) by (nonlinear_arith)
        requires
            n <= 0x20_0000_0000_0000,
    ;
    lemma_pow2_strictly_increases(53 + s, 2098);
    assert(x > 0) by (nonlinear_arith)
        requires
            x == num * u,
            num > 0,
            u > 0,
    ;
    assert((-(num as int)) * u == -(x as int)) by (nonlinear_arith)
        requires
            x == num * u,
    ;
}

/// Every fractional constant is the double nearest to its decimal fraction.
pub proof fn law_fractions()
    ensures
        decoded(TREND_DOWNWARD_THRESHOLD) == ratio(-6, 10),
        decoded(TREND_DOWNWARD_PROBE) == (Value::Finite { units: 0 }),
        decoded(TREND_UPWARD_THRESHOLD) == ratio(4, 10),
        decoded(ESTIMATE_BASELINE_ALPHA) == ratio(1, 10),
        decoded(LOSS_ATTACK_ALPHA) == ratio(1, 2),
        decoded(LOSS_DECAY_ALPHA) == ratio(1, 10),
        decoded(COMMIT_THRESHOLD_RATIO) == ratio(95, 100),
        decoded(LOSS_TRIGGER_RATIO) == ratio(5, 100),
        decoded(LOSS_CONGESTION_RATIO) == ratio(10, 100),
        decoded(LOSS_CLEAR_RATIO) == ratio(25, 1000),
        decoded(LOSS_ATTENUATOR) == ratio(3, 2),
        decoded(LOSS_FACTOR_FLOOR) == ratio(2, 10),
        decoded(MIN_CEILING_RATIO) == ratio(2, 10),
        decoded(MIN_THROUGHPUT_SECONDS) == ratio(1, 1000),
        decoded(KEYFRAME_LOSS_RATIO) == ratio(5, 100),
        decoded(ONE) == ratio(1, 1),
        decoded(EIGHT) == ratio(8, 1),
{
    lemma2_to64();
    lemma2_to64_rest();
    lemma_ratio(6, 10, 53, 0x13_3333_3333_3333);
    lemma_ratio(4, 10, 54, 0x19_9999_9999_999a);
    lemma_ratio(1, 10, 56, 0x19_9999_9999_999a);
    lemma_ratio(1, 2, 53, 0x10_0000_0000_0000);
    lemma_ratio(95, 100, 53, 0x1e_6666_6666_6666);
    lemma_ratio(5, 100, 57, 0x19_9999_9999_999a);
    lemma_ratio(10, 100, 56, 0x19_9999_9999_999a);
    lemma_ratio(25, 1000, 58, 0x19_9999_9999_999a);
    lemma_ratio(3, 2, 52, 0x18_0000_0000_0000);
    lemma_ratio(2, 10, 55, 0x19_9999_9999_999a);
    lemma_ratio(1, 1000, 62, 0x10_624d_d2f1_a9fc);
    lemma_ratio(1, 1, 52, 0x10_0000_0000_0000);
    lemma_ratio(8, 1, 49, 0x10_0000_0000_0000);
}

} // verus!
