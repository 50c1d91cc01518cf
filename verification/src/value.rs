//! What double-precision arithmetic computes, as mathematics.
//!
//! An operation on finite numbers is the exact result, rounded once to the
//! nearest double, ties to even. A zero has no sign here: nothing in this crate
//! divides by zero or looks at the sign of one.

use crate::config::{
    COMMIT_THRESHOLD_RATIO, ESTIMATE_BASELINE_ALPHA, LOSS_ATTACK_ALPHA, LOSS_DECAY_ALPHA,
    MIN_CEILING_RATIO, ONE,
};
use crate::rounding::{
    lemma_nearest_even_bounds, lemma_nearest_even_scale, lemma_round_units_close,
    lemma_round_units_error, lemma_round_units_exact, lemma_round_units_monotone,
    lemma_spacing_unique, nearest_even, overflow_units, round_units, units_per_one,
};
use vstd::arithmetic::div_mod::{lemma_div_by_multiple, lemma_div_is_ordered};
use vstd::arithmetic::power2::{
    lemma2_to64, lemma2_to64_rest, lemma_pow2_adds, lemma_pow2_pos, lemma_pow2_strictly_increases,
    pow2,
};
use vstd::prelude::*;

verus! {

/// The number that a double stands for. A finite one is counted in the smallest
/// positive double, two to the power of -1074.
pub enum Value {
    Nan,
    Infinite { negative: bool },
    Finite { units: int },
}

/// The magnitude of an integer.
pub open spec fn magnitude(x: int) -> nat {
    if x < 0 {
        (-x) as nat
    } else {
        x as nat
    }
}

/// An integer of the given magnitude and sign.
pub open spec fn with_sign(negative: bool, m: nat) -> int {
    if negative {
        -(m as int)
    } else {
        m as int
    }
}

/// The units that the bits of a finite, non-negative double stand for.
pub open spec fn magnitude_units(b: nat) -> nat {
    let exponent = b / 0x10_0000_0000_0000;
    let fraction = b % 0x10_0000_0000_0000;
    if exponent == 0 {
        fraction
    } else {
        (0x10_0000_0000_0000 + fraction) * pow2((exponent - 1) as nat)
    }
}

/// The number that the bits of a double stand for.
pub open spec fn decoded(bits: u64) -> Value {
    let negative = bits >= 0x8000_0000_0000_0000;
    let b = (bits % 0x8000_0000_0000_0000) as nat;
    if b > 0x7ff0_0000_0000_0000 {
        Value::Nan
    } else if b == 0x7ff0_0000_0000_0000 {
        Value::Infinite { negative }
    } else {
        Value::Finite { units: with_sign(negative, magnitude_units(b)) }
    }
}

/// The double nearest to `num / den` units, or an infinity where that is too
/// large.
pub open spec fn rounded(num: int, den: nat) -> Value {
    rounded_magnitude(num < 0, magnitude(num), den)
}

/// The double nearest to `num / den` units, with the given sign.
pub open spec fn rounded_magnitude(negative: bool, num: nat, den: nat) -> Value {
    let m = round_units(num, den);
    if m >= overflow_units() {
        Value::Infinite { negative }
    } else {
        Value::Finite { units: with_sign(negative, m) }
    }
}

/// The double nearest to an integer.
pub open spec fn of_int(n: int) -> Value {
    rounded(n * units_per_one(), 1)
}

/// An integer that is itself a double.
pub open spec fn exactly(n: int) -> Value {
    Value::Finite { units: n * units_per_one() }
}

/// `-a`.
pub open spec fn negated(a: Value) -> Value {
    match a {
        Value::Nan => Value::Nan,
        Value::Infinite { negative } => Value::Infinite { negative: !negative },
        Value::Finite { units } => Value::Finite { units: -units },
    }
}

/// The absolute value of `a`.
pub open spec fn absolute(a: Value) -> Value {
    match a {
        Value::Nan => Value::Nan,
        Value::Infinite { negative } => Value::Infinite { negative: false },
        Value::Finite { units } => Value::Finite { units: magnitude(units) as int },
    }
}

/// `a + b`.
pub open spec fn sum(a: Value, b: Value) -> Value {
    match (a, b) {
        (Value::Finite { units: x }, Value::Finite { units: y }) => rounded(x + y, 1),
        (Value::Nan, _) => Value::Nan,
        (_, Value::Nan) => Value::Nan,
        (Value::Infinite { negative: s }, Value::Infinite { negative: t }) => if s == t {
            a
        } else {
            Value::Nan
        },
        (Value::Infinite { .. }, Value::Finite { .. }) => a,
        (Value::Finite { .. }, Value::Infinite { .. }) => b,
    }
}

/// `a - b`.
pub open spec fn difference(a: Value, b: Value) -> Value {
    sum(a, negated(b))
}

/// Whether `a` lies below zero.
pub open spec fn is_negative(a: Value) -> bool {
    match a {
        Value::Nan => false,
        Value::Infinite { negative } => negative,
        Value::Finite { units } => units < 0,
    }
}

/// `a * b`.
pub open spec fn product(a: Value, b: Value) -> Value {
    let negative = is_negative(a) != is_negative(b);
    match (a, b) {
        (Value::Finite { units: x }, Value::Finite { units: y }) => rounded_magnitude(
            negative,
            magnitude(x) * magnitude(y),
            units_per_one(),
        ),
        (Value::Nan, _) => Value::Nan,
        (_, Value::Nan) => Value::Nan,
        (Value::Infinite { .. }, Value::Infinite { .. }) => Value::Infinite { negative },
        (Value::Infinite { .. }, Value::Finite { units }) => if units == 0 {
            Value::Nan
        } else {
            Value::Infinite { negative }
        },
        (Value::Finite { units }, Value::Infinite { .. }) => if units == 0 {
            Value::Nan
        } else {
            Value::Infinite { negative }
        },
    }
}

/// `a / b`, for a `b` that is not zero.
pub open spec fn quotient(a: Value, b: Value) -> Value
    recommends
        b != (Value::Finite { units: 0 }),
{
    let negative = is_negative(a) != is_negative(b);
    match (a, b) {
        (Value::Finite { units: x }, Value::Finite { units: y }) => rounded_magnitude(
            negative,
            magnitude(x) * units_per_one(),
            magnitude(y),
        ),
        (Value::Nan, _) => Value::Nan,
        (_, Value::Nan) => Value::Nan,
        (Value::Infinite { .. }, Value::Infinite { .. }) => Value::Nan,
        (Value::Infinite { .. }, Value::Finite { .. }) => Value::Infinite { negative },
        (Value::Finite { .. }, Value::Infinite { .. }) => Value::Finite { units: 0 },
    }
}

/// `a < b`.
pub open spec fn less(a: Value, b: Value) -> bool {
    match (a, b) {
        (Value::Finite { units: x }, Value::Finite { units: y }) => x < y,
        (Value::Nan, _) => false,
        (_, Value::Nan) => false,
        (Value::Infinite { negative: s }, Value::Infinite { negative: t }) => s && !t,
        (Value::Infinite { negative }, Value::Finite { .. }) => negative,
        (Value::Finite { .. }, Value::Infinite { negative }) => !negative,
    }
}

/// The larger of two numbers; where one is not a number, the other.
pub open spec fn larger(a: Value, b: Value) -> Value {
    if a is Nan || less(a, b) {
        b
    } else {
        a
    }
}

/// The smaller of two numbers; where one is not a number, the other.
pub open spec fn smaller(a: Value, b: Value) -> Value {
    if a is Nan || less(b, a) {
        b
    } else {
        a
    }
}

/// The integer part of `a`, brought into the range of a `u64`; zero for what is
/// not a number.
pub open spec fn truncated(a: Value) -> u64 {
    match a {
        Value::Nan => 0,
        Value::Infinite { negative } => if negative {
            0
        } else {
            u64::MAX
        },
        Value::Finite { units } => if units <= 0 {
            0
        } else if units / (units_per_one() as int) > u64::MAX {
            u64::MAX
        } else {
            (units / (units_per_one() as int)) as u64
        },
    }
}

/// A positive integer is not rounded to zero.
pub proof fn lemma_of_positive(n: int)
    requires
        n > 0,
    ensures
        !(of_int(n) is Nan),
        less(Value::Finite { units: 0 }, of_int(n)),
{
    let u = units_per_one();
    lemma_pow2_pos(1074);
    lemma_pow2_pos(2098);
    lemma2_to64();
    assert(n * u >= u) by (nonlinear_arith)
        requires
            n > 0,
            u > 0,
    ;
    lemma_round_units_exact(1, 1074, 1);
    assert(1 * pow2(1074) * 1 == u);
    lemma_round_units_monotone(u, 1, magnitude(n * u), 1);
}

/// Rounding `n` times a power of two, where `n` has `j` bits too many.
pub proof fn lemma_round_shifted(n: nat, k: nat, j: nat)
    requires
        0x10_0000_0000_0000 * pow2(j) <= n < 0x20_0000_0000_0000 * pow2(j),
    ensures
        round_units(n * pow2(k), 1) == nearest_even(n as int, pow2(j) as int) * pow2(k + j),
{
    let u = n * pow2(k);
    lemma_pow2_pos(k);
    lemma_pow2_pos(j);
    lemma_pow2_pos(k + j);
    lemma_pow2_adds(k, j);
    lemma_pow2_adds(53, k + j);
    lemma_pow2_adds(52, k + j);
    lemma2_to64_rest();
    lemma2_to64();
    let p = pow2(k + j);
    assert(u < 0x20_0000_0000_0000 * p) by (nonlinear_arith)
        requires
            u == n * pow2(k),
            n < 0x20_0000_0000_0000 * pow2(j),
            p == pow2(k) * pow2(j),
            pow2(k) > 0,
    ;
    assert(u >= 0x10_0000_0000_0000 * p) by (nonlinear_arith)
        requires
            u == n * pow2(k),
            n >= 0x10_0000_0000_0000 * pow2(j),
            p == pow2(k) * pow2(j),
    ;
    lemma_spacing_unique(u, k + j);
    assert(u / 1 == u);
    lemma_nearest_even_scale(n as int, pow2(j) as int, pow2(k) as int);
    assert(pow2(j) * pow2(k) == p) by (nonlinear_arith)
        requires
            p == pow2(k) * pow2(j),
    ;
    assert(1 * p == p);
    lemma_nearest_even_bounds(n as int, pow2(j) as int);
    assert(nearest_even(n as int, pow2(j) as int) * p >= 0) by (nonlinear_arith)
        requires
            nearest_even(n as int, pow2(j) as int) >= 0,
            p > 0,
    ;
}

/// What is no larger than a double is not rounded past it.
pub proof fn lemma_round_at_most(num: nat, den: nat, n: nat, k: nat)
    requires
        den > 0,
        n <= 0x20_0000_0000_0000,
        num <= n * pow2(k) * den,
        k <= 2000,
    ensures
        round_units(num, den) <= n * pow2(k),
        round_units(num, den) < overflow_units(),
{
    lemma_round_units_exact(n, k, den);
    let m = n * pow2(k) * den;
    assert(num * den <= m * den) by (nonlinear_arith)
        requires
            num <= m,
    ;
    lemma_round_units_monotone(num, den, m, den);
    lemma2_to64_rest();
    lemma_pow2_adds(53, k);
    lemma_pow2_strictly_increases(53 + k, 2098);
    assert(n * pow2(k) <= pow2(53 + k)) by (nonlinear_arith)
        requires
            n <= 0x20_0000_0000_0000,
            pow2(53 + k) == 0x20_0000_0000_0000 * pow2(k),
    ;
}

/// Whether `a` lies between zero and two to the power of `e`.
pub open spec fn in_range(a: Value, e: nat) -> bool {
    a matches Value::Finite { units } && 0 <= units <= pow2(1074 + e)
}

/// A product is no larger than the product of what bounds the factors, if that
/// is a double.
pub proof fn lemma_product_at_most(a: Value, x: Value, n: nat, k: nat, e: nat)
    requires
        a matches Value::Finite { units } && 0 <= units <= n * pow2(k),
        in_range(x, e),
        n <= 0x20_0000_0000_0000,
        k + e <= 2000,
    ensures
        product(a, x) matches Value::Finite { units } && 0 <= units <= n * pow2(k + e),
{
    let u = units_per_one();
    lemma_pow2_pos(1074);
    lemma_pow2_adds(1074, e);
    lemma_pow2_adds(k, e);
    let y = a->units;
    let z = x->units;
    assert(y * z <= n * pow2(k + e) * u) by (nonlinear_arith)
        requires
            0 <= y <= n * pow2(k),
            0 <= z <= u * pow2(e),
            pow2(k + e) == pow2(k) * pow2(e),
    ;
    lemma_round_at_most(magnitude(y) * magnitude(z), u, n, k + e);
}

/// A weighted mean of two numbers, as double-precision arithmetic computes it.
pub open spec fn blended(alpha: Value, new: Value, old: Value) -> Value {
    sum(product(alpha, new), product(difference(decoded(ONE), alpha), old))
}

/// Rounding makes no weighted mean leave the range of the numbers it is taken of.
pub proof fn lemma_blended_in_range(alpha: u64, new: Value, old: Value, e: nat)
    requires
        alpha == LOSS_ATTACK_ALPHA || alpha == LOSS_DECAY_ALPHA || alpha
            == ESTIMATE_BASELINE_ALPHA,
        in_range(new, e),
        in_range(old, e),
        e <= 64,
    ensures
        in_range(blended(decoded(alpha), new, old), e),
{
    let (n, k, m, j): (nat, nat, nat, nat) = if alpha == LOSS_ATTACK_ALPHA {
        (0x10_0000_0000_0000, 1021, 0x10_0000_0000_0000, 1021)
    } else {
        (0x19_9999_9999_999a, 1018, 0x1c_cccc_cccc_cccd, 1021)
    };
    lemma_weights(alpha);
    let rest = difference(decoded(ONE), decoded(alpha));
    lemma_pow2_pos(k);
    lemma_pow2_pos(j);
    lemma_product_at_most(decoded(alpha), new, n, k, e);
    lemma_product_at_most(rest, old, m, j, e);
    let x = product(decoded(alpha), new)->units;
    let y = product(rest, old)->units;
    let bound = n * pow2(k + e) + m * pow2(j + e);
    // The bound itself rounds to two to the power of `e`.
    assert(round_units(bound, 1) == pow2(1074 + e)) by {
        lemma2_to64();
        lemma2_to64_rest();
        lemma_pow2_adds(52, 1022 + e);
        if alpha == LOSS_ATTACK_ALPHA {
            lemma_pow2_adds(1, 1021 + e);
            assert(bound == 0x10_0000_0000_0000 * pow2(1022 + e));
            lemma_round_units_exact(0x10_0000_0000_0000, 1022 + e, 1);
        } else {
            lemma_pow2_adds(3, 1018 + e);
            let t = 0x100_0000_0000_0002nat;
            assert(bound == t * pow2(1018 + e)) by (nonlinear_arith)
                requires
                    bound == 0x19_9999_9999_999anat * pow2(1018 + e) + 0x1c_cccc_cccc_cccdnat * (8
                        * pow2(1018 + e)),
                    t == 0x100_0000_0000_0002nat,
            ;
            lemma_round_shifted(t, 1018 + e, 4);
            assert(nearest_even(t as int, 16) == 0x10_0000_0000_0000);
        }
    }
    lemma_round_units_monotone(magnitude(x + y), 1, bound, 1);
    lemma_pow2_strictly_increases(1074 + e, 2098);
}

/// A number that is smoothed stays between the last one and the new one, up to
/// three parts in 2^53 and a few units.
pub proof fn lemma_blended_between(new: Value, old: Value)
    requires
        in_range(new, 64),
        in_range(old, 64),
    ensures
        ({
            let r = blended(decoded(ESTIMATE_BASELINE_ALPHA), new, old)->units;
            let high = if new->units < old->units {
                old->units
            } else {
                new->units
            };
            let low = if new->units < old->units {
                new->units
            } else {
                old->units
            };
            &&& 0x20_0000_0000_0000 * r <= 0x20_0000_0000_0003 * high + 0xa0_0000_0000_0000
            &&& 0x20_0000_0000_0000 * r + 0xa0_0000_0000_0000 >= 0x1f_ffff_ffff_fffd * low
        }),
{
    let alpha = ESTIMATE_BASELINE_ALPHA;
    let u = units_per_one();
    let p = pow2(1018);
    lemma_pow2_pos(1018);
    lemma_pow2_pos(1021);
    lemma2_to64();
    lemma2_to64_rest();
    lemma_pow2_adds(3, 1018);
    lemma_pow2_adds(56, 1018);
    lemma_weights(alpha);
    lemma_blended_in_range(alpha, new, old, 64);
    let a = (0x19_9999_9999_999a * p) as nat;
    let c = (0x1c_cccc_cccc_cccd * pow2(1021)) as nat;
    lemma_product_at_most(decoded(alpha), new, 0x19_9999_9999_999a, 1018, 64);
    lemma_product_at_most(
        difference(decoded(ONE), decoded(alpha)),
        old,
        0x1c_cccc_cccc_cccd,
        1021,
        64,
    );
    let n = new->units as nat;
    let o = old->units as nat;
    let x = round_units(a * n, u);
    let y = round_units(c * o, u);
    let z = x + y;
    let r = round_units(z, 1);
    assert(blended(decoded(alpha), new, old) == (Value::Finite { units: r as int }));
    lemma_round_units_close(a * n, u);
    lemma_round_units_close(c * o, u);
    lemma_round_units_close(z, 1);
    let high = if n < o {
        o
    } else {
        n
    };
    let low = if n < o {
        n
    } else {
        o
    };
    let w = a * n + c * o;
    let t = 0x100_0000_0000_0002nat;
    assert(a + c == t * p);
    assert(t * p * low <= w <= t * p * high) by (nonlinear_arith)
        requires
            w == a * n + c * o,
            a + c == t * p,
            low <= n <= high,
            low <= o <= high,
    ;
    assert(z * u == x * u + y * u) by (nonlinear_arith)
        requires
            z == x + y,
    ;
    assert(0x20_0000_0000_0000 * (z * u) <= 0x20_0000_0000_0001 * w + 0x40_0000_0000_0000 * u);
    assert(0x20_0000_0000_0000 * (z * u) + 0x40_0000_0000_0000 * u >= 0x1f_ffff_ffff_ffff * w);
    // Both sides are multiples of `p`.
    assert(0x20_0000_0000_0000 * (0x100_0000_0000_0000 * z) <= 0x20_0000_0000_0001 * (t * high)
        + 0x40_0000_0000_0000 * 0x100_0000_0000_0000) by (nonlinear_arith)
        requires
            0x20_0000_0000_0000 * (z * u) <= 0x20_0000_0000_0001 * w + 0x40_0000_0000_0000 * u,
            w <= t * p * high,
            u == 0x100_0000_0000_0000 * p,
            p > 0,
    ;
    assert(0x20_0000_0000_0000 * (0x100_0000_0000_0000 * z) + 0x40_0000_0000_0000
        * 0x100_0000_0000_0000 >= 0x1f_ffff_ffff_ffff * (t * low)) by (nonlinear_arith)
        requires
            0x20_0000_0000_0000 * (z * u) + 0x40_0000_0000_0000 * u >= 0x1f_ffff_ffff_ffff * w,
            w >= t * p * low,
            u == 0x100_0000_0000_0000 * p,
            p > 0,
    ;
}

/// A number that is smoothed is nine parts the last one and one part the new one, up
/// to a few parts in 2^53 and a few units.
pub proof fn lemma_blended_weights(new: Value, old: Value)
    requires
        in_range(new, 64),
        in_range(old, 64),
    ensures
        ({
            let r = blended(decoded(ESTIMATE_BASELINE_ALPHA), new, old)->units;
            let parts = new->units + 9 * old->units;
            &&& 0x20_0000_0000_0000 * (10 * r) <= 0x20_0000_0000_0005 * parts + 50
                * 0x20_0000_0000_0000
            &&& 0x20_0000_0000_0000 * (10 * r) + 50 * 0x20_0000_0000_0000 >= 0x1f_ffff_ffff_fffb
                * parts
        }),
{
    let alpha = ESTIMATE_BASELINE_ALPHA;
    let u = units_per_one();
    let p = pow2(1018);
    lemma_pow2_pos(1018);
    lemma_pow2_pos(1021);
    lemma2_to64();
    lemma2_to64_rest();
    lemma_pow2_adds(3, 1018);
    lemma_pow2_adds(56, 1018);
    lemma_weights(alpha);
    lemma_blended_in_range(alpha, new, old, 64);
    let a = (0x19_9999_9999_999a * p) as nat;
    let c = (0x1c_cccc_cccc_cccd * pow2(1021)) as nat;
    lemma_product_at_most(decoded(alpha), new, 0x19_9999_9999_999a, 1018, 64);
    lemma_product_at_most(
        difference(decoded(ONE), decoded(alpha)),
        old,
        0x1c_cccc_cccc_cccd,
        1021,
        64,
    );
    let n = new->units as nat;
    let o = old->units as nat;
    let x = round_units(a * n, u);
    let y = round_units(c * o, u);
    let z = x + y;
    let r = round_units(z, 1);
    assert(blended(decoded(alpha), new, old) == (Value::Finite { units: r as int }));
    lemma_round_units_close(a * n, u);
    lemma_round_units_close(c * o, u);
    lemma_round_units_close(z, 1);
    let w = a * n + c * o;
    let parts = n + 9 * o;
    let f = 0x100_0000_0000_0000nat;
    assert(u == f * p);
    assert(10 * a == (f + 4) * p) by (nonlinear_arith)
        requires
            a == 0x19_9999_9999_999a * p,
            f == 0x100_0000_0000_0000nat,
    ;
    assert(10 * c == (9 * f + 16) * p) by (nonlinear_arith)
        requires
            c == 0x1c_cccc_cccc_cccd * (8 * p),
            f == 0x100_0000_0000_0000nat,
    ;
    assert(f * p * parts <= 10 * w <= (f + 16) * p * parts) by (nonlinear_arith)
        requires
            w == a * n + c * o,
            10 * a == (f + 4) * p,
            10 * c == (9 * f + 16) * p,
            parts == n + 9 * o,
            n >= 0,
            o >= 0,
            p > 0,
    ;
    assert(z * u == x * u + y * u) by (nonlinear_arith)
        requires
            z == x + y,
    ;
    assert(0x20_0000_0000_0000 * (z * u) <= 0x20_0000_0000_0001 * w + 0x40_0000_0000_0000 * u);
    assert(0x20_0000_0000_0000 * (z * u) + 0x40_0000_0000_0000 * u >= 0x1f_ffff_ffff_ffff * w);
    // Both sides are multiples of `p`.
    assert(0x20_0000_0000_0000 * (f * (10 * z)) <= 0x20_0000_0000_0001 * ((f + 16) * parts) + 10
        * (0x40_0000_0000_0000 * f)) by (nonlinear_arith)
        requires
            0x20_0000_0000_0000 * (z * u) <= 0x20_0000_0000_0001 * w + 0x40_0000_0000_0000 * u,
            10 * w <= (f + 16) * p * parts,
            u == f * p,
            p > 0,
    ;
    assert(0x20_0000_0000_0000 * (f * (10 * z)) + 10 * (0x40_0000_0000_0000 * f)
        >= 0x1f_ffff_ffff_ffff * (f * parts)) by (nonlinear_arith)
        requires
            0x20_0000_0000_0000 * (z * u) + 0x40_0000_0000_0000 * u >= 0x1f_ffff_ffff_ffff * w,
            10 * w >= f * p * parts,
            u == f * p,
            p > 0,
    ;
}

/// A `u64` becomes a finite number that is not negative.
pub proof fn lemma_of_int_in_range(n: int)
    requires
        0 <= n <= u64::MAX,
    ensures
        in_range(of_int(n), 64),
{
    let u = units_per_one();
    lemma_pow2_pos(1074);
    lemma_pow2_adds(1074, 64);
    lemma2_to64();
    assert(0 <= n * u <= pow2(1138) * 1) by (nonlinear_arith)
        requires
            0 <= n <= 0x1_0000_0000_0000_0000,
            pow2(1138) == u * 0x1_0000_0000_0000_0000,
    ;
    lemma_round_at_most(magnitude(n * u), 1, 1, 1138);
}

/// A part of a whole is a number between zero and one.
pub proof fn lemma_ratio_in_range(part: nat, whole: nat)
    requires
        part <= whole,
        0 < whole <= u64::MAX,
    ensures
        in_range(quotient(of_int(part as int), of_int(whole as int)), 0),
{
    let u = units_per_one();
    lemma_pow2_pos(1074);
    lemma_of_int_in_range(part as int);
    lemma_of_int_in_range(whole as int);
    lemma_of_positive(whole as int);
    assert(part * u <= whole * u) by (nonlinear_arith)
        requires
            part <= whole,
    ;
    lemma_round_units_monotone(part * u, 1, whole * u, 1);
    let x = of_int(part as int)->units;
    let y = of_int(whole as int)->units;
    assert(x * u <= 1 * pow2(1074) * y) by (nonlinear_arith)
        requires
            x <= y,
            u == pow2(1074),
    ;
    lemma_round_at_most((x * u) as nat, y as nat, 1, 1074);
}

/// The double nearest to `-n` is the negative of the one nearest to `n`.
pub proof fn lemma_of_int_negated(n: int)
    requires
        n > 0,
    ensures
        of_int(-n) == negated(of_int(n)),
{
    let u = units_per_one();
    lemma_pow2_pos(1074);
    assert(n * u > 0) by (nonlinear_arith)
        requires
            n > 0,
            u > 0,
    ;
    assert((-n) * u == -(n * u)) by (nonlinear_arith);
}

/// A number divided by itself is one.
pub proof fn lemma_quotient_self(x: int)
    requires
        x > 0,
    ensures
        quotient(Value::Finite { units: x }, Value::Finite { units: x }) == exactly(1),
        quotient(Value::Finite { units: -x }, Value::Finite { units: x }) == exactly(-1),
{
    let u = units_per_one();
    lemma_pow2_pos(1074);
    lemma2_to64();
    lemma_round_units_exact(1, 1074, x as nat);
    assert(1 * pow2(1074) * x == magnitude(x) * u) by (nonlinear_arith)
        requires
            magnitude(x) == x,
            u == pow2(1074),
    ;
    lemma_pow2_strictly_increases(1074, 2098);
}

/// A finite number less itself is zero.
pub proof fn lemma_difference_self(a: Value)
    requires
        a is Finite,
    ensures
        difference(a, a) == (Value::Finite { units: 0 }),
{
    lemma_round_units_exact(0, 0, 1);
    lemma2_to64();
    lemma_pow2_pos(2098);
}

/// Zero is a double.
pub proof fn lemma_zero()
    ensures
        of_int(0) == (Value::Finite { units: 0 }),
{
    lemma_round_units_exact(0, 0, 1);
    lemma2_to64();
    lemma_pow2_pos(2098);
    assert(0 * units_per_one() == 0);
}

/// Nothing divided by anything is nothing.
pub proof fn lemma_quotient_of_zero(y: int)
    requires
        y > 0,
    ensures
        quotient(Value::Finite { units: 0 }, Value::Finite { units: y }) == (Value::Finite {
            units: 0,
        }),
{
    assert(magnitude(0) * units_per_one() == 0) by (nonlinear_arith)
        requires
            magnitude(0) == 0,
    ;
    lemma_round_at_most(0, y as nat, 0, 0);
}

/// An integer of at most 53 bits is a double.
pub proof fn lemma_exact_int(n: nat)
    requires
        n <= 0x20_0000_0000_0000,
    ensures
        of_int(n as int) == exactly(n as int),
{
    let u = units_per_one();
    lemma_pow2_pos(1074);
    lemma_of_int_in_range(n as int);
    lemma_round_units_exact(n, 1074, 1);
    assert(n * pow2(1074) * 1 == n * u);
    assert(n * u >= 0) by (nonlinear_arith);
}

/// A fraction of an integer, with a ratio of at most 0.95, is not larger than it.
proof fn lemma_fraction_at_most(n: int, ratio: Value)
    requires
        0 <= n <= u64::MAX,
        ratio matches Value::Finite { units } && 0x10_0000_0000_0000 <= units
            <= 0x79_9999_9999_9998 * pow2(1019),
    ensures
        truncated(product(of_int(n), ratio)) <= n,
{
    let u = units_per_one();
    let r = ratio->units as nat;
    let p = pow2(1019);
    lemma_pow2_pos(1074);
    lemma2_to64();
    lemma2_to64_rest();
    lemma_of_int_in_range(n);
    let x = of_int(n)->units;
    lemma_pow2_adds(55, 1019);
    assert(u == 0x80_0000_0000_0000 * p);
    if n == 0 {
        lemma_round_units_exact(0, 0, 1);
        assert(n * u == 0) by (nonlinear_arith)
            requires
                n == 0,
        ;
        assert(x == 0);
        lemma_round_at_most(0, u, 0, 0);
        assert(magnitude(x) * magnitude(r as int) == 0) by (nonlinear_arith)
            requires
                magnitude(x) == 0,
        ;
    } else {
        let nu = (n * u) as nat;
        assert(nu >= u) by (nonlinear_arith)
            requires
                nu == n * u,
                n >= 1,
        ;
        lemma_pow2_strictly_increases(52, 1074);
        lemma_round_units_error(nu, 1);
        assert(x == round_units(nu, 1));
        assert(0x20_0000_0000_0000 * x <= 0x20_0000_0000_0001 * nu);
        lemma_round_units_exact(1, 1074, 1);
        assert(1 * pow2(1074) * 1 == u);
        lemma_round_units_monotone(u, 1, nu, 1);
        assert(x >= u);
        let xr = (x * r) as nat;
        assert(xr >= u * 0x10_0000_0000_0000) by (nonlinear_arith)
            requires
                xr == x * r,
                x >= u,
                r >= 0x10_0000_0000_0000,
        ;
        lemma_round_units_error(xr, u);
        let y = round_units(xr, u);
        assert(y <= nu) by {
            assert(0x20_0000_0000_0000 * (y * u) <= 0x20_0000_0000_0001 * xr);
            assert(0x20_0000_0000_0000 * (0x20_0000_0000_0000 * (y * u)) <= 0x20_0000_0000_0001 * (
            0x20_0000_0000_0001 * (nu * r))) by (nonlinear_arith)
                requires
                    0x20_0000_0000_0000 * (y * u) <= 0x20_0000_0000_0001 * xr,
                    xr == x * r,
                    0x20_0000_0000_0000 * x <= 0x20_0000_0000_0001 * nu,
                    r > 0,
            ;
            assert(0x20_0000_0000_0001 * (0x20_0000_0000_0001 * r) <= 0x20_0000_0000_0000 * (
            0x20_0000_0000_0000 * u));
            assert(nu * (0x20_0000_0000_0001 * (0x20_0000_0000_0001 * r)) <= nu * (
            0x20_0000_0000_0000 * (0x20_0000_0000_0000 * u))) by (nonlinear_arith)
                requires
                    0x20_0000_0000_0001 * (0x20_0000_0000_0001 * r) <= 0x20_0000_0000_0000 * (
                    0x20_0000_0000_0000 * u),
                    nu >= 0,
            ;
            assert(y * u <= nu * u) by (nonlinear_arith)
                requires
                    0x20_0000_0000_0000 * (0x20_0000_0000_0000 * (y * u)) <= 0x20_0000_0000_0001 * (
                    0x20_0000_0000_0001 * (nu * r)),
                    nu * (0x20_0000_0000_0001 * (0x20_0000_0000_0001 * r)) <= nu * (
                    0x20_0000_0000_0000 * (0x20_0000_0000_0000 * u)),
            ;
            assert(y <= nu) by (nonlinear_arith)
                requires
                    y * u <= nu * u,
                    u > 0,
            ;
        }
        assert(y < overflow_units()) by {
            lemma_pow2_adds(1074, 64);
            assert(nu <= pow2(1138)) by (nonlinear_arith)
                requires
                    nu == n * u,
                    n <= 0x1_0000_0000_0000_0000,
                    pow2(1138) == u * 0x1_0000_0000_0000_0000,
            ;
            lemma_pow2_strictly_increases(1138, 2098);
        }
        lemma_div_is_ordered(y as int, nu as int, u as int);
        lemma_div_by_multiple(n, u as int);
    }
}

/// The fractions of a bitrate that make a floor and a commit threshold are not
/// larger than the bitrate.
pub proof fn lemma_scaled_at_most(n: int, ratio: u64)
    requires
        0 <= n <= u64::MAX,
        ratio == MIN_CEILING_RATIO || ratio == COMMIT_THRESHOLD_RATIO,
    ensures
        truncated(product(of_int(n), decoded(ratio))) <= n,
{
    let p = pow2(1019);
    lemma_pow2_pos(1019);
    lemma2_to64();
    lemma_pow2_adds(2, 1019);
    if ratio == MIN_CEILING_RATIO {
        assert(decoded(ratio) == (Value::Finite { units: (0x19_9999_9999_999a * p) as int }));
    } else {
        assert(decoded(ratio) == (Value::Finite {
            units: (0x1e_6666_6666_6666 * pow2(1021)) as int,
        }));
    }
    lemma_fraction_at_most(n, decoded(ratio));
}

/// The weights of the two smoothing filters.
pub proof fn lemma_weights(alpha: u64)
    requires
        alpha == LOSS_ATTACK_ALPHA || alpha == LOSS_DECAY_ALPHA || alpha
            == ESTIMATE_BASELINE_ALPHA,
    ensures
        alpha == LOSS_ATTACK_ALPHA ==> decoded(alpha) == (Value::Finite {
            units: (0x10_0000_0000_0000 * pow2(1021)) as int,
        }) && difference(decoded(ONE), decoded(alpha)) == (Value::Finite {
            units: (0x10_0000_0000_0000 * pow2(1021)) as int,
        }),
        alpha != LOSS_ATTACK_ALPHA ==> decoded(alpha) == (Value::Finite {
            units: (0x19_9999_9999_999a * pow2(1018)) as int,
        }) && difference(decoded(ONE), decoded(alpha)) == (Value::Finite {
            units: (0x1c_cccc_cccc_cccd * pow2(1021)) as int,
        }),
{
    lemma2_to64();
    lemma_pow2_adds(1, 1021);
    lemma_pow2_adds(4, 1018);
    lemma_pow2_pos(1018);
    lemma_pow2_pos(1021);
    lemma2_to64_rest();
    lemma_pow2_adds(53, 1021);
    lemma_pow2_strictly_increases(1074, 2098);
    let p = pow2(1018);
    let h = pow2(1021);
    assert(decoded(ONE) == (Value::Finite { units: (0x10_0000_0000_0000 * pow2(1022)) as int }));
    if alpha == LOSS_ATTACK_ALPHA {
        assert(decoded(alpha) == (Value::Finite { units: (0x10_0000_0000_0000 * h) as int }));
        lemma_round_units_exact(0x10_0000_0000_0000, 1021, 1);
    } else {
        assert(decoded(alpha) == (Value::Finite { units: (0x19_9999_9999_999a * p) as int }));
        let t = 0xe6_6666_6666_6666nat;
        assert(0x10_0000_0000_0000 * pow2(1022) - 0x19_9999_9999_999a * p == t * p)
            by (nonlinear_arith)
            requires
                pow2(1022) == 16 * p,
                t == 0xe6_6666_6666_6666nat,
        ;
        lemma_round_shifted(t, 1018, 3);
        assert(nearest_even(t as int, 8) == 0x1c_cccc_cccc_cccd);
        assert(t * p > 0) by (nonlinear_arith)
            requires
                t > 0,
                p > 0,
        ;
    }
}

} // verus!
