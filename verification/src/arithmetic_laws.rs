//! Laws of double-precision arithmetic: how numbers are ordered, what their whole part
//! is, and how far a result is from the exact one.

use crate::rounding::{lemma_round_units_close, units_per_one};
use crate::value::{
    absolute, difference, larger, less, magnitude, negated, product, quotient, smaller, sum,
    truncated, Value,
};
use vstd::arithmetic::div_mod::lemma_fundamental_div_mod;
use vstd::arithmetic::power2::lemma_pow2_pos;
use vstd::prelude::*;

verus! {

/// Numbers are ordered, the finite ones by their size, between the two infinities. What
/// is not a number is neither below nor above anything.
pub proof fn law_order(a: Value, b: Value, c: Value)
    ensures
        less(a, b) ==> !less(b, a) && a != b,
        less(a, b) && less(b, c) ==> less(a, c),
        a is Nan || b is Nan ==> !less(a, b),
        !(a is Nan) && !(b is Nan) ==> less(a, b) || less(b, a) || a == b,
        a is Finite && b is Finite ==> (less(a, b) <==> a->units < b->units),
        a is Finite ==> less(a, Value::Infinite { negative: false }),
        a is Finite ==> less(Value::Infinite { negative: true }, a),
{
}

/// The larger of two numbers is one of them and not below the other; the smaller one is
/// one of them and not above the other. What is not a number is passed over.
pub proof fn law_larger_and_smaller(a: Value, b: Value)
    ensures
        larger(a, b) == a || larger(a, b) == b,
        smaller(a, b) == a || smaller(a, b) == b,
        !less(larger(a, b), a) && !less(larger(a, b), b),
        !less(a, smaller(a, b)) && !less(b, smaller(a, b)),
        larger(a, b) is Nan || smaller(a, b) is Nan ==> a is Nan && b is Nan,
{
}

/// The whole part of a number: as many ones as it has room for, but no less than none
/// and no more than 64 bits hold. What is not a number has none.
pub proof fn law_whole_part(a: Value)
    ensures
        a matches Value::Finite { units } ==> {
            let n = truncated(a);
            &&& units < 0 ==> n == 0
            &&& units >= 0 ==> n * units_per_one() <= units
            &&& units >= 0 && n < u64::MAX ==> units < (n + 1) * units_per_one()
        },
        a is Nan ==> truncated(a) == 0,
        a == (Value::Infinite { negative: true }) ==> truncated(a) == 0,
        a == (Value::Infinite { negative: false }) ==> truncated(a) == u64::MAX,
{
    let u = units_per_one() as int;
    lemma_pow2_pos(1074);
    if let Value::Finite { units } = a {
        lemma_fundamental_div_mod(units, u);
        let q = units / u;
        if units >= 0 {
            assert(q * u <= units < (q + 1) * u && q >= 0) by (nonlinear_arith)
                requires
                    units == u * q + units % u,
                    0 <= units % u < u,
                    units >= 0,
                    u > 0,
            ;
            assert(0 * u == 0 && (0 + 1) * u == u) by (nonlinear_arith);
            if q > u64::MAX {
                assert(u64::MAX * u <= q * u) by (nonlinear_arith)
                    requires
                        q >= u64::MAX,
                        u > 0,
                ;
            }
        }
    }
}

/// The opposite and the absolute value of a finite number are exact.
pub proof fn law_signs(x: int)
    ensures
        negated(Value::Finite { units: x }) == (Value::Finite { units: -x }),
        absolute(Value::Finite { units: x }) == (Value::Finite {
            units: if x < 0 {
                -x
            } else {
                x
            },
        }),
{
}

/// A sum or a difference of finite numbers, as long as it is finite, is off by at most
/// one part in 2^53, or one unit. The order of a sum does not matter.
pub proof fn law_sums(x: int, y: int)
    ensures
        ({
            let a = Value::Finite { units: x };
            let b = Value::Finite { units: y };
            &&& sum(a, b) == sum(b, a)
            &&& sum(a, b) matches Value::Finite { units } ==> 0x20_0000_0000_0000 * magnitude(
                units - (x + y),
            ) <= magnitude(x + y) + 0x20_0000_0000_0000
            &&& difference(a, b) matches Value::Finite { units } ==> 0x20_0000_0000_0000
                * magnitude(units - (x - y)) <= magnitude(x - y) + 0x20_0000_0000_0000
        }),
{
    lemma_round_units_close(magnitude(x + y), 1);
    lemma_round_units_close(magnitude(x - y), 1);
}

/// A product of finite numbers, as long as it is finite, is off by at most one part in
/// 2^53, or one unit, and has the sign that it should have. The order does not matter.
pub proof fn law_products(x: int, y: int)
    ensures
        ({
            let a = Value::Finite { units: x };
            let b = Value::Finite { units: y };
            let u = units_per_one() as int;
            let exact = magnitude(x) * magnitude(y);
            &&& product(a, b) == product(b, a)
            &&& product(a, b) matches Value::Finite { units } ==> {
                &&& 0x20_0000_0000_0000 * magnitude(magnitude(units) * u - exact) <= exact
                    + 0x20_0000_0000_0000 * u
                &&& (x < 0) == (y < 0) ==> units >= 0
                &&& (x < 0) != (y < 0) ==> units <= 0
            }
        }),
{
    lemma_pow2_pos(1074);
    assert(magnitude(x) * magnitude(y) == magnitude(y) * magnitude(x)) by (nonlinear_arith);
    lemma_round_units_close(magnitude(x) * magnitude(y), units_per_one());
}

/// A quotient of finite numbers, as long as it is finite, is off by at most one part in
/// 2^53, or one unit, and has the sign that it should have.
pub proof fn law_quotients(x: int, y: int)
    requires
        y != 0,
    ensures
        quotient(Value::Finite { units: x }, Value::Finite { units: y }) matches Value::Finite {
            units,
        } ==> {
            let exact = magnitude(x) * units_per_one();
            &&& 0x20_0000_0000_0000 * magnitude(magnitude(units) * magnitude(y) - exact) <= exact
                + 0x20_0000_0000_0000 * magnitude(y)
            &&& (x < 0) == (y < 0) ==> units >= 0
            &&& (x < 0) != (y < 0) ==> units <= 0
        },
{
    lemma_round_units_close(magnitude(x) * units_per_one(), magnitude(y));
}

} // verus!
