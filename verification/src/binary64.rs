//! Double-precision numbers in integer arithmetic.
//!
//! [`Binary64`] holds the bits of an IEEE 754 double and computes with them as
//! the hardware does: each operation returns the exact result rounded once to
//! the nearest double, ties to even.

use crate::rounding::{
    brackets, lemma_bracket_exact, lemma_bracket_round, lemma_bracket_spacing,
    lemma_round_units_bounds, lemma_round_units_exact, nearest_even, overflow_units,
    pow2_down, pow2_up, round_units, units_per_one,
};
use crate::value::{
    absolute, decoded, difference, is_negative, larger, less, magnitude, magnitude_units, negated,
    of_int, product, quotient, rounded, rounded_magnitude, smaller, sum, truncated, with_sign, Value,
};
use vstd::arithmetic::power2::{
    lemma2_to64, lemma2_to64_rest, lemma_pow2_adds, lemma_pow2_pos, lemma_pow2_strictly_increases,
    lemma_pow2_unfold, pow2,
};
use vstd::prelude::*;

verus! {

/// One step of the exponent field.
const EXPONENT_STEP: u64 = 0x10_0000_0000_0000;

/// The bits of positive infinity.
const INFINITY_BITS: u64 = 0x7ff0_0000_0000_0000;

/// The bits of a value that is not a number.
const NAN_BITS: u64 = 0x7ff8_0000_0000_0000;

/// The bit that holds the sign.
const SIGN_BIT: u64 = 0x8000_0000_0000_0000;

/// A double-precision number.
#[derive(Clone, Copy, Debug)]
pub struct Binary64 {
    bits: u64,
}

impl View for Binary64 {
    type V = Value;

    open spec fn view(&self) -> Value {
        decoded(self.spec_bits())
    }
}

/// A finite double taken apart: its magnitude is `significand` times two to the
/// power of `exponent`, in units.
struct Parts {
    negative: bool,
    significand: u64,
    exponent: i32,
}

impl Parts {
    spec fn units(self) -> nat {
        self.significand as nat * pow2(self.exponent as nat)
    }

    spec fn wf(self) -> bool {
        &&& self.significand < 0x20_0000_0000_0000
        &&& 0 <= self.exponent <= 2045
        &&& self.exponent > 0 ==> self.significand >= 0x10_0000_0000_0000
    }
}

/// What the bits `s * 2^52 + n` stand for.
proof fn lemma_encoded_units(s: nat, n: nat)
    requires
        n <= 0x20_0000_0000_0000,
        s > 0 ==> n >= 0x10_0000_0000_0000,
    ensures
        magnitude_units(s * 0x10_0000_0000_0000 + n) == n * pow2(s),
{
    let b = s * 0x10_0000_0000_0000 + n;
    lemma2_to64();
    if n < 0x10_0000_0000_0000 {
        assert(b / 0x10_0000_0000_0000 == 0 && b % 0x10_0000_0000_0000 == n);
    } else if n < 0x20_0000_0000_0000 {
        assert(b / 0x10_0000_0000_0000 == s + 1 && b % 0x10_0000_0000_0000 == n
            - 0x10_0000_0000_0000);
    } else {
        assert(b / 0x10_0000_0000_0000 == s + 2 && b % 0x10_0000_0000_0000 == 0);
        lemma_pow2_unfold((s + 1) as nat);
    }
}

/// Larger bits stand for a larger magnitude.
proof fn lemma_magnitude_increases(a: nat, b: nat)
    requires
        a < b,
    ensures
        magnitude_units(a) < magnitude_units(b),
{
    let ea = a / 0x10_0000_0000_0000;
    let eb = b / 0x10_0000_0000_0000;
    let fa = a % 0x10_0000_0000_0000;
    let fb = b % 0x10_0000_0000_0000;
    if ea == eb {
        assert(fa < fb);
        if ea > 0 {
            let p = pow2((ea - 1) as nat);
            lemma_pow2_pos((ea - 1) as nat);
            assert((0x10_0000_0000_0000 + fa) * p < (0x10_0000_0000_0000 + fb) * p)
                by (nonlinear_arith)
                requires
                    fa < fb,
                    p > 0,
            ;
        }
    } else {
        assert(ea < eb);
        let q = pow2((eb - 1) as nat);
        lemma_pow2_pos((eb - 1) as nat);
        assert((0x10_0000_0000_0000 + fb) * q >= 0x10_0000_0000_0000 * q) by (nonlinear_arith)
            requires
                q > 0,
        ;
        if ea > 0 {
            let p = pow2((ea - 1) as nat);
            lemma_pow2_pos((ea - 1) as nat);
            lemma_pow2_unfold(ea);
            if ea < eb - 1 {
                lemma_pow2_strictly_increases(ea, (eb - 1) as nat);
            }
            assert((0x10_0000_0000_0000 + fa) * p < 0x20_0000_0000_0000 * p) by (nonlinear_arith)
                requires
                    fa < 0x10_0000_0000_0000,
                    p > 0,
            ;
        }
    }
}

/// Finite bits stand for less than the overflow bound.
proof fn lemma_magnitude_bound(b: nat)
    requires
        b < 0x7ff0_0000_0000_0000,
    ensures
        magnitude_units(b) < overflow_units(),
{
    lemma_magnitude_increases(b, 0x7ff0_0000_0000_0000);
    lemma2_to64_rest();
    lemma_pow2_adds(52, 2046);
}

/// The number of bits that `m` takes.
fn bit_length(m: u128) -> (len: i32)
    requires
        m > 0,
    ensures
        1 <= len <= 128,
        pow2((len - 1) as nat) <= m < pow2(len as nat),
{
    let mut rest: u128 = m;
    let mut len: i32 = 1;
    proof {
        lemma2_to64();
        assert(rest * pow2(0) <= m < (rest + 1) * pow2(0));
    }
    while rest > 1
        invariant
            rest > 0,
            1 <= len <= 128,
            rest * pow2((len - 1) as nat) <= m < (rest + 1) * pow2((len - 1) as nat),
            m <= u128::MAX,
        decreases rest,
    {
        proof {
            lemma_pow2_unfold(len as nat);
            lemma_pow2_pos((len - 1) as nat);
            let p = pow2((len - 1) as nat);
            let half = (rest / 2) as nat;
            assert(half * (2 * p) <= m < (half + 1) * (2 * p)) by (nonlinear_arith)
                requires
                    rest * p <= m < (rest + 1) * p,
                    half == rest / 2,
                    p > 0,
            ;
            assert(pow2(len as nat) <= m) by (nonlinear_arith)
                requires
                    half * (2 * p) <= m,
                    half >= 1,
                    pow2(len as nat) == 2 * p,
            ;
            if len >= 128 {
                lemma_pow2_adds(64, 64);
                lemma2_to64_rest();
                if len > 128 {
                    lemma_pow2_strictly_increases(128, len as nat);
                }
                assert(pow2(128) == 0x1_0000_0000_0000_0000 * 0x1_0000_0000_0000_0000);
                assert(false);
            }
        }
        rest = rest / 2;
        len = len + 1;
    }
    proof {
        lemma_pow2_unfold(len as nat);
    }
    len
}

/// Two to the power of `e`.
fn power_of_two(e: i32) -> (p: u128)
    requires
        0 <= e <= 127,
    ensures
        p == pow2(e as nat),
        p > 0,
{
    let mut p: u128 = 1;
    let mut i: i32 = 0;
    proof {
        lemma2_to64();
    }
    while i < e
        invariant
            0 <= i <= e <= 127,
            p == pow2(i as nat),
            p > 0,
        decreases e - i,
    {
        proof {
            lemma_pow2_unfold((i + 1) as nat);
            lemma_pow2_adds(64, 63);
            lemma2_to64();
            lemma2_to64_rest();
            if i + 1 < 127 {
                lemma_pow2_strictly_increases((i + 1) as nat, 127);
            }
            assert(pow2(127) == 0x1_0000_0000_0000_0000 * 0x8000_0000_0000_0000);
        }
        p = p * 2;
        i = i + 1;
    }
    p
}

/// The significand that a bracketed magnitude is rounded to at the given spacing.
fn round_significand(
    m: u128,
    t: i32,
    sticky: bool,
    len: i32,
    s: i32,
    Ghost(num): Ghost<nat>,
    Ghost(den): Ghost<nat>,
) -> (n: u64)
    requires
        den > 0,
        m > 0,
        brackets(num, den, m as nat, t as int, sticky),
        pow2((len - 1) as nat) <= m < pow2(len as nat),
        1 <= len <= 128,
        sticky ==> len >= 54,
        -10000 <= t <= 10000,
        s == if len + t > 53 {
            len + t - 53
        } else {
            0
        },
    ensures
        n == nearest_even(num as int, (den * pow2(s as nat)) as int),
        n <= 0x20_0000_0000_0000,
        s > 0 ==> n >= 0x10_0000_0000_0000,
{
    proof {
        lemma_bracket_spacing(num, den, m as nat, t as int, sticky, len as nat);
        lemma_round_units_bounds(num, den);
    }
    let d: i32 = s - t;
    if d <= 0 {
        proof {
            lemma_bracket_exact(num, den, m as nat, t as int, s as nat);
            lemma2_to64_rest();
            lemma_pow2_adds(len as nat, (-d) as nat);
            let f = pow2((-d) as nat);
            lemma_pow2_pos((-d) as nat);
            if len - d < 53 {
                lemma_pow2_strictly_increases((len - d) as nat, 53);
            }
            assert(m * f < pow2(len as nat) * f) by (nonlinear_arith)
                requires
                    m < pow2(len as nat),
                    f > 0,
            ;
        }
        let f: u128 = power_of_two(-d);
        let n: u128 = m * f;
        n as u64
    } else if d > 128 {
        proof {
            lemma2_to64_rest();
            lemma_pow2_adds(64, 64);
            let half = pow2((d - 1) as nat);
            if d - 1 > 128 {
                lemma_pow2_strictly_increases(128, (d - 1) as nat);
            }
            lemma_pow2_unfold(d as nat);
            assert(pow2(128) == 0x1_0000_0000_0000_0000 * 0x1_0000_0000_0000_0000);
            assert(m < half);
            lemma_bracket_round(
                num,
                den,
                m as nat,
                t as int,
                sticky,
                s as nat,
                d as nat,
                0,
                m as nat,
            );
        }
        0
    } else {
        let half: u128 = power_of_two(d - 1);
        // Divided in two steps, as two to the power of `d` may not fit.
        let doubled: u128 = m / half;
        let q: u128 = doubled / 2;
        let low: u128 = m % half;
        let half_set: bool = doubled % 2 == 1;
        proof {
            lemma_pow2_unfold(d as nat);
            let rem = low + if half_set { half as int } else { 0 };
            vstd::arithmetic::div_mod::lemma_fundamental_div_mod(m as int, half as int);
            vstd::arithmetic::div_mod::lemma_mod_bound(m as int, half as int);
            assert(m == q * (2 * half) + rem) by (nonlinear_arith)
                requires
                    m == half * doubled + low,
                    doubled == 2 * q + if half_set { 1int } else { 0 },
                    rem == low + if half_set { half as int } else { 0 },
            ;
            lemma_bracket_round(
                num,
                den,
                m as nat,
                t as int,
                sticky,
                s as nat,
                d as nat,
                q as nat,
                rem as nat,
            );
            lemma2_to64_rest();
        }
        let n: u128 = if half_set && (low > 0 || sticky || q % 2 == 1) {
            q + 1
        } else {
            q
        };
        n as u64
    }
}

/// The double nearest to a bracketed magnitude, with the given sign.
fn assemble(
    negative: bool,
    m: u128,
    t: i32,
    sticky: bool,
    Ghost(num): Ghost<nat>,
    Ghost(den): Ghost<nat>,
) -> (r: Binary64)
    requires
        den > 0,
        brackets(num, den, m as nat, t as int, sticky),
        sticky ==> m >= 0x20_0000_0000_0000,
        -9000 <= t <= 9000,
    ensures
        r@ == rounded_magnitude(negative, num, den),
{
    let sign: u64 = if negative {
        SIGN_BIT
    } else {
        0
    };
    if m == 0 {
        proof {
            lemma_pow2_pos(if -t > 0 { (-t) as nat } else { 0 });
            assert(num == 0) by (nonlinear_arith)
                requires
                    num * pow2_down(t as int) == 0 * (den * pow2_up(t as int)),
                    pow2_down(t as int) > 0,
            ;
            lemma_round_units_exact(0, 0, den);
            assert(0 * pow2(0) * den == 0) by (nonlinear_arith);
            lemma_pow2_pos(2098);
        }
        return Binary64 { bits: sign };
    }
    let len: i32 = bit_length(m);
    proof {
        lemma2_to64_rest();
        if sticky && len < 54 {
            if len < 53 {
                lemma_pow2_strictly_increases(len as nat, 53);
            }
        }
    }
    let s: i32 = if len + t > 53 {
        len + t - 53
    } else {
        0
    };
    let n: u64 = round_significand(m, t, sticky, len, s, Ghost(num), Ghost(den));
    proof {
        lemma_bracket_spacing(num, den, m as nat, t as int, sticky, len as nat);
        lemma_encoded_units(s as nat, n as nat);
        assert(round_units(num, den) == n * pow2(s as nat));
        assert(magnitude_units(0x7ff0_0000_0000_0000) == overflow_units()) by {
            lemma_pow2_adds(52, 2046);
        }
    }
    if s > 2045 {
        proof {
            let b = (s * 0x10_0000_0000_0000 + n) as nat;
            if b > 0x7ff0_0000_0000_0000 {
                lemma_magnitude_increases(0x7ff0_0000_0000_0000, b);
            }
        }
        return Binary64 { bits: sign + INFINITY_BITS };
    }
    let b: u64 = (s as u64) * EXPONENT_STEP + n;
    if b >= INFINITY_BITS {
        proof {
            if b > 0x7ff0_0000_0000_0000 {
                lemma_magnitude_increases(0x7ff0_0000_0000_0000, b as nat);
            }
        }
        return Binary64 { bits: sign + INFINITY_BITS };
    }
    proof {
        lemma_magnitude_bound(b as nat);
    }
    Binary64 { bits: sign + b }
}

impl Binary64 {
    pub closed spec fn spec_bits(self) -> u64 {
        self.bits
    }

    /// The double with these bits.
    pub fn from_bits(bits: u64) -> (r: Self)
        ensures
            r.spec_bits() == bits,
            r@ == decoded(bits),
    {
        Binary64 { bits }
    }

    /// The bits of this double.
    pub fn to_bits(self) -> (bits: u64)
        ensures
            bits == self.spec_bits(),
            self@ == decoded(bits),
    {
        self.bits
    }

    /// The bits without the sign.
    fn unsigned_bits(self) -> (b: u64)
        ensures
            b == self.spec_bits() % 0x8000_0000_0000_0000,
    {
        self.bits % SIGN_BIT
    }

    fn is_nan(self) -> (r: bool)
        ensures
            r == (self@ is Nan),
    {
        self.unsigned_bits() > INFINITY_BITS
    }

    fn is_infinite(self) -> (r: bool)
        ensures
            r == (self@ is Infinite),
    {
        self.unsigned_bits() == INFINITY_BITS
    }

    fn is_zero(self) -> (r: bool)
        ensures
            r == (self@ == (Value::Finite { units: 0 })),
    {
        proof {
            if self.spec_bits() % 0x8000_0000_0000_0000 > 0 {
                lemma_magnitude_increases(0, (self.spec_bits() % 0x8000_0000_0000_0000) as nat);
            }
        }
        self.unsigned_bits() == 0
    }

    /// Takes a finite double apart.
    fn parts(self) -> (p: Parts)
        requires
            self@ is Finite,
        ensures
            p.wf(),
            self@ == (Value::Finite { units: with_sign(p.negative, p.units()) }),
    {
        let negative: bool = self.bits >= SIGN_BIT;
        let b: u64 = self.unsigned_bits();
        let field: u64 = b / EXPONENT_STEP;
        let fraction: u64 = b % EXPONENT_STEP;
        proof {
            lemma2_to64();
            assert(fraction * pow2(0) == fraction);
        }
        if field == 0 {
            Parts { negative, significand: fraction, exponent: 0 }
        } else {
            let exponent: i32 = (field - 1) as i32;
            assert(exponent as nat == (field - 1) as nat);
            Parts { negative, significand: EXPONENT_STEP + fraction, exponent }
        }
    }

    /// The double nearest to `n`.
    pub fn from_u64(n: u64) -> (r: Self)
        ensures
            r@ == of_int(n as int),
    {
        proof {
            lemma2_to64();
            let p = units_per_one();
            lemma_pow2_pos(1074);
            assert(magnitude(n * p) == n * p && !(n * p < 0)) by (nonlinear_arith)
                requires
                    p > 0,
                    magnitude(n * p) == if n * p < 0 { -(n * p) } else { n * p },
            ;
            assert((n * p) * 1 == n * (1 * p));
        }
        assemble(false, n as u128, 1074, false, Ghost(magnitude(n * units_per_one())), Ghost(1))
    }

    /// The double nearest to `n`.
    pub fn from_i64(n: i64) -> (r: Self)
        ensures
            r@ == of_int(n as int),
    {
        let negative: bool = n < 0;
        let m: u128 = if negative {
            (-(n as i128)) as u128
        } else {
            n as u128
        };
        proof {
            lemma2_to64();
            let p = units_per_one();
            lemma_pow2_pos(1074);
            assert((n * p < 0) == (n < 0)) by (nonlinear_arith)
                requires
                    p > 0,
            ;
            assert(magnitude(n * p) == m * p) by (nonlinear_arith)
                requires
                    m == if n < 0 { -n as int } else { n as int },
                    (n * p < 0) == (n < 0),
                    magnitude(n * p) == if n * p < 0 { -(n * p) } else { n * p },
            ;
            assert((m * p) * 1 == m * (1 * p));
        }
        assemble(negative, m, 1074, false, Ghost(magnitude(n * units_per_one())), Ghost(1))
    }

    /// `-self`.
    pub fn negate(self) -> (r: Self)
        ensures
            r@ == negated(self@),
    {
        if self.bits >= SIGN_BIT {
            Binary64 { bits: self.bits - SIGN_BIT }
        } else {
            Binary64 { bits: self.bits + SIGN_BIT }
        }
    }

    /// The absolute value.
    pub fn abs(self) -> (r: Self)
        ensures
            r@ == absolute(self@),
    {
        Binary64 { bits: self.unsigned_bits() }
    }

    /// A signed integer that orders doubles as their values do.
    fn key(self) -> (k: i128)
        ensures
            k == self.spec_key(),
    {
        let b: u64 = self.unsigned_bits();
        if self.bits >= SIGN_BIT {
            -(b as i128)
        } else {
            b as i128
        }
    }

    spec fn spec_key(self) -> int {
        with_sign(
            self.bits >= 0x8000_0000_0000_0000,
            (self.bits % 0x8000_0000_0000_0000) as nat,
        )
    }

    proof fn lemma_key_orders(a: Self, b: Self)
        requires
            !(a@ is Nan),
            !(b@ is Nan),
        ensures
            less(a@, b@) == (a.spec_key() < b.spec_key()),
    {
        let x = (a.bits % 0x8000_0000_0000_0000) as nat;
        let y = (b.bits % 0x8000_0000_0000_0000) as nat;
        if x < y {
            lemma_magnitude_increases(x, y);
        } else if y < x {
            lemma_magnitude_increases(y, x);
        }
        if x > 0 {
            lemma_magnitude_increases(0, x);
        }
        if y > 0 {
            lemma_magnitude_increases(0, y);
        }
    }

    /// `self < other`.
    pub fn less_than(self, other: Self) -> (r: bool)
        ensures
            r == less(self@, other@),
    {
        if self.is_nan() || other.is_nan() {
            return false;
        }
        proof {
            Self::lemma_key_orders(self, other);
        }
        self.key() < other.key()
    }

    /// The larger of two; where one is not a number, the other.
    pub fn max(self, other: Self) -> (r: Self)
        ensures
            r == self || r == other,
            r@ == larger(self@, other@),
    {
        if self.is_nan() || self.less_than(other) {
            other
        } else {
            self
        }
    }

    /// The smaller of two; where one is not a number, the other.
    pub fn min(self, other: Self) -> (r: Self)
        ensures
            r == self || r == other,
            r@ == smaller(self@, other@),
    {
        if self.is_nan() || other.less_than(self) {
            other
        } else {
            self
        }
    }

    /// The integer part, brought into the range of a `u64`; zero for what is not
    /// a number.
    pub fn to_u64(self) -> (n: u64)
        ensures
            n == truncated(self@),
    {
        if self.is_nan() {
            return 0;
        }
        if self.is_infinite() {
            return if self.bits >= SIGN_BIT {
                0
            } else {
                u64::MAX
            };
        }
        let p = self.parts();
        proof {
            lemma_pow2_pos(p.exponent as nat);
            assert(p.units() >= 0);
            assert(p.significand > 0 ==> p.units() > 0) by (nonlinear_arith)
                requires
                    p.units() == p.significand as nat * pow2(p.exponent as nat),
                    pow2(p.exponent as nat) > 0,
            ;
            assert(p.significand == 0 ==> p.units() == 0) by (nonlinear_arith)
                requires
                    p.units() == p.significand as nat * pow2(p.exponent as nat),
            ;
        }
        if p.negative || p.significand == 0 {
            return 0;
        }
        if p.exponent >= 1074 {
            let k: i32 = p.exponent - 1074;
            proof {
                let f = pow2(k as nat);
                lemma_pow2_pos(1074);
                lemma_pow2_pos(k as nat);
                lemma_pow2_adds(k as nat, 1074);
                assert(k as nat + 1074 == p.exponent as nat);
                assert(p.units() == (p.significand * f) * pow2(1074)) by (nonlinear_arith)
                    requires
                        p.units() == p.significand as nat * pow2(p.exponent as nat),
                        pow2(p.exponent as nat) == f * pow2(1074),
                ;
                vstd::arithmetic::div_mod::lemma_div_by_multiple(
                    p.significand * f,
                    pow2(1074) as int,
                );
            }
            if k >= 12 {
                proof {
                    lemma2_to64();
                    if k > 12 {
                        lemma_pow2_strictly_increases(12, k as nat);
                    }
                    assert(p.significand * pow2(k as nat) >= 0x10_0000_0000_0000 * 0x1000)
                        by (nonlinear_arith)
                        requires
                            p.significand >= 0x10_0000_0000_0000,
                            pow2(k as nat) >= 0x1000,
                    ;
                }
                return u64::MAX;
            }
            let f: u128 = power_of_two(k);
            proof {
                lemma2_to64();
                if k < 11 {
                    lemma_pow2_strictly_increases(k as nat, 11);
                }
                assert(p.significand * f <= 0x20_0000_0000_0000 * 0x800) by (nonlinear_arith)
                    requires
                        p.significand <= 0x20_0000_0000_0000,
                        f <= 0x800,
                ;
            }
            let n: u128 = (p.significand as u128) * f;
            if n > u64::MAX as u128 {
                u64::MAX
            } else {
                n as u64
            }
        } else {
            let k: i32 = 1074 - p.exponent;
            proof {
                let f = pow2(k as nat);
                let e = pow2(p.exponent as nat);
                lemma_pow2_pos(k as nat);
                lemma_pow2_adds(p.exponent as nat, k as nat);
                assert(p.exponent as nat + k as nat == 1074);
                vstd::arithmetic::div_mod::lemma_div_by_multiple(p.significand as int, e as int);
                vstd::arithmetic::div_mod::lemma_div_denominator(
                    p.units() as int,
                    e as int,
                    f as int,
                );
                vstd::arithmetic::div_mod::lemma_div_nonincreasing(
                    p.significand as int,
                    f as int,
                );
            }
            if k > 60 {
                proof {
                    lemma2_to64_rest();
                    lemma_pow2_strictly_increases(60, k as nat);
                    vstd::arithmetic::div_mod::lemma_small_div_converse(
                        p.significand as int,
                        pow2(k as nat) as int,
                    );
                    vstd::arithmetic::div_mod::lemma_basic_div(
                        p.significand as int,
                        pow2(k as nat) as int,
                    );
                }
                return 0;
            }
            let f: u128 = power_of_two(k);
            let n: u128 = (p.significand as u128) / f;
            n as u64
        }
    }

    /// `self * other`.
    pub fn times(self, other: Self) -> (r: Self)
        ensures
            r@ == product(self@, other@),
    {
        if self.is_nan() || other.is_nan() {
            return Binary64 { bits: NAN_BITS };
        }
        if self.is_infinite() || other.is_infinite() {
            if self.is_zero() || other.is_zero() {
                return Binary64 { bits: NAN_BITS };
            }
            let negative: bool = self.is_below_zero() != other.is_below_zero();
            return Self::infinite(negative);
        }
        let a = self.parts();
        let b = other.parts();
        let negative: bool = self.is_below_zero() != other.is_below_zero();
        proof {
            assert(a.significand * b.significand < 0x20_0000_0000_0000 * 0x20_0000_0000_0000)
                by (nonlinear_arith)
                requires
                    a.significand < 0x20_0000_0000_0000,
                    b.significand < 0x20_0000_0000_0000,
            ;
        }
        let m: u128 = (a.significand as u128) * (b.significand as u128);
        let t: i32 = a.exponent + b.exponent - 1074;
        proof {
            let x = a.significand as nat;
            let y = b.significand as nat;
            let e = pow2(a.exponent as nat);
            let f = pow2(b.exponent as nat);
            let p = units_per_one();
            let up = pow2_up(t as int);
            let down = pow2_down(t as int);
            lemma2_to64();
            lemma_pow2_pos(1074);
            lemma_pow2_adds(a.exponent as nat, b.exponent as nat);
            assert(e * f * down == p * up) by {
                if t >= 0 {
                    lemma_pow2_adds(1074, t as nat);
                    assert(1074 + t as nat == a.exponent as nat + b.exponent as nat);
                    assert(e * f * down == e * f) by (nonlinear_arith)
                        requires
                            down == 1,
                    ;
                } else {
                    lemma_pow2_adds(a.exponent as nat + b.exponent as nat, (-t) as nat);
                    assert(a.exponent as nat + b.exponent as nat + (-t) as nat == 1074);
                    assert(p * up == p) by (nonlinear_arith)
                        requires
                            up == 1,
                    ;
                }
            }
            assert((x * e) * (y * f) * down == (x * y) * (p * up)) by (nonlinear_arith)
                requires
                    e * f * down == p * up,
            ;
            Self::lemma_parts_magnitude(self@, a);
            Self::lemma_parts_magnitude(other@, b);
        }
        assemble(negative, m, t, false, Ghost(a.units() * b.units()), Ghost(units_per_one()))
    }

    /// `self / other`.
    pub fn over(self, other: Self) -> (r: Self)
        requires
            other@ != (Value::Finite { units: 0 }),
        ensures
            r@ == quotient(self@, other@),
    {
        if self.is_nan() || other.is_nan() {
            return Binary64 { bits: NAN_BITS };
        }
        let negative: bool = self.is_below_zero() != other.is_below_zero();
        if other.is_infinite() {
            return if self.is_infinite() {
                Binary64 { bits: NAN_BITS }
            } else {
                Binary64 { bits: 0 }
            };
        }
        if self.is_infinite() {
            return Self::infinite(negative);
        }
        let a = self.parts();
        let b = other.parts();
        let ghost num = a.units() * units_per_one();
        let ghost den = b.units();
        proof {
            lemma2_to64();
            lemma_pow2_pos(b.exponent as nat);
            lemma_pow2_pos(1074);
            Self::lemma_parts_magnitude(self@, a);
            Self::lemma_parts_magnitude(other@, b);
            assert(b.significand > 0 && den > 0) by {
                if b.significand == 0 {
                    assert(b.units() == 0) by (nonlinear_arith)
                        requires
                            b.units() == b.significand as nat * pow2(b.exponent as nat),
                            b.significand == 0,
                    ;
                }
            }
        }
        if a.significand == 0 {
            proof {
                assert(num == 0) by (nonlinear_arith)
                    requires
                        num == (a.significand as nat * pow2(a.exponent as nat)) * units_per_one(),
                        a.significand == 0,
                ;
                assert(0 * pow2_down(0) == 0 * (den * pow2_up(0))) by (nonlinear_arith);
            }
            return assemble(negative, 0, 0, false, Ghost(num), Ghost(den));
        }
        let len: i32 = bit_length(a.significand as u128);
        let k: i32 = 120 - len;
        proof {
            if len > 53 {
                lemma2_to64_rest();
                if len - 1 > 53 {
                    lemma_pow2_strictly_increases(53, (len - 1) as nat);
                }
            }
        }
        let f: u128 = power_of_two(k);
        proof {
            lemma_pow2_adds(len as nat, k as nat);
            lemma_pow2_adds((len - 1) as nat, k as nat);
            lemma_pow2_adds(64, 56);
            lemma_pow2_adds(64, 55);
            lemma2_to64_rest();
            assert(a.significand * f < pow2(120)) by (nonlinear_arith)
                requires
                    a.significand < pow2(len as nat),
                    pow2(120) == pow2(len as nat) * f,
                    f > 0,
            ;
            assert(a.significand * f >= pow2(119)) by (nonlinear_arith)
                requires
                    a.significand >= pow2((len - 1) as nat),
                    pow2(119) == pow2((len - 1) as nat) * f,
            ;
        }
        let shifted: u128 = (a.significand as u128) * f;
        let d: u128 = b.significand as u128;
        let q: u128 = shifted / d;
        let rem: u128 = shifted % d;
        let t: i32 = a.exponent - b.exponent + 1074 - k;
        proof {
            vstd::arithmetic::div_mod::lemma_fundamental_div_mod(shifted as int, d as int);
            vstd::arithmetic::div_mod::lemma_mod_bound(shifted as int, d as int);
            if q < 0x20_0000_0000_0000 {
                assert(shifted < 0x20_0000_0000_0000 * 0x20_0000_0000_0000) by (nonlinear_arith)
                    requires
                        shifted == d * q + rem,
                        rem < d,
                        d < 0x20_0000_0000_0000,
                        q < 0x20_0000_0000_0000,
                ;
            }
            let up = pow2_up(t as int);
            let down = pow2_down(t as int);
            let ae = pow2(a.exponent as nat);
            let be = pow2(b.exponent as nat);
            let p = units_per_one();
            lemma_pow2_pos(if t > 0 { t as nat } else { 0 });
            lemma_pow2_adds(a.exponent as nat, 1074);
            lemma_pow2_adds(b.exponent as nat, k as nat);
            assert(ae * p * down == be * f * up) by {
                if t >= 0 {
                    lemma_pow2_adds(b.exponent as nat + k as nat, t as nat);
                    assert(b.exponent as nat + k as nat + t as nat == a.exponent as nat + 1074);
                    assert(ae * p * down == ae * p) by (nonlinear_arith)
                        requires
                            down == 1,
                    ;
                } else {
                    lemma_pow2_adds(a.exponent as nat + 1074, (-t) as nat);
                    assert(a.exponent as nat + 1074 + (-t) as nat == b.exponent as nat + k as nat);
                    assert(be * f * up == be * f) by (nonlinear_arith)
                        requires
                            up == 1,
                    ;
                }
            }
            let e = be * up;
            assert(e > 0) by (nonlinear_arith)
                requires
                    e == be * up,
                    be > 0,
                    up > 0,
            ;
            let x = num * down;
            let unit = den * up;
            assert(x == shifted * e) by (nonlinear_arith)
                requires
                    x == ((a.significand as nat * ae) * p) * down,
                    ae * p * down == be * f * up,
                    shifted == a.significand * f,
                    e == be * up,
            ;
            assert(unit == d * e) by (nonlinear_arith)
                requires
                    unit == (b.significand as nat * be) * up,
                    d == b.significand,
                    e == be * up,
            ;
            assert(x == q * unit + rem * e) by (nonlinear_arith)
                requires
                    x == shifted * e,
                    shifted == d * q + rem,
                    unit == d * e,
            ;
            assert((q + 1) * unit == q * unit + d * e) by (nonlinear_arith)
                requires
                    unit == d * e,
            ;
            assert(rem * e < d * e) by (nonlinear_arith)
                requires
                    rem < d,
                    e > 0,
            ;
            assert((rem > 0 ==> rem * e > 0) && (rem == 0 ==> rem * e == 0)) by (nonlinear_arith)
                requires
                    e > 0,
            ;
        }
        assemble(negative, q, t, rem != 0, Ghost(num), Ghost(den))
    }

    /// The sign of a sum that rounds a magnitude of zero does not matter.
    proof fn lemma_rounded_sign(total: int, negative: bool)
        requires
            negative == (total < 0) || total == 0,
        ensures
            rounded_magnitude(negative, magnitude(total), 1) == rounded(total, 1),
    {
        if total == 0 {
            lemma_round_units_exact(0, 0, 1);
            lemma2_to64();
            lemma_pow2_pos(2098);
        }
    }

    /// Adds finite numbers, of which the first has the larger exponent.
    fn add_parts(hi: Parts, lo: Parts) -> (r: Self)
        requires
            hi.wf(),
            lo.wf(),
            hi.exponent >= lo.exponent,
        ensures
            r@ == rounded(
                with_sign(hi.negative, hi.units()) + with_sign(lo.negative, lo.units()),
                1,
            ),
    {
        let gap: i32 = hi.exponent - lo.exponent;
        let ghost total = with_sign(hi.negative, hi.units()) + with_sign(lo.negative, lo.units());
        let ghost le = pow2(lo.exponent as nat);
        let ghost he = pow2(hi.exponent as nat);
        proof {
            lemma2_to64();
            lemma_pow2_pos(lo.exponent as nat);
            lemma_pow2_pos(hi.exponent as nat);
            lemma_pow2_adds(lo.exponent as nat, gap as nat);
            assert(lo.exponent as nat + gap as nat == hi.exponent as nat);
        }
        if gap <= 70 {
            let f: u128 = power_of_two(gap);
            proof {
                lemma_pow2_adds(64, 6);
                if gap < 70 {
                    lemma_pow2_strictly_increases(gap as nat, 70);
                }
                lemma2_to64_rest();
                assert(hi.significand * f < 0x20_0000_0000_0000 * (0x1_0000_0000_0000_0000 * 0x40))
                    by (nonlinear_arith)
                    requires
                        hi.significand < 0x20_0000_0000_0000,
                        f <= 0x1_0000_0000_0000_0000 * 0x40,
                        f > 0,
                ;
            }
            let big: u128 = (hi.significand as u128) * f;
            let small: u128 = lo.significand as u128;
            proof {
                assert(hi.units() == big * le) by (nonlinear_arith)
                    requires
                        hi.units() == hi.significand as nat * he,
                        he == le * f,
                        big == hi.significand * f,
                ;
            }
            let negative: bool;
            let m: u128;
            if hi.negative == lo.negative {
                negative = hi.negative;
                m = big + small;
            } else if big >= small {
                negative = hi.negative;
                m = big - small;
            } else {
                negative = lo.negative;
                m = small - big;
            }
            proof {
                assert(m * le == magnitude(total)) by (nonlinear_arith)
                    requires
                        hi.units() == big * le,
                        lo.units() == small * le,
                        total == with_sign(hi.negative, hi.units()) + with_sign(
                            lo.negative,
                            lo.units(),
                        ),
                        hi.negative == lo.negative ==> m == big + small,
                        hi.negative != lo.negative && big >= small ==> m == big - small,
                        hi.negative != lo.negative && big < small ==> m == small - big,
                        le > 0,
                ;
                assert(negative == (total < 0) || total == 0) by (nonlinear_arith)
                    requires
                        hi.units() == big * le,
                        lo.units() == small * le,
                        total == with_sign(hi.negative, hi.units()) + with_sign(
                            lo.negative,
                            lo.units(),
                        ),
                        negative == if hi.negative == lo.negative || big >= small {
                            hi.negative
                        } else {
                            lo.negative
                        },
                        le > 0,
                ;
                Self::lemma_rounded_sign(total, negative);
                assert((m * le) * 1 == m * (1 * le));
            }
            assemble(negative, m, lo.exponent, false, Ghost(magnitude(total)), Ghost(1))
        } else if lo.significand == 0 {
            proof {
                assert(lo.units() == 0) by (nonlinear_arith)
                    requires
                        lo.units() == lo.significand as nat * le,
                        lo.significand == 0,
                ;
                Self::lemma_rounded_sign(total, hi.negative);
                assert((hi.significand * he) * 1 == hi.significand * (1 * he));
            }
            assemble(
                hi.negative,
                hi.significand as u128,
                hi.exponent,
                false,
                Ghost(magnitude(total)),
                Ghost(1),
            )
        } else {
            let t: i32 = hi.exponent - 10;
            let wide: u128 = (hi.significand as u128) * 1024;
            let ghost te = pow2(t as nat);
            proof {
                lemma_pow2_adds(10, t as nat);
                assert(10 + t as nat == hi.exponent as nat);
                lemma_pow2_adds(53, lo.exponent as nat);
                lemma2_to64_rest();
                lemma_pow2_strictly_increases(53 + lo.exponent as nat, t as nat);
                lemma_pow2_pos(t as nat);
                assert(0 < lo.units() < te) by (nonlinear_arith)
                    requires
                        lo.units() == lo.significand as nat * le,
                        0 < lo.significand < 0x20_0000_0000_0000,
                        0x20_0000_0000_0000 * le < te,
                        le > 0,
                ;
                assert(hi.units() == wide * te) by (nonlinear_arith)
                    requires
                        hi.units() == hi.significand as nat * he,
                        he == 1024 * te,
                        wide == hi.significand * 1024,
                ;
                assert(wide * te >= te) by (nonlinear_arith)
                    requires
                        wide >= 1,
                        te > 0,
                ;
                assert((wide + 1) * te == wide * te + te) by (nonlinear_arith);
                assert((wide - 1) * te == wide * te - te) by (nonlinear_arith);
                Self::lemma_rounded_sign(total, hi.negative);
                assert(magnitude(total) * 1 == magnitude(total));
                assert(1 * te == te);
            }
            let m: u128 = if hi.negative == lo.negative {
                wide
            } else {
                wide - 1
            };
            assemble(hi.negative, m, t, true, Ghost(magnitude(total)), Ghost(1))
        }
    }

    /// `self + other`.
    pub fn plus(self, other: Self) -> (r: Self)
        ensures
            r@ == sum(self@, other@),
    {
        if self.is_nan() || other.is_nan() {
            return Binary64 { bits: NAN_BITS };
        }
        if self.is_infinite() {
            if other.is_infinite() && self.is_below_zero() != other.is_below_zero() {
                return Binary64 { bits: NAN_BITS };
            }
            return self;
        }
        if other.is_infinite() {
            return other;
        }
        let a = self.parts();
        let b = other.parts();
        if a.exponent >= b.exponent {
            Self::add_parts(a, b)
        } else {
            Self::add_parts(b, a)
        }
    }

    /// `self - other`.
    pub fn minus(self, other: Self) -> (r: Self)
        ensures
            r@ == difference(self@, other@),
    {
        self.plus(other.negate())
    }

    /// The magnitude of a number that was taken apart.
    proof fn lemma_parts_magnitude(v: Value, p: Parts)
        requires
            v == (Value::Finite { units: with_sign(p.negative, p.units()) }),
        ensures
            magnitude(v->units) == p.units(),
    {
    }

    fn infinite(negative: bool) -> (r: Self)
        ensures
            r@ == (Value::Infinite { negative }),
    {
        if negative {
            Binary64 { bits: SIGN_BIT + INFINITY_BITS }
        } else {
            Binary64 { bits: INFINITY_BITS }
        }
    }

    /// Whether the number lies below zero.
    fn is_below_zero(self) -> (r: bool)
        ensures
            r == is_negative(self@),
    {
        proof {
            if self.spec_bits() % 0x8000_0000_0000_0000 > 0 {
                lemma_magnitude_increases(0, (self.spec_bits() % 0x8000_0000_0000_0000) as nat);
            }
        }
        self.bits > SIGN_BIT && !self.is_nan()
    }
}

} // verus!
