//! Rounding to the nearest double-precision number.
//!
//! Every finite double is a whole multiple of the smallest positive one, two to
//! the power of -1074. Magnitudes are therefore counted in that unit: a finite
//! double is an integer, and an exact result that may need rounding is a
//! fraction `num / den` of units.

use vstd::arithmetic::div_mod::{lemma_fundamental_div_mod, lemma_fundamental_div_mod_converse};
use vstd::arithmetic::power2::{
    lemma2_to64, lemma2_to64_rest, lemma_pow2_adds, lemma_pow2_pos, lemma_pow2_strictly_increases,
    lemma_pow2_unfold, pow2,
};
use vstd::prelude::*;

verus! {

/// How many units make one.
pub open spec fn units_per_one() -> nat {
    pow2(1074)
}

/// The first magnitude, in units, that is too large for a finite double.
pub open spec fn overflow_units() -> nat {
    pow2(2098)
}

/// How often `q` has to be halved before it fits into a 53-bit significand:
/// doubles of that size are `pow2(spacing(q))` units apart.
pub open spec fn spacing(q: nat) -> nat
    decreases q,
{
    if q < 0x20_0000_0000_0000 {
        0
    } else {
        1 + spacing(q / 2)
    }
}

/// The integer nearest to `num / den`; of two equally near ones the even one.
pub open spec fn nearest_even(num: int, den: int) -> int {
    let q = num / den;
    let r = num % den;
    if 2 * r < den || (2 * r == den && q % 2 == 0) {
        q
    } else {
        q + 1
    }
}

/// The magnitude nearest to `num / den` units that a 53-bit significand can
/// hold, with no bound on how large it may be.
pub open spec fn round_units(num: nat, den: nat) -> nat {
    let s = spacing(num / den);
    (nearest_even(num as int, (den * pow2(s)) as int) * pow2(s)) as nat
}

/// An integer is nearest (ties to even) if it is no further than half away,
/// and even where it is exactly half away.
pub proof fn lemma_nearest_even_unique(num: int, den: int, n: int)
    requires
        den > 0,
        -den <= 2 * (num - n * den) <= den,
        (2 * (num - n * den) == den || 2 * (num - n * den) == -den) ==> n % 2 == 0,
    ensures
        nearest_even(num, den) == n,
{
    let d = num - n * den;
    if d >= 0 {
        assert(num == den * n + d) by (nonlinear_arith)
            requires
                d == num - n * den,
        ;
        lemma_fundamental_div_mod_converse(num, den, n, d);
    } else {
        assert(num == den * (n - 1) + (den + d)) by (nonlinear_arith)
            requires
                d == num - n * den,
        ;
        lemma_fundamental_div_mod_converse(num, den, n - 1, den + d);
    }
}

/// The converse: what `nearest_even` returns is at most half away, and even in
/// a tie.
pub proof fn lemma_nearest_even_bounds(num: int, den: int)
    requires
        den > 0,
    ensures
        -den <= 2 * (num - nearest_even(num, den) * den) <= den,
        (2 * (num - nearest_even(num, den) * den) == den || 2 * (num - nearest_even(num, den) * den)
            == -den) ==> nearest_even(num, den) % 2 == 0,
        num >= 0 ==> nearest_even(num, den) >= 0,
{
    let q = num / den;
    let r = num % den;
    lemma_fundamental_div_mod(num, den);
    vstd::arithmetic::div_mod::lemma_mod_bound(num, den);
    assert(num - q * den == r) by (nonlinear_arith)
        requires
            num == den * q + r,
    ;
    assert(num - (q + 1) * den == r - den) by (nonlinear_arith)
        requires
            num == den * q + r,
    ;
    if num >= 0 {
        vstd::arithmetic::div_mod::lemma_div_pos_is_pos(num, den);
    }
}

/// `nearest_even` does not shrink when the number does not.
pub proof fn lemma_nearest_even_monotone(a: int, b: int, den: int)
    requires
        den > 0,
        a <= b,
    ensures
        nearest_even(a, den) <= nearest_even(b, den),
{
    lemma_nearest_even_bounds(a, den);
    lemma_nearest_even_bounds(b, den);
    let m = nearest_even(a, den);
    let n = nearest_even(b, den);
    if n < m {
        assert(m * den >= n * den + den) by (nonlinear_arith)
            requires
                n + 1 <= m,
                den > 0,
        ;
        if m > n + 1 {
            assert(m * den >= n * den + 2 * den) by (nonlinear_arith)
                requires
                    n + 2 <= m,
                    den > 0,
            ;
        }
    }
}

/// A multiple of the denominator is its own nearest integer.
pub proof fn lemma_nearest_even_exact(n: int, den: int)
    requires
        den > 0,
    ensures
        nearest_even(n * den, den) == n,
{
    lemma_nearest_even_unique(n * den, den, n);
}

/// `spacing(q)` is the one `s` for which `q` has its leading bit just below
/// `53 + s`, or zero where `q` needs no more than 53 bits.
pub proof fn lemma_spacing_unique(q: nat, s: nat)
    requires
        q < pow2(53 + s),
        s > 0 ==> q >= pow2((52 + s) as nat),
    ensures
        spacing(q) == s,
    decreases s,
{
    lemma2_to64_rest();
    if s == 0 {
    } else {
        lemma_pow2_unfold(53 + s);
        lemma_pow2_unfold((52 + s) as nat);
        if s > 1 {
            lemma_pow2_unfold((51 + s) as nat);
            lemma_spacing_bound_grows((52 + s) as nat);
        }
        assert(q >= 0x20_0000_0000_0000);
        lemma_spacing_unique(q / 2, (s - 1) as nat);
    }
}

proof fn lemma_spacing_bound_grows(e: nat)
    requires
        e >= 53,
    ensures
        pow2(e) >= 0x20_0000_0000_0000,
{
    lemma2_to64_rest();
    if e > 53 {
        lemma_pow2_strictly_increases(53, e);
    }
}

/// The converse of [`lemma_spacing_unique`].
pub proof fn lemma_spacing_bounds(q: nat)
    ensures
        q < pow2(53 + spacing(q)),
        spacing(q) > 0 ==> q >= pow2((52 + spacing(q)) as nat),
    decreases q,
{
    lemma2_to64_rest();
    if q < 0x20_0000_0000_0000 {
    } else {
        lemma_spacing_bounds(q / 2);
        let s = spacing(q / 2);
        assert(spacing(q) == s + 1);
        lemma_pow2_unfold((54 + s) as nat);
        lemma_pow2_unfold((53 + s) as nat);
        assert((53 + (s + 1)) as nat == (54 + s) as nat);
        assert((52 + (s + 1)) as nat == (53 + s) as nat);
    }
}

/// A common factor does not change the nearest integer.
pub proof fn lemma_nearest_even_scale(num: int, den: int, k: int)
    requires
        den > 0,
        k > 0,
    ensures
        nearest_even(num * k, den * k) == nearest_even(num, den),
{
    let n = nearest_even(num, den);
    lemma_nearest_even_bounds(num, den);
    let e = num - n * den;
    assert(num * k - n * (den * k) == e * k) by (nonlinear_arith)
        requires
            e == num - n * den,
    ;
    assert(den * k > 0) by (nonlinear_arith)
        requires
            den > 0,
            k > 0,
    ;
    assert(-(den * k) <= 2 * (e * k) <= den * k) by (nonlinear_arith)
        requires
            -den <= 2 * e <= den,
            k > 0,
    ;
    assert(2 * (e * k) == den * k ==> 2 * e == den) by (nonlinear_arith)
        requires
            k > 0,
    ;
    assert(2 * (e * k) == -(den * k) ==> 2 * e == -den) by (nonlinear_arith)
        requires
            k > 0,
    ;
    lemma_nearest_even_unique(num * k, den * k, n);
}

/// A quotient lies below a bound exactly if the numerator does.
pub proof fn lemma_quotient_below(num: nat, den: nat, bound: nat)
    requires
        den > 0,
    ensures
        num / den < bound <==> num < den * bound,
{
    let q = num / den;
    lemma_fundamental_div_mod(num as int, den as int);
    vstd::arithmetic::div_mod::lemma_mod_bound(num as int, den as int);
    if q < bound {
        assert(den * bound >= den * (q + 1)) by (nonlinear_arith)
            requires
                bound >= q + 1,
                den > 0,
        ;
        assert(den * (q + 1) == den * q + den) by (nonlinear_arith);
    } else {
        assert(den * bound <= den * q) by (nonlinear_arith)
            requires
                bound <= q,
                den > 0,
        ;
    }
}

/// What rounding to 53 bits gives: a multiple of the spacing, at most half a
/// spacing away, between the bounds that the spacing belongs to.
pub proof fn lemma_round_units_bounds(num: nat, den: nat)
    requires
        den > 0,
    ensures
        ({
            let s = spacing(num / den);
            let n = nearest_even(num as int, (den * pow2(s)) as int);
            &&& round_units(num, den) == n * pow2(s)
            &&& 0 <= n <= 0x20_0000_0000_0000
            &&& s > 0 ==> n >= 0x10_0000_0000_0000
            &&& -(den * pow2(s)) <= 2 * (num - round_units(num, den) * den) <= den * pow2(s)
            &&& num < den * pow2(53 + s)
            &&& s > 0 ==> num >= den * pow2((52 + s) as nat)
        }),
{
    let q = num / den;
    let s = spacing(q);
    let p = pow2(s);
    let step = den * p;
    lemma_pow2_pos(s);
    assert(step > 0) by (nonlinear_arith)
        requires
            step == den * p,
            den > 0,
            p > 0,
    ;
    lemma_spacing_bounds(q);
    lemma_quotient_below(num, den, pow2(53 + s));
    lemma_quotient_below(num, den, pow2((52 + s) as nat));
    let n = nearest_even(num as int, step as int);
    lemma_nearest_even_bounds(num as int, step as int);
    assert(n * step == (n * p) * den) by (nonlinear_arith)
        requires
            step == den * p,
    ;
    lemma2_to64_rest();
    lemma_pow2_adds(53, s);
    assert(den * pow2(53 + s) == 0x20_0000_0000_0000 * step) by (nonlinear_arith)
        requires
            pow2(53 + s) == 0x20_0000_0000_0000 * p,
            step == den * p,
    ;
    lemma_nearest_even_exact(0x20_0000_0000_0000, step as int);
    lemma_nearest_even_monotone(num as int, (0x20_0000_0000_0000 * step) as int, step as int);
    if s > 0 {
        lemma_pow2_adds(52, s);
        assert(den * pow2((52 + s) as nat) == 0x10_0000_0000_0000 * step) by (nonlinear_arith)
            requires
                pow2((52 + s) as nat) == 0x10_0000_0000_0000 * p,
                step == den * p,
        ;
        lemma_nearest_even_exact(0x10_0000_0000_0000, step as int);
        lemma_nearest_even_monotone((0x10_0000_0000_0000 * step) as int, num as int, step as int);
    }
    assert(n * p >= 0) by (nonlinear_arith)
        requires
            n >= 0,
            p > 0,
    ;
}

/// Rounding keeps order: a larger exact result is never rounded to a smaller
/// double.
pub proof fn lemma_round_units_monotone(num1: nat, den1: nat, num2: nat, den2: nat)
    requires
        den1 > 0,
        den2 > 0,
        num1 * den2 <= num2 * den1,
    ensures
        round_units(num1, den1) <= round_units(num2, den2),
{
    let s1 = spacing(num1 / den1);
    let s2 = spacing(num2 / den2);
    lemma_round_units_bounds(num1, den1);
    lemma_round_units_bounds(num2, den2);
    let n1 = nearest_even(num1 as int, (den1 * pow2(s1)) as int);
    let n2 = nearest_even(num2 as int, (den2 * pow2(s2)) as int);
    lemma_pow2_pos(s1);
    lemma_pow2_pos(s2);
    if s1 == s2 {
        let p = pow2(s1) as int;
        let c1 = den1 * p;
        let c2 = den2 * p;
        assert(c1 > 0 && c2 > 0) by (nonlinear_arith)
            requires
                c1 == den1 * p,
                c2 == den2 * p,
                den1 > 0,
                den2 > 0,
                p > 0,
        ;
        lemma_nearest_even_scale(num1 as int, c1, den2 as int);
        lemma_nearest_even_scale(num2 as int, c2, den1 as int);
        assert(c1 * den2 == c2 * den1) by (nonlinear_arith)
            requires
                c1 == den1 * p,
                c2 == den2 * p,
        ;
        assert(c1 * den2 > 0) by (nonlinear_arith)
            requires
                c1 > 0,
                den2 > 0,
        ;
        lemma_nearest_even_monotone((num1 * den2) as int, (num2 * den1) as int, c1 * den2);
        assert(n1 * p <= n2 * p) by (nonlinear_arith)
            requires
                n1 <= n2,
                p > 0,
        ;
    } else if s1 < s2 {
        lemma2_to64_rest();
        lemma_pow2_adds(53, s1);
        lemma_pow2_adds(52, s2);
        if 53 + s1 < 52 + s2 {
            lemma_pow2_strictly_increases(53 + s1, (52 + s2) as nat);
        }
        assert(n1 * pow2(s1) <= 0x20_0000_0000_0000 * pow2(s1)) by (nonlinear_arith)
            requires
                n1 <= 0x20_0000_0000_0000,
                pow2(s1) > 0,
        ;
        assert(n2 * pow2(s2) >= 0x10_0000_0000_0000 * pow2(s2)) by (nonlinear_arith)
            requires
                n2 >= 0x10_0000_0000_0000,
                pow2(s2) > 0,
        ;
    } else {
        // The larger fraction would lie in a lower binade than the smaller one.
        let hi = pow2((52 + s1) as nat);
        let lo = pow2(53 + s2);
        if 53 + s2 < 52 + s1 {
            lemma_pow2_strictly_increases(53 + s2, (52 + s1) as nat);
        }
        assert(hi >= lo);
        assert(num1 * den2 >= (den1 * hi) * den2) by (nonlinear_arith)
            requires
                num1 >= den1 * hi,
        ;
        assert(num2 * den1 < (den2 * lo) * den1) by (nonlinear_arith)
            requires
                num2 < den2 * lo,
                den1 > 0,
        ;
        assert((den2 * lo) * den1 <= (den1 * hi) * den2) by (nonlinear_arith)
            requires
                lo <= hi,
                den1 > 0,
                den2 > 0,
        ;
    }
}

/// A magnitude with a 53-bit significand is its own rounding.
pub proof fn lemma_round_units_exact(n: nat, k: nat, den: nat)
    requires
        den > 0,
        n <= 0x20_0000_0000_0000,
    ensures
        round_units(n * pow2(k) * den, den) == n * pow2(k),
    decreases n,
{
    lemma2_to64_rest();
    if n == 0x20_0000_0000_0000 {
        lemma_pow2_unfold((k + 1) as nat);
        assert(n * pow2(k) == 0x10_0000_0000_0000 * pow2((k + 1) as nat));
        lemma_round_units_exact(0x10_0000_0000_0000, (k + 1) as nat, den);
    } else {
        let u = n * pow2(k);
        vstd::arithmetic::div_mod::lemma_div_by_multiple(u as int, den as int);
        let s = spacing(u);
        lemma_spacing_bounds(u);
        lemma_pow2_pos(k);
        lemma_pow2_pos(s);
        lemma_pow2_adds(53, k);
        assert(u < pow2(53 + k)) by (nonlinear_arith)
            requires
                u == n * pow2(k),
                n < 0x20_0000_0000_0000,
                pow2(53 + k) == 0x20_0000_0000_0000 * pow2(k),
                pow2(k) > 0,
        ;
        if s > k {
            if 53 + k < 52 + s {
                lemma_pow2_strictly_increases(53 + k, (52 + s) as nat);
            }
            assert(false);
        }
        let f = pow2((k - s) as nat);
        lemma_pow2_adds((k - s) as nat, s);
        assert((k - s) as nat + s == k);
        let step = den * pow2(s);
        assert(step > 0) by (nonlinear_arith)
            requires
                step == den * pow2(s),
                den > 0,
                pow2(s) > 0,
        ;
        assert(u * den == (n * f) * step) by (nonlinear_arith)
            requires
                u == n * pow2(k),
                pow2(k) == f * pow2(s),
                step == den * pow2(s),
        ;
        lemma_nearest_even_exact((n * f) as int, step as int);
        assert((n * f) * pow2(s) == u) by (nonlinear_arith)
            requires
                u == n * pow2(k),
                pow2(k) == f * pow2(s),
        ;
    }
}

/// Rounding is off by at most one part in 2^53 of the exact result, once that
/// is large enough to have a full significand.
pub proof fn lemma_round_units_error(num: nat, den: nat)
    requires
        den > 0,
        num >= den * 0x10_0000_0000_0000,
    ensures
        0x20_0000_0000_0000 * (round_units(num, den) * den - num) <= num,
        0x20_0000_0000_0000 * (num - round_units(num, den) * den) <= num,
{
    lemma_round_units_bounds(num, den);
    let s = spacing(num / den);
    let p = pow2(s);
    lemma2_to64_rest();
    lemma2_to64();
    if s > 0 {
        lemma_pow2_adds(52, s);
    }
    assert(0x10_0000_0000_0000 * (den * p) <= num) by (nonlinear_arith)
        requires
            num >= den * (0x10_0000_0000_0000 * p),
    ;
}

/// Rounding is off by at most one part in 2^53, or one unit.
pub proof fn lemma_round_units_close(num: nat, den: nat)
    requires
        den > 0,
    ensures
        0x20_0000_0000_0000 * (round_units(num, den) * den - num) <= num + 0x20_0000_0000_0000
            * den,
        0x20_0000_0000_0000 * (num - round_units(num, den) * den) <= num + 0x20_0000_0000_0000
            * den,
{
    lemma_round_units_bounds(num, den);
    let s = spacing(num / den);
    let p = pow2(s);
    lemma2_to64();
    lemma2_to64_rest();
    if s > 0 {
        lemma_pow2_adds(52, s);
        assert(0x10_0000_0000_0000 * (den * p) <= num) by (nonlinear_arith)
            requires
                num >= den * (0x10_0000_0000_0000 * p),
        ;
    } else {
        assert(den * p == den) by (nonlinear_arith)
            requires
                p == 1,
        ;
    }
}

/// Two to the power of `t` where `t` is positive, else one.
pub open spec fn pow2_up(t: int) -> nat {
    pow2(if t > 0 {
        t as nat
    } else {
        0
    })
}

/// Two to the power of `-t` where `t` is negative, else one.
pub open spec fn pow2_down(t: int) -> nat {
    pow2_up(-t)
}

/// The exact magnitude `num / den` is `m` times two to the power of `t`, or
/// with `sticky` lies strictly between that and the next multiple.
pub open spec fn brackets(num: nat, den: nat, m: nat, t: int, sticky: bool) -> bool {
    let unit = den * pow2_up(t);
    let x = num * pow2_down(t);
    if sticky {
        m * unit < x < (m + 1) * unit
    } else {
        x == m * unit
    }
}

/// The spacing of a bracketed magnitude follows from the length of `m` in bits.
pub proof fn lemma_bracket_spacing(num: nat, den: nat, m: nat, t: int, sticky: bool, len: nat)
    requires
        den > 0,
        m > 0,
        brackets(num, den, m, t, sticky),
        pow2((len - 1) as nat) <= m < pow2(len),
        len >= 1,
    ensures
        spacing(num / den) == if len + t > 53 {
            (len + t - 53) as nat
        } else {
            0
        },
{
    let s = if len + t > 53 {
        (len + t - 53) as nat
    } else {
        0
    };
    let up = pow2_up(t);
    let down = pow2_down(t);
    let unit = den * up;
    let x = num * down;
    lemma2_to64();
    lemma_pow2_pos(if t > 0 { t as nat } else { 0 });
    lemma_pow2_pos(if -t > 0 { (-t) as nat } else { 0 });
    assert(up > 0 && down > 0);
    // num * down < den * up * 2^len and den * up * 2^(len - 1) <= num * down
    assert(x < pow2(len) * unit) by (nonlinear_arith)
        requires
            x < (m + 1) * unit || x == m * unit,
            m + 1 <= pow2(len),
            unit == den * up,
            den > 0,
            up > 0,
    ;
    assert(x >= pow2((len - 1) as nat) * unit) by (nonlinear_arith)
        requires
            x >= m * unit,
            m >= pow2((len - 1) as nat),
    ;
    let b = pow2(53 + s);
    assert(pow2(len) * up <= b * down) by {
        if t >= 0 {
            lemma_pow2_adds(len, t as nat);
            if len + t < 53 + s {
                lemma_pow2_strictly_increases((len + t) as nat, 53 + s);
            }
        } else {
            lemma_pow2_adds(53 + s, (-t) as nat);
            if len < 53 + s - t {
                lemma_pow2_strictly_increases(len, (53 + s - t) as nat);
            }
            assert(53 + s + ((-t) as nat) == (53 + s - t) as nat);
        }
    }
    assert(num < den * b) by (nonlinear_arith)
        requires
            num * down < pow2(len) * (den * up),
            pow2(len) * up <= b * down,
            den > 0,
            down > 0,
    ;
    lemma_quotient_below(num, den, b);
    if s > 0 {
        let c = pow2((52 + s) as nat);
        assert(pow2((len - 1) as nat) * up == c * down) by {
            if t >= 0 {
                lemma_pow2_adds((len - 1) as nat, t as nat);
                assert((len - 1) as nat + t as nat == (52 + s) as nat);
            } else {
                lemma_pow2_adds((52 + s) as nat, (-t) as nat);
                assert((52 + s) as nat + (-t) as nat == (len - 1) as nat);
            }
        }
        assert(num >= den * c) by (nonlinear_arith)
            requires
                num * down >= pow2((len - 1) as nat) * (den * up),
                pow2((len - 1) as nat) * up == c * down,
                den > 0,
                down > 0,
        ;
        lemma_quotient_below(num, den, c);
    }
    lemma_spacing_unique(num / den, s);
}

/// Rounding a bracketed magnitude at a spacing finer than its own unit is exact.
pub proof fn lemma_bracket_exact(num: nat, den: nat, m: nat, t: int, s: nat)
    requires
        den > 0,
        brackets(num, den, m, t, false),
        s <= t,
    ensures
        nearest_even(num as int, (den * pow2(s)) as int) == m * pow2((t - s) as nat),
{
    lemma2_to64();
    let f = pow2((t - s) as nat);
    let p = pow2(s);
    lemma_pow2_adds((t - s) as nat, s);
    assert((t - s) as nat + s == t as nat);
    lemma_pow2_pos(s);
    let step = den * p;
    assert(step > 0) by (nonlinear_arith)
        requires
            step == den * p,
            den > 0,
            p > 0,
    ;
    assert(num == (m * f) * step) by (nonlinear_arith)
        requires
            num * 1 == m * (den * (f * p)),
            step == den * p,
    ;
    lemma_nearest_even_exact((m * f) as int, step as int);
}

/// Rounding a bracketed magnitude at a coarser spacing only takes the bits of
/// `m` that are dropped, and whether anything lies below them.
pub proof fn lemma_bracket_round(
    num: nat,
    den: nat,
    m: nat,
    t: int,
    sticky: bool,
    s: nat,
    d: nat,
    q: nat,
    rem: nat,
)
    requires
        den > 0,
        brackets(num, den, m, t, sticky),
        d == s - t,
        d >= 1,
        m == q * pow2(d) + rem,
        rem < pow2(d),
    ensures
        ({
            let half = pow2((d - 1) as nat);
            nearest_even(num as int, (den * pow2(s)) as int) == if rem > half || (rem == half && (
            sticky || q % 2 == 1)) {
                (q + 1) as int
            } else {
                q as int
            }
        }),
{
    let up = pow2_up(t);
    let down = pow2_down(t);
    let p = pow2(d);
    let half = pow2((d - 1) as nat);
    lemma2_to64();
    lemma_pow2_unfold(d);
    lemma_pow2_pos((d - 1) as nat);
    lemma_pow2_pos(s);
    lemma_pow2_pos(if t > 0 { t as nat } else { 0 });
    lemma_pow2_pos(if -t > 0 { (-t) as nat } else { 0 });
    assert(pow2(s) * down == up * p) by {
        if t >= 0 {
            lemma_pow2_adds(t as nat, d);
            assert(t as nat + d == s);
            assert(pow2(s) * down == pow2(s)) by (nonlinear_arith)
                requires
                    down == 1,
            ;
        } else {
            lemma_pow2_adds(s, (-t) as nat);
            assert(s + ((-t) as nat) == d);
            assert(up * p == p) by (nonlinear_arith)
                requires
                    up == 1,
            ;
        }
    }
    let unit = (den * up) as int;
    let x = (num * down) as int;
    let big = unit * p;
    let f = x - m * unit;
    assert(unit > 0) by (nonlinear_arith)
        requires
            unit == den * up,
            den > 0,
            up > 0,
    ;
    assert(0 <= f < unit && (f == 0 <==> !sticky)) by (nonlinear_arith)
        requires
            f == x - m * unit,
            unit > 0,
            sticky ==> m * unit < x < (m + 1) * unit,
            !sticky ==> x == m * unit,
    ;
    assert(big > 0) by (nonlinear_arith)
        requires
            big == unit * p,
            unit > 0,
            p > 0,
    ;
    // The scaled problem: x against multiples of big == den * 2^s * down.
    let step = (den * pow2(s)) as int;
    assert(step * down == big) by (nonlinear_arith)
        requires
            step == den * pow2(s),
            pow2(s) * down == up * p,
            unit == den * up,
            big == unit * p,
    ;
    assert(step > 0) by (nonlinear_arith)
        requires
            step == den * pow2(s),
            den > 0,
            pow2(s) > 0,
    ;
    lemma_nearest_even_scale(num as int, step, down as int);
    assert(x - q * big == rem * unit + f) by (nonlinear_arith)
        requires
            f == x - m * unit,
            m == q * p + rem,
            big == unit * p,
    ;
    assert(big == 2 * (half * unit)) by (nonlinear_arith)
        requires
            big == unit * p,
            p == 2 * half,
    ;
    assert(x - (q + 1) * big == rem * unit + f - big) by (nonlinear_arith)
        requires
            x - q * big == rem * unit + f,
    ;
    if rem > half {
        assert(rem * unit >= half * unit + unit) by (nonlinear_arith)
            requires
                rem >= half + 1,
                unit > 0,
        ;
        assert(rem * unit + unit <= 2 * (half * unit)) by (nonlinear_arith)
            requires
                rem + 1 <= 2 * half,
                unit > 0,
        ;
        lemma_nearest_even_unique(x, big, (q + 1) as int);
    } else if rem == half {
        assert(rem * unit == half * unit);
        assert(half * unit >= unit) by (nonlinear_arith)
            requires
                half >= 1,
                unit > 0,
        ;
        if sticky || q % 2 == 1 {
            lemma_nearest_even_unique(x, big, (q + 1) as int);
        } else {
            lemma_nearest_even_unique(x, big, q as int);
        }
    } else {
        assert(rem * unit + unit <= half * unit) by (nonlinear_arith)
            requires
                rem + 1 <= half,
                unit > 0,
        ;
        assert(rem * unit >= 0) by (nonlinear_arith)
            requires
                unit > 0,
        ;
        lemma_nearest_even_unique(x, big, q as int);
    }
}

} // verus!
