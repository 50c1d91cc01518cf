//! Laws of the inbound throughput: bits over time, in whole numbers.

use crate::clock::seconds;
use crate::config::{EIGHT, MIN_THROUGHPUT_SECONDS};
use crate::decimals::law_fractions;
use crate::laws::lemma_cancel;
use crate::relay::throughput;
use crate::rounding::{
    lemma_round_units_close, lemma_round_units_exact, lemma_round_units_monotone, round_units,
    units_per_one,
};
use crate::value::{
    decoded, larger, lemma_exact_int, lemma_of_int_in_range, lemma_product_at_most,
    lemma_round_at_most, less, of_int, product, quotient, Value,
};
use vstd::arithmetic::div_mod::lemma_fundamental_div_mod;
use vstd::arithmetic::power2::{
    lemma2_to64, lemma2_to64_rest, lemma_pow2_adds, lemma_pow2_pos, lemma_pow2_strictly_increases,
    pow2,
};
use vstd::prelude::*;

verus! {

/// The units of a number of nanoseconds in seconds.
spec fn second_units(nanos: nat) -> nat {
    let rest = (nanos % 1_000_000_000) as nat;
    let whole = (nanos / 1_000_000_000) as nat;
    round_units(
        whole * units_per_one() + round_units(rest * units_per_one(), 1_000_000_000),
        1,
    )
}

/// Whole seconds and a fraction, as one number.
proof fn lemma_seconds(nanos: nat)
    requires
        nanos <= u64::MAX,
    ensures
        seconds(nanos) == (Value::Finite { units: second_units(nanos) as int }),
        second_units(nanos) <= pow2(1110),
        0x20_0000_0000_0000 * (1_000_000_000 * second_units(nanos)) <= 0x20_0000_0000_0003 * (nanos
            * units_per_one()) + 4 * (0x20_0000_0000_0000 * 1_000_000_000),
        0x20_0000_0000_0000 * (1_000_000_000 * second_units(nanos)) + 4 * (0x20_0000_0000_0000
            * 1_000_000_000) >= 0x1f_ffff_ffff_fffe * (nanos * units_per_one()),
{
    let u = units_per_one();
    let whole = (nanos / 1_000_000_000) as nat;
    let rest = (nanos % 1_000_000_000) as nat;
    let x = (rest * u) as nat;
    let g = (1_000_000_000 * u) as nat;
    let q = round_units(x, 1_000_000_000);
    let z = (whole * u + q) as nat;
    let s = round_units(z, 1);
    lemma_pow2_pos(1074);
    lemma2_to64();
    lemma2_to64_rest();
    lemma_pow2_adds(30, 1074);
    lemma_pow2_adds(35, 1074);
    lemma_pow2_adds(1, 1109);
    lemma_exact_int(whole);
    lemma_exact_int(rest);
    lemma_exact_int(1_000_000_000);
    assert(of_int(1_000_000_000) == (Value::Finite { units: g as int }));
    // Scaling both by the same amount does not change the quotient.
    assert(x * u * 1_000_000_000 == x * g) by (nonlinear_arith)
        requires
            g == 1_000_000_000 * u,
    ;
    assert(g > 0);
    lemma_round_units_monotone((x * u) as nat, g, x, 1_000_000_000);
    lemma_round_units_monotone(x, 1_000_000_000, (x * u) as nat, g);
    assert(rest * u >= 0 && whole * u >= 0) by (nonlinear_arith)
        requires
            rest >= 0,
            whole >= 0,
            u > 0,
    ;
    assert(x <= 1_000_000_000 * u) by (nonlinear_arith)
        requires
            x == rest * u,
            rest <= 1_000_000_000,
    ;
    lemma_round_at_most(x, 1_000_000_000, 1, 1074);
    assert(1 * pow2(1074) * 1_000_000_000 == 1_000_000_000 * u);
    assert(1 * pow2(1074) == u);
    assert(quotient(of_int(rest as int), of_int(1_000_000_000)) == (Value::Finite {
        units: q as int,
    }));
    assert(whole * u <= 0x7_ffff_ffff * u) by (nonlinear_arith)
        requires
            whole <= 0x7_ffff_ffff,
    ;
    assert(z <= pow2(1109));
    lemma_round_at_most(z, 1, 1, 1109);
    assert(1 * pow2(1109) * 1 == pow2(1109));
    assert(s == second_units(nanos));
    // The errors of the two roundings.
    lemma_round_units_close(x, 1_000_000_000);
    lemma_round_units_close(z, 1);
    assert(1_000_000_000 * (whole * u) + x == nanos * u) by (nonlinear_arith)
        requires
            nanos == 1_000_000_000 * whole + rest,
            x == rest * u,
    ;
    assert(x <= nanos * u);
}

/// Less than a millisecond is less than the double of a millisecond, more is more.
proof fn lemma_milliseconds(nanos: nat)
    requires
        nanos <= u64::MAX,
    ensures
        decoded(MIN_THROUGHPUT_SECONDS) == (Value::Finite {
            units: (0x10_624d_d2f1_a9fc * pow2(1012)) as int,
        }),
        nanos >= 1_000_000 ==> second_units(nanos) >= 0x10_624d_d2f1_a9fc * pow2(1012),
        nanos <= 1_000_000 ==> second_units(nanos) <= 0x10_624d_d2f1_a9fc * pow2(1012),
{
    let u = units_per_one();
    let whole = (nanos / 1_000_000_000) as nat;
    let rest = (nanos % 1_000_000_000) as nat;
    let x = (rest * u) as nat;
    let q = round_units(x, 1_000_000_000);
    let z = (whole * u + q) as nat;
    let ms = (0x10_624d_d2f1_a9fc * pow2(1012)) as nat;
    lemma_pow2_pos(1012);
    lemma_pow2_pos(1074);
    lemma2_to64();
    lemma2_to64_rest();
    lemma_pow2_adds(62, 1012);
    law_fractions();
    assert(decoded(MIN_THROUGHPUT_SECONDS) == (Value::Finite { units: ms as int }));
    assert(round_units(u, 1000) == ms) by {
        assert(1 * u == u);
    }
    lemma_round_units_exact(0x10_624d_d2f1_a9fc, 1012, 1);
    assert(0x10_624d_d2f1_a9fc * pow2(1012) * 1 == ms);
    assert(round_units(ms, 1) == ms);
    if nanos <= 1_000_000 {
        assert(whole == 0 && rest == nanos);
        assert(x * 1000 <= u * 1_000_000_000) by (nonlinear_arith)
            requires
                x == rest * u,
                rest <= 1_000_000,
        ;
        lemma_round_units_monotone(x, 1_000_000_000, u, 1000);
        assert(whole * u == 0) by (nonlinear_arith)
            requires
                whole == 0,
        ;
        lemma_round_units_monotone(z, 1, ms, 1);
    }
    if nanos >= 1_000_000 {
        if whole == 0 {
            assert(x * 1000 >= u * 1_000_000_000) by (nonlinear_arith)
                requires
                    x == rest * u,
                    rest >= 1_000_000,
            ;
            lemma_round_units_monotone(u, 1000, x, 1_000_000_000);
            assert(whole * u == 0) by (nonlinear_arith)
                requires
                    whole == 0,
            ;
        } else {
            assert(whole * u >= u) by (nonlinear_arith)
                requires
                    whole >= 1,
            ;
        }
        assert(z >= ms);
        lemma_round_units_monotone(ms, 1, z, 1);
    }
}

/// Less than a millisecond counts as a millisecond.
pub proof fn law_shortest_time(bytes: nat, nanos: nat)
    requires
        nanos <= 1_000_000,
    ensures
        throughput(bytes, nanos) == throughput(bytes, 1_000_000),
{
    lemma_seconds(nanos);
    lemma_seconds(1_000_000);
    lemma_milliseconds(nanos);
    lemma_milliseconds(1_000_000);
}

/// The bounds on a throughput, where the parts are known up to rounding.
proof fn lemma_throughput_at_most(
    r: int,
    nanos: int,
    bytes: int,
    u: int,
    s: int,
    t: int,
    p: int,
    b: int,
)
    requires
        u > 0x1_0000_0000_0000_0000_0000_0000_0000_0000_0000_0000_0000_0000_0000_0000_0000_0000_0000_0000_0000int,
        0 <= r <= u64::MAX,
        0 <= nanos <= u64::MAX,
        0 <= bytes <= u64::MAX,
        s >= 0,
        r * u <= t,
        0x20_0000_0000_0000 * (t * s) <= 0x20_0000_0000_0001 * (p * u) + 0x20_0000_0000_0000 * s,
        0x20_0000_0000_0000 * (1_000_000_000 * s) <= 0x20_0000_0000_0003 * (nanos * u) + 4 * (
        0x20_0000_0000_0000 * 1_000_000_000),
        0x20_0000_0000_0000 * (1_000_000_000 * s) + 4 * (0x20_0000_0000_0000 * 1_000_000_000)
            >= 0x1f_ffff_ffff_fffe * (nanos * u),
        0x20_0000_0000_0000 * p <= 0x20_0000_0000_0001 * (8 * b) + 0x20_0000_0000_0000,
        0x20_0000_0000_0000 * b <= 0x20_0000_0000_0001 * (bytes * u) + 0x20_0000_0000_0000,
    ensures
        0x20_0000_0000_0000 * (r * nanos) <= 0x20_0000_0000_0007 * (8_000_000_000 * bytes),
{
    let a = 0x20_0000_0000_0000 * (1_000_000_000 * s);
    let k = 0x20_0000_0000_0003 * nanos + 1;
    assert(r * u * s <= t * s) by (nonlinear_arith)
        requires
            r * u <= t,
            s >= 0,
    ;
    assert((r * a) * u == 0x20_0000_0000_0000 * (1_000_000_000 * (r * u * s))) by (nonlinear_arith)
        requires
            a == 0x20_0000_0000_0000 * (1_000_000_000 * s),
    ;
    assert(a <= k * u) by (nonlinear_arith)
        requires
            a <= 0x20_0000_0000_0003 * (nanos * u) + 4 * (0x20_0000_0000_0000 * 1_000_000_000),
            k == 0x20_0000_0000_0003 * nanos + 1,
            u > 4 * (0x20_0000_0000_0000 * 1_000_000_000),
    ;
    let y1 = 1_000_000_000 * (0x20_0000_0000_0001 * p) + k;
    assert((r * a) * u < (y1 + 1) * u) by (nonlinear_arith)
        requires
            (r * a) * u == 0x20_0000_0000_0000 * (1_000_000_000 * (r * u * s)),
            r * u * s <= t * s,
            0x20_0000_0000_0000 * (t * s) <= 0x20_0000_0000_0001 * (p * u) + 0x20_0000_0000_0000
                * s,
            a == 0x20_0000_0000_0000 * (1_000_000_000 * s),
            a <= k * u,
            y1 == 1_000_000_000 * (0x20_0000_0000_0001 * p) + k,
            u > 0,
    ;
    lemma_cancel(r * a, y1, u);
    let rn = r * nanos;
    assert(0x1f_ffff_ffff_fffe * (rn * u) <= y1 + r * (4 * (0x20_0000_0000_0000 * 1_000_000_000)))
        by (nonlinear_arith)
        requires
            r * a <= y1,
            a + 4 * (0x20_0000_0000_0000 * 1_000_000_000) >= 0x1f_ffff_ffff_fffe * (nanos * u),
            rn == r * nanos,
            r >= 0,
    ;
    let bu = bytes * u;
    // In parts of 2^106, so that only one multiple of `u` is left on either side.
    let x2 = 0x20_0000_0000_0000 * (0x20_0000_0000_0000 * (0x1f_ffff_ffff_fffe * rn));
    let y2 = 8_000_000_000 * (0x20_0000_0000_0001 * (0x20_0000_0000_0001 * (0x20_0000_0000_0001
        * bytes)));
    assert(rn * u >= 0 && bu >= 0) by (nonlinear_arith)
        requires
            rn == r * nanos,
            bu == bytes * u,
            r >= 0,
            nanos >= 0,
            bytes >= 0,
            u > 0,
    ;
    let m = rn * u;
    let dust = k + r * 0x1dcd65_0000_0000_0000_0000int;
    assert(0x1f_ffff_ffff_fffe * m <= 1_000_000_000 * (0x20_0000_0000_0001 * p) + dust);
    assert(dust <= 0x1_0000_0000_0000_0000_0000_0000_0000_0000_0000_0000int);
    assert(0x20_0000_0000_0000 * (0x20_0000_0000_0000 * p) <= 8 * (0x20_0000_0000_0001 * (
    0x20_0000_0000_0001 * bu)) + 9 * (0x20_0000_0000_0001 * 0x20_0000_0000_0001));
    assert(0x20_0000_0000_0000 * (0x20_0000_0000_0000 * (0x1f_ffff_ffff_fffe * (rn * u)))
        < 8_000_000_000 * (0x20_0000_0000_0001 * (0x20_0000_0000_0001 * (0x20_0000_0000_0001 * bu)))
        + u);
    assert(x2 * u < (y2 + 1) * u) by (nonlinear_arith)
        requires
            0x20_0000_0000_0000 * (0x20_0000_0000_0000 * (0x1f_ffff_ffff_fffe * (rn * u)))
                < 8_000_000_000 * (0x20_0000_0000_0001 * (0x20_0000_0000_0001 * (
            0x20_0000_0000_0001 * bu))) + u,
            x2 == 0x20_0000_0000_0000 * (0x20_0000_0000_0000 * (0x1f_ffff_ffff_fffe * rn)),
            y2 == 8_000_000_000 * (0x20_0000_0000_0001 * (0x20_0000_0000_0001 * (
            0x20_0000_0000_0001 * bytes))),
            bu == bytes * u,
    ;
    lemma_cancel(x2, y2, u);
}

proof fn lemma_throughput_at_least(
    r: int,
    nanos: int,
    bytes: int,
    u: int,
    s: int,
    t: int,
    p: int,
    b: int,
)
    requires
        u > 0x1_0000_0000_0000_0000_0000_0000_0000_0000_0000_0000_0000_0000_0000_0000_0000_0000_0000_0000_0000int,
        0 <= r <= u64::MAX,
        0 <= nanos <= u64::MAX,
        0 <= bytes <= u64::MAX,
        s >= 0,
        t <= (r + 1) * u,
        0x20_0000_0000_0000 * (t * s) + 0x20_0000_0000_0000 * s >= 0x1f_ffff_ffff_ffff * (p * u),
        0x20_0000_0000_0000 * (1_000_000_000 * s) <= 0x20_0000_0000_0003 * (nanos * u) + 4 * (
        0x20_0000_0000_0000 * 1_000_000_000),
        0x20_0000_0000_0000 * p + 0x20_0000_0000_0000 >= 0x1f_ffff_ffff_ffff * (8 * b),
        0x20_0000_0000_0000 * b + 0x20_0000_0000_0000 >= 0x1f_ffff_ffff_ffff * (bytes * u),
    ensures
        0x20_0000_0000_0000 * ((r + 1) * nanos) >= 0x1f_ffff_ffff_fff9 * (8_000_000_000 * bytes),
{
    let a = 0x20_0000_0000_0000 * (1_000_000_000 * s);
    let k = 0x20_0000_0000_0003 * nanos + 1;
    let q = r + 1;
    assert(q * u * s >= t * s) by (nonlinear_arith)
        requires
            q * u >= t,
            s >= 0,
    ;
    assert((q * a) * u == 0x20_0000_0000_0000 * (1_000_000_000 * (q * u * s))) by (nonlinear_arith)
        requires
            a == 0x20_0000_0000_0000 * (1_000_000_000 * s),
    ;
    assert(a <= k * u) by (nonlinear_arith)
        requires
            a <= 0x20_0000_0000_0003 * (nanos * u) + 4 * (0x20_0000_0000_0000 * 1_000_000_000),
            k == 0x20_0000_0000_0003 * nanos + 1,
            u > 4 * (0x20_0000_0000_0000 * 1_000_000_000),
    ;
    let x1 = 1_000_000_000 * (0x1f_ffff_ffff_ffff * p);
    assert(x1 * u < (q * a + k + 1) * u) by (nonlinear_arith)
        requires
            (q * a) * u == 0x20_0000_0000_0000 * (1_000_000_000 * (q * u * s)),
            q * u * s >= t * s,
            0x20_0000_0000_0000 * (t * s) + 0x20_0000_0000_0000 * s >= 0x1f_ffff_ffff_ffff * (p
                * u),
            a == 0x20_0000_0000_0000 * (1_000_000_000 * s),
            a <= k * u,
            x1 == 1_000_000_000 * (0x1f_ffff_ffff_ffff * p),
            u > 0,
    ;
    lemma_cancel(x1, q * a + k, u);
    let rn = q * nanos;
    let m = rn * u;
    assert(q * a <= 0x20_0000_0000_0003 * m + q * (4 * (0x20_0000_0000_0000 * 1_000_000_000)))
        by (nonlinear_arith)
        requires
            a <= 0x20_0000_0000_0003 * (nanos * u) + 4 * (0x20_0000_0000_0000 * 1_000_000_000),
            rn == q * nanos,
            m == rn * u,
            q >= 0,
    ;
    let bu = bytes * u;
    let dust = k + q * 0x1dcd65_0000_0000_0000_0000int;
    assert(1_000_000_000 * (0x1f_ffff_ffff_ffff * p) <= 0x20_0000_0000_0003 * m + dust);
    assert(dust <= 0x1_0000_0000_0000_0000_0000_0000_0000_0000_0000_0000int);
    assert(0x20_0000_0000_0000 * (0x20_0000_0000_0000 * p) + 9 * (0x20_0000_0000_0001
        * 0x20_0000_0000_0001) >= 8 * (0x1f_ffff_ffff_ffff * (0x1f_ffff_ffff_ffff * bu)));
    let x2 = 0x20_0000_0000_0000 * (0x20_0000_0000_0000 * (0x20_0000_0000_0003 * rn));
    let y2 = 8_000_000_000 * (0x1f_ffff_ffff_ffff * (0x1f_ffff_ffff_ffff * (0x1f_ffff_ffff_ffff
        * bytes)));
    assert(8_000_000_000 * (0x1f_ffff_ffff_ffff * (0x1f_ffff_ffff_ffff * (0x1f_ffff_ffff_ffff
        * bu))) < 0x20_0000_0000_0000 * (0x20_0000_0000_0000 * (0x20_0000_0000_0003 * m)) + u);
    assert(y2 * u < (x2 + 1) * u) by (nonlinear_arith)
        requires
            8_000_000_000 * (0x1f_ffff_ffff_ffff * (0x1f_ffff_ffff_ffff * (0x1f_ffff_ffff_ffff
                * bu))) < 0x20_0000_0000_0000 * (0x20_0000_0000_0000 * (0x20_0000_0000_0003 * m))
                + u,
            x2 == 0x20_0000_0000_0000 * (0x20_0000_0000_0000 * (0x20_0000_0000_0003 * rn)),
            y2 == 8_000_000_000 * (0x1f_ffff_ffff_ffff * (0x1f_ffff_ffff_ffff * (
            0x1f_ffff_ffff_ffff * bytes))),
            bu == bytes * u,
            m == rn * u,
    ;
    lemma_cancel(y2, x2, u);
}

/// One is far larger than the units that it is made of.
proof fn lemma_units_are_small()
    ensures
        units_per_one()
            > 0x1_0000_0000_0000_0000_0000_0000_0000_0000_0000_0000_0000_0000_0000_0000_0000_0000_0000_0000_0000int,
{
    lemma2_to64();
    lemma_pow2_adds(64, 64);
    lemma_pow2_adds(128, 128);
    lemma_pow2_adds(256, 64);
    lemma_pow2_strictly_increases(320, 1074);
    assert(pow2(128) == 0x1_0000_0000_0000_0000_0000_0000_0000_0000int) by (nonlinear_arith)
        requires
            pow2(128) == pow2(64) * pow2(64),
            pow2(64) == 0x1_0000_0000_0000_0000int,
    ;
    assert(pow2(256)
        == 0x1_0000_0000_0000_0000_0000_0000_0000_0000_0000_0000_0000_0000_0000_0000_0000_0000int)
        by (nonlinear_arith)
        requires
            pow2(256) == pow2(128) * pow2(128),
            pow2(128) == 0x1_0000_0000_0000_0000_0000_0000_0000_0000int,
    ;
    assert(pow2(320)
        == 0x1_0000_0000_0000_0000_0000_0000_0000_0000_0000_0000_0000_0000_0000_0000_0000_0000_0000_0000_0000_0000int)
        by (nonlinear_arith)
        requires
            pow2(320) == pow2(256) * pow2(64),
            pow2(64) == 0x1_0000_0000_0000_0000int,
            pow2(256)
                == 0x1_0000_0000_0000_0000_0000_0000_0000_0000_0000_0000_0000_0000_0000_0000_0000_0000int,
    ;
}

/// What a throughput is: bits over time. Over a millisecond or more, the throughput
/// times the time is the number of bits, up to one part in 2^50 and the part of a bit
/// per second that is cut off. (More than 64 bits hold is cut off too.)
pub proof fn law_throughput(bytes: nat, nanos: nat)
    requires
        bytes <= u64::MAX,
        1_000_000 <= nanos <= u64::MAX,
    ensures
        ({
            let bits_per_giga = 8_000_000_000 * bytes;
            let slack = bits_per_giga / 0x4_0000_0000_0000;
            let r = throughput(bytes, nanos);
            &&& r * nanos <= bits_per_giga + slack
            &&& r < u64::MAX ==> (r + 1) * nanos + slack + 1 >= bits_per_giga
        }),
{
    let u = units_per_one();
    let s = second_units(nanos);
    let b = of_int(bytes as int)->units as nat;
    let p = round_units(b * (8 * u), u);
    let t = round_units(p * u, s);
    let r = throughput(bytes, nanos);
    lemma_pow2_pos(1074);
    lemma_units_are_small();
    lemma2_to64();
    lemma2_to64_rest();
    lemma_seconds(nanos);
    lemma_milliseconds(nanos);
    lemma_pow2_pos(1012);
    lemma_pow2_adds(52, 1012);
    assert(s >= pow2(1064));
    lemma_pow2_pos(1064);
    // The bytes, and eight times them.
    lemma_of_int_in_range(bytes as int);
    let bu = (bytes * u) as nat;
    assert(bytes * u >= 0) by (nonlinear_arith)
        requires
            u > 0,
    ;
    lemma_round_units_close(bu, 1);
    assert(b == round_units(bu, 1));
    law_fractions();
    lemma_pow2_adds(3, 1074);
    lemma_pow2_adds(52, 1025);
    assert(decoded(EIGHT) == (Value::Finite { units: (8 * u) as int }));
    lemma_product_at_most(of_int(bytes as int), decoded(EIGHT), 1, 1138, 3);
    assert(1 * pow2(1138) == pow2(1138) && 1 * pow2(1141) == pow2(1141));
    assert(product(of_int(bytes as int), decoded(EIGHT)) == (Value::Finite { units: p as int }));
    lemma_round_units_close(b * (8 * u), u);
    assert(0x20_0000_0000_0000 * p <= 0x20_0000_0000_0001 * (8 * b) + 0x20_0000_0000_0000
        && 0x20_0000_0000_0000 * p + 0x20_0000_0000_0000 >= 0x1f_ffff_ffff_ffff * (8 * b)) by {
        let x = 0x20_0000_0000_0000 * p;
        let y = 0x20_0000_0000_0001 * (8 * b) + 0x20_0000_0000_0000;
        let z = 0x1f_ffff_ffff_ffff * (8 * b) - 0x20_0000_0000_0000;
        assert(x * u < (y + 1) * u && z * u < (x + 1) * u) by (nonlinear_arith)
            requires
                x == 0x20_0000_0000_0000 * p,
                y == 0x20_0000_0000_0001 * (8 * b) + 0x20_0000_0000_0000,
                z == 0x1f_ffff_ffff_ffff * (8 * b) - 0x20_0000_0000_0000,
                0x20_0000_0000_0000 * (p * u - b * (8 * u)) <= b * (8 * u) + 0x20_0000_0000_0000
                    * u,
                0x20_0000_0000_0000 * (b * (8 * u) - p * u) <= b * (8 * u) + 0x20_0000_0000_0000
                    * u,
                u > 0,
        ;
        lemma_cancel(x as int, y as int, u as int);
        lemma_cancel(z as int, x as int, u as int);
    }
    // The quotient.
    lemma_pow2_adds(1141, 1074);
    lemma_pow2_adds(1164, 1064);
    lemma_pow2_strictly_increases(2215, 2228);
    assert(p * u <= 1 * pow2(1164) * s) by (nonlinear_arith)
        requires
            p <= pow2(1141),
            pow2(2215) == pow2(1141) * u,
            pow2(2215) < pow2(2228),
            pow2(2228) == pow2(1164) * pow2(1064),
            s >= pow2(1064),
            u > 0,
            pow2(1164) > 0,
    ;
    lemma_round_at_most(p * u, s, 1, 1164);
    lemma_round_units_close(p * u, s);
    assert(quotient(
        product(of_int(bytes as int), decoded(EIGHT)),
        larger(seconds(nanos), decoded(MIN_THROUGHPUT_SECONDS)),
    ) == (Value::Finite { units: t as int }));
    // Its whole part.
    lemma_fundamental_div_mod(t as int, u as int);
    let q = t as int / u as int;
    let rem = t as int % u as int;
    assert(q * u <= t < (q + 1) * u && q >= 0) by (nonlinear_arith)
        requires
            t == u * q + rem,
            0 <= rem < u,
            t >= 0,
            u > 0,
    ;
    assert(r * u <= t) by (nonlinear_arith)
        requires
            r <= q,
            q * u <= t,
            u > 0,
    ;
    lemma_throughput_at_most(
        r as int,
        nanos as int,
        bytes as int,
        u as int,
        s as int,
        t as int,
        p as int,
        b as int,
    );
    if r < u64::MAX {
        lemma_throughput_at_least(
            r as int,
            nanos as int,
            bytes as int,
            u as int,
            s as int,
            t as int,
            p as int,
            b as int,
        );
    }
}

/// The same bytes in half the time are twice the throughput, up to rounding.
pub proof fn law_half_the_time(bytes: nat, nanos: nat)
    requires
        bytes <= u64::MAX,
        1_000_000 <= nanos,
        2 * nanos <= u64::MAX,
        throughput(bytes, nanos) < u64::MAX,
    ensures
        ({
            let slack = 2 * ((8_000_000_000 * bytes) / 0x4_0000_0000_0000) + 2;
            let fast = throughput(bytes, nanos) * nanos;
            let slow = throughput(bytes, 2 * nanos) * (2 * nanos);
            -slack - 2 * nanos <= slow - fast <= slack + 2 * nanos
        }),
{
    law_throughput(bytes, nanos);
    law_throughput(bytes, 2 * nanos);
    let n = nanos as int;
    let fast = throughput(bytes, nanos) as int;
    let slow = throughput(bytes, 2 * nanos) as int;
    assert((fast + 1) * n == fast * n + n && (slow + 1) * (2 * n) == slow * (2 * n) + 2 * n)
        by (nonlinear_arith);
    assert(fast * n <= (u64::MAX - 1) * n) by (nonlinear_arith)
        requires
            fast <= u64::MAX - 1,
            n > 0,
    ;
}

} // verus!
