use adamoq::binary64::Binary64;
use adamoq::clock::Duration;

fn num(x: f64) -> Binary64 {
    Binary64::from_bits(x.to_bits())
}

fn float(x: Binary64) -> f64 {
    f64::from_bits(x.to_bits())
}

/// Equal, or both not a number.
fn same(a: f64, b: f64) -> bool {
    a == b || (a.is_nan() && b.is_nan())
}

fn next(state: &mut u64) -> u64 {
    *state ^= *state << 13;
    *state ^= *state >> 7;
    *state ^= *state << 17;
    *state
}

fn special() -> Vec<f64> {
    vec![
        0.0,
        -0.0,
        1.0,
        -1.0,
        0.1,
        -0.6,
        0.95,
        1.2,
        8.0,
        1e-3,
        1e9,
        3.0,
        f64::EPSILON,
        f64::MIN_POSITIVE,
        f64::MIN_POSITIVE / 2.0,
        f64::from_bits(1),
        f64::from_bits(3),
        f64::from_bits(0x000f_ffff_ffff_ffff),
        f64::MAX,
        -f64::MAX,
        f64::INFINITY,
        f64::NEG_INFINITY,
        f64::NAN,
        9007199254740993.0,
        18446744073709551615.0,
        18446744073709549568.0,
    ]
}

fn check_pair(a: f64, b: f64) {
    let (x, y) = (num(a), num(b));
    assert!(same(float(x.plus(y)), a + b), "{:e} + {:e}", a, b);
    assert!(same(float(x.minus(y)), a - b), "{:e} - {:e}", a, b);
    assert!(same(float(x.times(y)), a * b), "{:e} * {:e}", a, b);
    if b != 0.0 {
        assert!(same(float(x.over(y)), a / b), "{:e} / {:e}", a, b);
    }
    assert_eq!(x.less_than(y), a < b, "{:e} < {:e}", a, b);
    assert!(same(float(x.max(y)), a.max(b)), "max {:e} {:e}", a, b);
    assert!(same(float(x.min(y)), a.min(b)), "min {:e} {:e}", a, b);
}

fn check_one(a: f64) {
    assert!(same(float(num(a)), a));
    assert!(same(float(num(a).negate()), -a));
    assert!(same(float(num(a).abs()), a.abs()));
    assert_eq!(num(a).to_u64(), a as u64, "{:e}", a);
}

#[test]
fn special_values_agree_with_the_processor() {
    let values = special();
    for &a in &values {
        check_one(a);
        for &b in &values {
            check_pair(a, b);
        }
    }
}

#[test]
fn random_bits_agree_with_the_processor() {
    let mut state = 0x9e37_79b9_7f4a_7c15;
    for _ in 0..20_000 {
        let a = f64::from_bits(next(&mut state));
        let b = f64::from_bits(next(&mut state));
        check_one(a);
        check_pair(a, b);
    }
}

#[test]
fn numbers_of_like_size_agree_with_the_processor() {
    let mut state = 0x1234_5678_9abc_def1;
    for _ in 0..20_000 {
        let e = 1000 + next(&mut state) % 70;
        let f = e.wrapping_add(next(&mut state) % 7).wrapping_sub(3);
        let a = f64::from_bits((next(&mut state) & 0x800f_ffff_ffff_ffff) | (e << 52));
        let b = f64::from_bits((next(&mut state) & 0x800f_ffff_ffff_ffff) | (f << 52));
        check_one(a);
        check_pair(a, b);
    }
}

#[test]
fn subnormal_results_agree_with_the_processor() {
    let mut state = 0xdead_beef_cafe_f00d;
    for _ in 0..20_000 {
        let e = next(&mut state) % 60;
        let f = 960 + next(&mut state) % 60;
        let a = f64::from_bits((next(&mut state) & 0x800f_ffff_ffff_ffff) | (e << 52));
        let b = f64::from_bits((next(&mut state) & 0x800f_ffff_ffff_ffff) | (f << 52));
        check_pair(a, b);
        check_pair(a, 1.0 / b);
        check_pair(a, a / 3.0);
    }
}

#[test]
fn integers_are_rounded_as_by_the_processor() {
    let mut state = 0x0123_4567_89ab_cdef;
    for i in 0..20_000u32 {
        let n = next(&mut state) >> (i % 64);
        assert_eq!(float(Binary64::from_u64(n)), n as f64);
        assert_eq!(float(Binary64::from_i64(n as i64)), n as i64 as f64);
        assert_eq!(num(n as f64).to_u64(), (n as f64) as u64);
    }
    for n in [0, 1, u64::MAX, u64::MAX - 1023, u64::MAX - 1024, 1 << 53, (1 << 53) + 1, (1 << 54) + 3] {
        assert_eq!(float(Binary64::from_u64(n)), n as f64);
    }
    for n in [0, -1, i64::MIN, i64::MAX, i64::MIN + 1] {
        assert_eq!(float(Binary64::from_i64(n)), n as f64);
    }
}

#[test]
fn spans_in_seconds_agree_with_the_standard_library() {
    let mut state = 0xfeed_face_1234_4321;
    for i in 0..5_000u32 {
        let n = next(&mut state) >> (i % 64);
        let expected = std::time::Duration::from_nanos(n).as_secs_f64();
        assert_eq!(float(Duration::from_nanos(n).as_secs()), expected);
    }
    assert_eq!(float(Duration::from_millis(1_500).as_secs()), 1.5);
}
