use fixed_num::{
    CheckedLn, CheckedLog10Floor, CheckedPow, CheckedSqrt, Dec19x19, HasMax, TruncTo, UncheckedLn,
    UncheckedLog10Floor, UncheckedPow, UncheckedSqrt,
};

fn d(s: &str) -> Dec19x19 {
    Dec19x19::parse(s).unwrap()
}

fn step() -> Dec19x19 {
    Dec19x19::smallest_step()
}

#[test]
fn sqrt_of_zero() {
    assert_eq!(d("0").unchecked_sqrt(), d("0"));
    assert_eq!(d("0").checked_sqrt(), Some(d("0")));
}

#[test]
fn sqrt_of_one_e_minus_eighteen_squared() {
    let r = d("1e-18").unchecked_sqrt();
    assert_eq!(r * r, d("1e-18"));
}

#[test]
fn sqrt_cases() {
    assert_eq!(Dec19x19::max_value().unchecked_sqrt(), d("4_124_817_371.235_594_858_790_322_117_5"));
    assert_eq!((-step()).checked_sqrt(), None);
    assert_eq!(d("4").unchecked_sqrt(), d("2"));
    assert_eq!(d("2").unchecked_sqrt(), d("1.4142135623730950488"));
    assert_eq!(d("0.25").unchecked_sqrt(), d("0.5"));
}

#[test]
fn sqrt_square_is_within_a_step_for_small_values() {
    for x in ["0.2", "0.0000000000000000001", "0.123456789", "0.0001"].iter() {
        let v = d(x);
        let r = v.unchecked_sqrt();
        let diff = (r * r - v).repr;
        assert!(diff <= 0 && diff >= -1);
    }
}

#[test]
fn ln_of_ten() {
    assert_eq!(d("10").unchecked_ln().trunc_to(17), d("2.30258509299404568"));
}

#[test]
fn ln_cases() {
    let t = |x: Dec19x19| x.trunc_to(17);
    assert_eq!(t(Dec19x19::max_value().unchecked_ln()), t(d("44.280_575_164_226_186_298_3")));
    assert_eq!(t(d("100").unchecked_ln()), t(d("4.605_170_185_988_091_367_8")));
    assert_eq!(t(d("0.1").unchecked_ln()), t(d("-2.302_585_092_994_045_683_7")));
    assert_eq!(t(d("2.718281828459045239").unchecked_ln()), d("1"));
    assert_eq!((-step()).checked_ln(), None);
    assert_eq!(d("0").checked_ln(), None);
    assert_eq!(d("1").unchecked_ln(), d("0"));
}

#[test]
fn ln_of_powers_of_e() {
    // e^k truncated to 19 fractional digits.
    let powers = [
        "2.7182818284590452353",
        "7.3890560989306502272",
        "20.0855369231876677409",
        "54.5981500331442390781",
        "148.4131591025766034211",
    ];
    for (i, p) in powers.iter().enumerate() {
        let k = i as i32 + 1;
        let diff = (d(p).unchecked_ln() - Dec19x19::from_i32(k)).repr;
        assert!(diff.abs() <= 1, "k = {}, diff = {}", k, diff);
    }
    let e = d("2.7182818284590452354");
    for k in 1..=5 {
        let diff = (e.unchecked_pow(k).unchecked_ln() - Dec19x19::from_i32(k)).repr;
        assert!(diff.abs() <= 1, "k = {}, diff = {}", k, diff);
    }
}

#[test]
fn log10_floor_of_nine_point_nine_nine() {
    assert_eq!(d("9.99").unchecked_log10_floor(), d("0"));
}

#[test]
fn log10_floor_of_zero_point_zero_nine() {
    assert_eq!(d("0.09").unchecked_log10_floor(), d("-2"));
}

#[test]
fn log10_floor_cases() {
    assert_eq!(Dec19x19::max_value().unchecked_log10_floor(), d("19"));
    assert_eq!(d("10.1").unchecked_log10_floor(), d("1"));
    assert_eq!(d("10").unchecked_log10_floor(), d("1"));
    assert_eq!(d("1").unchecked_log10_floor(), d("0"));
    assert_eq!(d("0.9").unchecked_log10_floor(), d("-1"));
    assert_eq!(d("0.1").unchecked_log10_floor(), d("-1"));
    assert_eq!(step().unchecked_log10_floor(), d("-19"));
    assert_eq!((-step()).checked_log10_floor(), None);
    assert_eq!(d("0").checked_log10_floor(), None);
}

#[test]
fn pow_of_two_to_sixty_three() {
    assert_eq!(d("2").unchecked_pow(63), d("9_223_372_036_854_775_808"));
}

#[test]
fn checked_pow_of_two_to_sixty_four_is_none() {
    assert_eq!(d("2").checked_pow(64), None);
}

#[test]
fn pow_cases() {
    for k in 0..=16 {
        assert_eq!(d("2").unchecked_pow(k), Dec19x19::from_i64(1i64 << k));
    }
    assert_eq!(d("20").unchecked_pow(0), d("1"));
    assert_eq!(d("2").unchecked_pow(-1), d("0.5"));
    assert_eq!(d("2").unchecked_pow(-2), d("0.25"));
    assert_eq!(d("0.5").unchecked_pow(2), d("0.25"));
    assert_eq!(d("0.5").unchecked_pow(3), d("0.125"));
    assert_eq!(d("0.5").unchecked_pow(-1), d("2"));
    assert_eq!(d("1.1").unchecked_pow(2), d("1.21"));
    assert_eq!(d("1.5").unchecked_pow(2), d("2.25"));
    assert_eq!(d("10").unchecked_pow(3), d("1000"));
    assert_eq!(Dec19x19::max_value().unchecked_pow(-1), d("0"));
    assert_eq!(d("0").checked_pow(-1), None);
    assert_eq!(Dec19x19::max_value().checked_pow(2), None);
    assert_eq!(<Dec19x19 as fixed_num::HasMin>::min_value().checked_pow(2), None);
}

#[test]
fn digit_count_cases() {
    assert_eq!(fixed_num::digit_count(0), 1);
    let mut p: i128 = 10;
    for i in 1..=38 {
        assert_eq!(fixed_num::digit_count(p - 1), i);
        assert_eq!(fixed_num::digit_count(p), i + 1);
        assert_eq!(fixed_num::digit_count(-p), i + 1);
        if i < 38 {
            p *= 10;
        }
    }
    assert_eq!(fixed_num::digit_count(i128::MAX), 39);
    assert_eq!(fixed_num::digit_count(i128::MIN), 39);
}
