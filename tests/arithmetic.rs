use fixed_num::{
    Abs, CheckedAdd, CheckedDiv, CheckedMul, CheckedSub, Dec19x19, HasMax, HasMin,
    SaturatingAdd, SaturatingDiv, SaturatingMul, SaturatingSub, Signum, UncheckedAdd,
};

fn d(s: &str) -> Dec19x19 {
    Dec19x19::parse(s).unwrap()
}

fn max() -> Dec19x19 {
    Dec19x19::max_value()
}

fn min() -> Dec19x19 {
    Dec19x19::min_value()
}

fn step() -> Dec19x19 {
    Dec19x19::smallest_step()
}

#[test]
fn constants_have_expected_reprs() {
    assert_eq!(max().repr, i128::MAX);
    assert_eq!(min().repr, i128::MIN);
    assert_eq!(step().repr, 1);
    assert_eq!(Dec19x19::max_int(), d("17_014_118_346_046_923_173"));
    assert_eq!(Dec19x19::min_int(), d("-17_014_118_346_046_923_173"));
    assert_eq!(Dec19x19::ln_2(), d("0.693_147_180_559_945_309_4"));
    assert!(max().is_max());
    assert!(min().is_min());
    assert!(Dec19x19::default().is_zero());
}

#[test]
fn checked_add_past_max_is_none() {
    assert_eq!(max().checked_add(step()), None);
    assert_eq!(max().checked_add(d("1")), None);
    assert_eq!(min().checked_add(-step()), None);
}

#[test]
fn min_plus_max_is_minus_one_step() {
    assert_eq!(min() + max(), -step());
    assert_eq!(max() + min(), -step());
    assert_eq!(max().checked_add(min()), Some(-step()));
    assert_eq!((max() - d("1")).checked_add(d("1")), Some(max()));
    assert_eq!(max() + d("0"), max());
    assert_eq!(min() + d("0"), min());
}

#[test]
fn sub_cases() {
    assert_eq!((min() + d("1")) - d("1"), min());
    assert_eq!(-step() - min(), max());
    assert_eq!(min().checked_sub(step()), None);
    assert_eq!(min().checked_sub(d("1")), None);
    assert_eq!(d("0").checked_sub(min()), None);
    assert_eq!(d("5.25").unchecked_add(d("0.75")), d("6"));
}

#[test]
fn saturating_add_and_sub_clamp() {
    assert_eq!(max().saturating_add(step()), max());
    assert_eq!(min().saturating_add(-step()), min());
    assert_eq!(min().saturating_sub(d("1")), min());
    assert_eq!(d("10").saturating_sub(min()), max());
    assert_eq!(d("0").saturating_sub(min()), max());
    assert_eq!(d("1.5").saturating_add(d("2")), d("3.5"));
}

#[test]
fn rem_of_fourteen_point_seven_by_five() {
    assert_eq!(d("14.7") % d("5"), d("4.7"));
}

#[test]
fn rem_cases() {
    assert_eq!(d("14.7") % d("0"), d("14.7"));
    assert_eq!(d("14.7") % step(), d("0"));
    assert_eq!(max() % step(), d("0"));
    assert_eq!(max() % max(), d("0"));
    assert_eq!(min() % min(), d("0"));
    assert_eq!(max() % min(), max());
    assert_eq!(min() % max(), -step());
    assert_eq!(d("-14.7") % d("5"), d("-4.7"));
    assert_eq!(d("14.7") % d("-5"), d("4.7"));
}

#[test]
fn min_rem_minus_step_is_zero() {
    assert_eq!(min() % (-step()), d("0"));
}

#[test]
fn neg_and_abs_saturate_at_min() {
    assert_eq!(-max(), min() + step());
    assert_eq!(-d("3"), d("-3"));
    assert_eq!(-d("0"), d("0"));
    assert_eq!(-d("-3"), d("3"));
    assert_eq!(-min(), max());
    assert_eq!(-(min() + step()), max());
    assert_eq!(max().abs(), max());
    assert_eq!(d("-3").abs(), d("3"));
    assert_eq!(d("3").abs(), d("3"));
    assert_eq!(d("0").abs(), d("0"));
    assert_eq!(min().abs(), max());
}

#[test]
fn signum_values() {
    assert_eq!(max().signum(), d("1"));
    assert_eq!(d("3").signum(), d("1"));
    assert_eq!(d("0").signum(), d("0"));
    assert_eq!(d("-3").signum(), d("-1"));
    assert_eq!(min().signum(), d("-1"));
    assert_eq!(d("-0.5").signum_i128(), -1);
}

#[test]
fn checked_mul_of_max_by_ten_is_none() {
    assert_eq!(max().checked_mul(d("10")), None);
    assert_eq!(max().checked_mul_no_opt(d("10")), None);
    assert_eq!(max().checked_mul_opt(d("10")), None);
    assert_eq!((max() - d("10")).checked_mul(d("2")), None);
}

#[test]
fn twenty_times_two_point_two() {
    assert_eq!(d("20") * d("2.2"), d("44.0"));
    assert_eq!(d("20").unchecked_mul_no_opt(d("2.2")), d("44"));
    assert_eq!(d("20").unchecked_mul_opt(d("2.2")), d("44"));
    assert_eq!(d("20").checked_mul_no_opt(d("2.2")), Some(d("44")));
    assert_eq!(d("20").checked_mul_opt(d("2.2")), Some(d("44")));
}

#[test]
fn mul_truncates_toward_zero() {
    assert_eq!(d("0.5") * step(), d("0"));
    assert_eq!(d("-0.5") * step(), d("0"));
    assert_eq!(d("1.5") * d("-1.5"), d("-2.25"));
    assert_eq!(d("0.1234567890123456789") * d("0.1"), d("0.0123456789012345678"));
    assert_eq!(d("-0.1234567890123456789") * d("0.1"), d("-0.0123456789012345678"));
}

#[test]
fn mul_variants_agree() {
    let xs = ["0", "1", "-1", "2.5", "-3.75", "0.0000000000000000001", "123456789.987654321",
        "-98765.4321", "4000000000", "0.3333333333333333333"];
    for a in xs.iter() {
        for b in xs.iter() {
            let (x, y) = (d(a), d(b));
            let r = x.checked_mul_no_opt(y);
            assert_eq!(x.checked_mul_opt(y), r);
            if let Some(v) = r {
                assert_eq!(x.unchecked_mul_no_opt(y), v);
                assert_eq!(x.unchecked_mul_opt(y), v);
            }
        }
    }
}

#[test]
fn mul_product_equal_to_min_is_representable() {
    let half_min = Dec19x19::from_repr(i128::MIN / 2);
    assert_eq!(half_min.checked_mul(d("2")), Some(min()));
}

#[test]
fn saturating_mul_clamps() {
    assert_eq!((max() - d("10")).saturating_mul(d("2")), max());
    assert_eq!((max() - d("10")).saturating_mul(d("-2")), min());
    assert_eq!(d("3").saturating_mul(d("-2")), d("-6"));
}

#[test]
fn max_div_minus_one() {
    assert_eq!(max() / d("-1"), min() + step());
}

#[test]
fn div_cases() {
    assert_eq!(d("20") / d("0.2"), d("100.0"));
    assert_eq!((min() + step()) / d("-1"), max());
    assert_eq!((max() - d("10")).checked_div(d("0.1")), None);
    assert_eq!((max() - d("10")).checked_div(d("0")), None);
    assert_eq!(d("10").checked_div(d("0")), None);
    assert_eq!(max().checked_div(d("0.1")), None);
    assert_eq!(d("1") / d("3"), d("0.3333333333333333333"));
    assert_eq!(d("-1") / d("3"), d("-0.3333333333333333333"));
    assert_eq!(step() / d("2"), d("0"));
}

#[test]
fn saturating_div_clamps() {
    assert_eq!((max() - d("10")).saturating_div(d("0.1")), max());
    assert_eq!((max() - d("10")).saturating_div(d("-0.1")), min());
    assert_eq!(min().saturating_div(d("-1")), max());
    assert_eq!(d("1").saturating_div(d("0")), max());
}

#[test]
fn ordering_follows_repr() {
    assert!(d("-1") < d("0.5"));
    assert!(d("2") > d("1.9999999999999999999"));
    assert!(min() < max());
    assert_eq!(d("1.5").partial_cmp(&d("1.5")), Some(std::cmp::Ordering::Equal));
    assert_eq!(d("1.5").cmp(&d("-1.5")), std::cmp::Ordering::Greater);
}
