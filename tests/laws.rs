use std::str::FromStr;

use bigdecimal::{BigDecimal, RoundingMode};
use fixed_num::{CheckedAdd, CheckedDiv, CheckedMul, CheckedSub, Dec19x19, Rand};

fn d(s: &str) -> Dec19x19 {
    Dec19x19::parse(s).unwrap()
}

fn sample(seed: u64) -> Dec19x19 {
    Dec19x19::rand(seed, 0..=18, 0..=19)
}

fn big(x: Dec19x19) -> BigDecimal {
    BigDecimal::from_str(&x.to_decimal_string()).unwrap()
}

fn from_big(b: &BigDecimal) -> Option<Dec19x19> {
    Dec19x19::parse(&b.with_scale_round(19, RoundingMode::Down).to_plain_string()).ok()
}

#[test]
fn additive_identity() {
    let zero = d("0");
    for seed in 0..100u64 {
        let x = sample(seed);
        assert_eq!(x + zero, x);
        assert_eq!(x - zero, x);
    }
}

#[test]
fn additive_inverse() {
    for seed in 0..100u64 {
        let x = sample(seed);
        assert_eq!(x + (-x), d("0"));
    }
    let almost_min = Dec19x19::from_repr(i128::MIN + 1);
    assert_eq!(almost_min + (-almost_min), d("0"));
}

#[test]
fn commutativity() {
    for seed in 0..100u64 {
        let (x, y) = (sample(seed), sample(seed + 1000));
        assert_eq!(x.checked_add(y), y.checked_add(x));
        assert_eq!(x.checked_mul(y), y.checked_mul(x));
    }
}

#[test]
fn associativity_of_addition() {
    for seed in 0..100u64 {
        let (x, y, z) = (sample(seed), sample(seed + 1000), sample(seed + 2000));
        assert_eq!((x + y) + z, x + (y + z));
    }
}

#[test]
fn distributivity_where_products_are_exact() {
    let cases = [("2", "3.5", "-1.25"), ("-4", "0.5", "7"), ("0.5", "0.2", "0.4"), ("10", "1.1", "2.2")];
    for (x, y, z) in cases.iter() {
        let (x, y, z) = (d(x), d(y), d(z));
        assert_eq!(x * (y + z), x * y + x * z);
    }
    let half = d("0.5");
    let tiny = Dec19x19::smallest_step();
    assert_eq!(half * (tiny + tiny), tiny);
    assert_eq!(half * tiny + half * tiny, d("0"));
}

#[test]
fn distributivity_within_one_step() {
    for seed in 0..100u64 {
        let x = Dec19x19::rand(seed, 0..=3, 0..=19);
        let y = Dec19x19::rand(seed + 1000, 0..=6, 0..=19);
        let z = Dec19x19::rand(seed + 2000, 0..=6, 0..=19);
        let diff = (x * (y + z) - (x * y + x * z)).repr;
        assert!(diff.abs() <= 1);
    }
}

#[test]
fn agreement_with_arbitrary_precision() {
    for seed in 0..100u64 {
        let (x, y) = (sample(seed), sample(seed + 1000));
        let (bx, by) = (big(x), big(y));
        assert_eq!(x.checked_add(y), from_big(&(&bx + &by)));
        assert_eq!(x.checked_sub(y), from_big(&(&bx - &by)));
        assert_eq!(x.checked_mul(y), from_big(&(&bx * &by)));
    }
    for seed in 0..100u64 {
        let x = Dec19x19::rand(seed, 0..=9, 0..=9);
        let y = Dec19x19::rand(seed + 1000, 0..=9, 0..=9);
        assert_eq!(x.checked_div(y), from_big(&(big(x) / big(y))));
    }
}

#[test]
fn ordering_matches_representations() {
    for seed in 0..100u64 {
        let (x, y) = (sample(seed), sample(seed + 1000));
        assert_eq!(x < y, x.repr < y.repr);
        assert_eq!(x.cmp(&y), x.repr.cmp(&y.repr));
    }
}
