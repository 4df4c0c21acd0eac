use fixed_num::{Ceil, CeilTo, Dec19x19, Floor, FloorTo, HasMax, HasMin, Round, RoundTo, Trunc, TruncTo};

fn d(s: &str) -> Dec19x19 {
    Dec19x19::parse(s).unwrap()
}

fn max() -> Dec19x19 {
    Dec19x19::max_value()
}

fn min() -> Dec19x19 {
    Dec19x19::min_value()
}

fn step() -> Dec19x19 {
    Dec19x19::smallest_step()
}

#[test]
fn trunc_to_cases() {
    assert_eq!(max().trunc_to(0), Dec19x19::max_int());
    assert_eq!(max().trunc(), Dec19x19::max_int());
    assert_eq!(min().trunc(), Dec19x19::min_int());
    assert_eq!(d("3.9").trunc_to(0), d("3"));
    assert_eq!(d("3.1").trunc_to(0), d("3"));
    assert_eq!(d("-3.9").trunc_to(0), d("-3"));
    assert_eq!(d("-3.1").trunc_to(0), d("-3"));
    assert_eq!(max().trunc_to(18), d("17_014_118_346_046_923_173.168_730_371_588_410_572"));
    assert_eq!(max().trunc_to(19), max());
    assert_eq!(max().trunc_to(99), max());
    assert_eq!(max().trunc_to(-18), d("17_000_000_000_000_000_000"));
    assert_eq!(max().trunc_to(-19), d("10_000_000_000_000_000_000"));
    assert_eq!(max().trunc_to(-99), d("10_000_000_000_000_000_000"));
}

#[test]
fn floor_of_minus_three_point_one() {
    assert_eq!(d("-3.1").floor(), d("-4.0"));
}

#[test]
fn floor_to_cases() {
    assert_eq!(max().floor_to(0), Dec19x19::max_int());
    assert_eq!(d("3.9").floor_to(0), d("3"));
    assert_eq!(d("-3.9").floor_to(0), d("-4"));
    assert_eq!(d("-3.0").floor_to(0), d("-3"));
    assert_eq!(Dec19x19::min_int().floor_to(0), Dec19x19::min_int());
    assert_eq!((Dec19x19::min_int() + step()).floor_to(0), Dec19x19::min_int());
    assert_eq!((Dec19x19::min_int() - step()).floor_to(0), Dec19x19::min_int() - step());
    assert_eq!(min().floor_to(0), min());
    assert_eq!(max().floor_to(-18), d("17_000_000_000_000_000_000"));
    assert_eq!(max().floor_to(-99), d("10_000_000_000_000_000_000"));
}

#[test]
fn ceil_of_three_point_one() {
    assert_eq!(d("3.1").ceil(), d("4.0"));
}

#[test]
fn ceil_to_cases() {
    assert_eq!(max().ceil_to(0), max());
    assert_eq!(d("3.9").ceil_to(0), d("4"));
    assert_eq!(d("-3.9").ceil_to(0), d("-3"));
    assert_eq!(min().ceil_to(0), Dec19x19::min_int());
    assert_eq!((max() - step()).ceil_to(0), max() - step());
    assert_eq!(Dec19x19::max_int().ceil_to(0), Dec19x19::max_int());
    assert_eq!((Dec19x19::max_int() - step()).ceil_to(0), Dec19x19::max_int());
    assert_eq!((Dec19x19::max_int() + step()).ceil_to(0), Dec19x19::max_int() + step());
    assert_eq!(min().ceil_to(18), d("-17_014_118_346_046_923_173.168_730_371_588_410_572"));
    assert_eq!(min().ceil_to(-18), d("-17_000_000_000_000_000_000"));
    assert_eq!(min().ceil_to(-99), d("-10_000_000_000_000_000_000"));
}

#[test]
fn round_of_three_point_five() {
    assert_eq!(d("3.5").round(), d("4.0"));
}

#[test]
fn round_of_minus_three_point_five() {
    assert_eq!(d("-3.5").round(), d("-4.0"));
}

#[test]
fn round_to_max_is_max_int() {
    assert_eq!(max().round_to(0), Dec19x19::max_int());
}

#[test]
fn round_to_cases() {
    let cases = [
        ("3.9", 0, "4"), ("3.6", 0, "4"), ("3.5", 0, "4"), ("3.4", 0, "3"), ("3.0", 0, "3"),
        ("-3.9", 0, "-4"), ("-3.5", 0, "-4"), ("-3.4", 0, "-3"),
        ("0.35", 1, "0.4"), ("0.34", 1, "0.3"), ("-0.35", 1, "-0.4"), ("-0.34", 1, "-0.3"),
        ("35", -1, "40"), ("34", -1, "30"), ("-35", -1, "-40"), ("-34", -1, "-30"),
        ("1.1234567890123456785", 18, "1.123456789012345679"),
        ("1.1234567890123456784", 18, "1.123456789012345678"),
        ("1.1234567890123456785", 19, "1.1234567890123456785"),
    ];
    for (x, n, r) in cases.iter() {
        assert_eq!(d(x).round_to(*n), d(r));
    }
    assert_eq!((max() - d("1")).round_to(0), Dec19x19::max_int() - d("1"));
    assert_eq!((max() - d("1")).round_to(1), d("17_014_118_346_046_923_172.2"));
    assert_eq!((max() - d("1")).round_to(3), d("17_014_118_346_046_923_172.169"));
    assert_eq!(max().round_to(1), d("17_014_118_346_046_923_173.1"));
    assert_eq!(max().round_to(3), d("17_014_118_346_046_923_173.168"));
    assert_eq!((min() + d("1")).round_to(2), d("-17_014_118_346_046_923_172.17"));
    assert_eq!(min().round_to(0), Dec19x19::min_int());
    assert_eq!(min().round_to(2), d("-17_014_118_346_046_923_173.16"));
    assert_eq!(max().round_to(-19), d("10_000_000_000_000_000_000"));
}

#[test]
fn floor_and_ceil_bracket_and_agree_on_integers() {
    let xs = ["3.1", "-3.1", "7", "-7", "0", "0.0000000000000000001", "-123.456"];
    for x in xs.iter() {
        let v = d(x);
        assert!(v.floor() <= v && v <= v.ceil());
        let is_int = v.repr % 10_000_000_000_000_000_000 == 0;
        assert_eq!(v.floor() == v.ceil(), is_int);
    }
}
