use fixed_num::{Dec19x19, HasMax, IntoRandRange, Rand, UnwrapAll};

fn d(s: &str) -> Dec19x19 {
    Dec19x19::parse(s).unwrap()
}

#[test]
fn from_integers() {
    assert_eq!(Dec19x19::from_i64(-5), d("-5"));
    assert_eq!(Dec19x19::from_i32(7), d("7"));
    assert_eq!(Dec19x19::from_i16(-7), d("-7"));
    assert_eq!(Dec19x19::from_i8(3), d("3"));
    assert_eq!(Dec19x19::from_u32(4_000_000_000), d("4000000000"));
    assert_eq!(Dec19x19::from_u16(65535), d("65535"));
    assert_eq!(Dec19x19::from_u8(255), d("255"));
    assert_eq!(Dec19x19::from_i64(i64::MAX), d("9223372036854775807"));
    assert_eq!(Dec19x19::try_from_i128(17_014_118_346_046_923_173), Some(Dec19x19::max_int()));
    assert_eq!(Dec19x19::try_from_i128(17_014_118_346_046_923_174), None);
    assert_eq!(Dec19x19::try_from_u64(u64::MAX), None);
    assert_eq!(Dec19x19::try_from_u64(12), Some(d("12")));
    assert_eq!(Dec19x19::try_from_u128(u128::MAX), None);
    assert_eq!(Dec19x19::try_from_u128(12), Some(d("12")));
}

#[test]
fn into_integers() {
    assert_eq!(d("-3.9").into_i128(), -3);
    assert_eq!(d("3.9").into_u64(), 3);
    assert_eq!(d("-1.5").into_u64(), u64::MAX);
    assert_eq!(d("-2").into_u128(), u128::MAX - 1);
    assert_eq!(Dec19x19::max_value().into_u128(), 17_014_118_346_046_923_173);
    assert_eq!(d("300").try_into_u8(), None);
    assert_eq!(d("255.9").try_into_u8(), Some(255));
    assert_eq!(d("-1").try_into_u32(), None);
    assert_eq!(d("-128.5").try_into_i8(), Some(-128));
    assert_eq!(d("40000").try_into_i16(), None);
    assert_eq!(d("65535").try_into_u16(), Some(65535));
    assert_eq!(d("-2147483648").try_into_i32(), Some(i32::MIN));
    assert_eq!(Dec19x19::max_value().try_into_i64(), None);
}

#[test]
fn rand_is_deterministic_and_nonzero() {
    assert_eq!(Dec19x19::rand(0, 6, 0), d("-758_415"));
    assert_eq!(Dec19x19::rand(4, 6, 0), d("658_419"));
    assert_eq!(Dec19x19::rand(12, 3, 3), d("-698.488"));
    assert_eq!(Dec19x19::rand(0, 0, 6), d("-0.758_415"));
    assert_eq!(Dec19x19::rand(0, 0, 0), d("-7"));
    assert_eq!(Dec19x19::rand(2, 0..=9, 0..=9), d("-0.41"));
    for seed in 0..50u64 {
        let x = Dec19x19::rand(seed, 0..=19, 0..=19);
        assert!(!x.is_zero());
        assert_eq!(x, Dec19x19::rand(seed, 0..=19, 0..=19));
    }
    assert_eq!(5u32.into_rand_range(), 5..=5);
}

#[test]
fn from_draws_places_the_digits() {
    assert_eq!(Dec19x19::from_draws(3, 2, 4, 5678, false), d("456.78"));
    assert_eq!(Dec19x19::from_draws(0, 0, 0, 0, true), d("-1"));
    assert_eq!(Dec19x19::from_draws(0, 2, 0, 0, false), d("0.01"));
    assert_eq!(Dec19x19::from_draws(6, 0, 7, 58415, true), d("-758_415"));
}

#[test]
fn unwrap_all_takes_values() {
    assert_eq!(Some(d("1.5")).unwrap_all(), d("1.5"));
    assert_eq!(d("2").unwrap_all(), d("2"));
}
