use fixed_num::{
    parse_dec19x19_internal, shift_decimal, Alignment, Dec19x19, Format, Formatter, HasMax,
    HasMin, ParseDec19x19Error, Rand,
};

fn d(s: &str) -> Dec19x19 {
    Dec19x19::parse(s).unwrap()
}

fn shift(inp: (&str, &str, i128), out: (&str, &str)) {
    assert_eq!(shift_decimal(inp.0, inp.1, inp.2), (out.0.to_string(), out.1.to_string()));
}

#[test]
fn shift_decimal_cases() {
    shift(("123", "456", -5), ("0", "00123456"));
    shift(("123", "456", -4), ("0", "0123456"));
    shift(("123", "456", -3), ("0", "123456"));
    shift(("123", "456", -2), ("1", "23456"));
    shift(("123", "456", -1), ("12", "3456"));
    shift(("123", "456", 0), ("123", "456"));
    shift(("123", "456", 1), ("1234", "56"));
    shift(("123", "456", 2), ("12345", "6"));
    shift(("123", "456", 3), ("123456", "0"));
    shift(("123", "456", 4), ("1234560", "0"));
    shift(("123", "456", 5), ("12345600", "0"));
    shift(("100", "", -1), ("10", "0"));
    shift(("100", "", -2), ("1", "0"));
    shift(("100", "", -3), ("0", "1"));
    shift(("100", "", -4), ("0", "01"));
    shift(("", "001", 1), ("0", "01"));
    shift(("", "001", 2), ("0", "1"));
    shift(("", "001", 3), ("1", "0"));
    shift(("", "001", 4), ("10", "0"));
}

#[test]
fn parse_exponent_below_nineteen_digits() {
    assert_eq!(d("987e-19"), Dec19x19::from_repr(987));
    assert_eq!(d("987e-19"), d("0.000_000_000_000_000_098_7"));
}

#[test]
fn parse_negative_with_exponent() {
    assert_eq!(parse_dec19x19_internal("-987e-19"), Ok(-987));
    assert_eq!(d("-987e-19"), -Dec19x19::from_repr(987));
    assert_eq!(d("-1e-1"), d("-0.1"));
    assert_eq!(d("-1.5e-1"), d("-0.15"));
    assert_eq!(d("-1.5e2"), d("-150"));
    assert_eq!(d("+2.5e-1"), d("0.25"));
}

#[test]
fn parse_far_exponents() {
    assert_eq!(d("0e-2000000"), d("0"));
    assert_eq!(d("0.000e2000000"), d("0"));
    assert_eq!(Dec19x19::parse("1e-2000000"), Err(ParseDec19x19Error::TooPrecise));
    assert_eq!(Dec19x19::parse("-12.5e-170141183460469231731687303715884105728"), Err(ParseDec19x19Error::TooPrecise));
    assert!(matches!(
        Dec19x19::parse("7e170141183460469231731687303715884105727"),
        Err(ParseDec19x19Error::ParseIntError(_))
    ));
}

#[test]
fn from_str_matches_parse() {
    for x in ["-987e-19", "1.5", "abc", "1e2e3", "17_014_118_346_046_923_173.168_730_371_588_410_572_8"].iter() {
        assert_eq!(x.parse::<Dec19x19>(), Dec19x19::parse(x));
    }
    for seed in 0..50u64 {
        let v = Dec19x19::rand(seed, 0..=19, 0..=19);
        assert_eq!(v.to_decimal_string().parse::<Dec19x19>(), Ok(v));
    }
}

#[test]
fn parse_max_literal() {
    assert_eq!(d("17_014_118_346_046_923_173.168_730_371_588_410_572_7").repr, i128::MAX);
    assert_eq!(d("-17_014_118_346_046_923_173.168_730_371_588_410_572_8").repr, i128::MIN);
}

#[test]
fn parse_one_past_max_is_out_of_bounds() {
    assert_eq!(
        Dec19x19::parse("17_014_118_346_046_923_173.168_730_371_588_410_572_8"),
        Err(ParseDec19x19Error::OutOfBounds)
    );
    assert_eq!(
        Dec19x19::parse("-17_014_118_346_046_923_173.168_730_371_588_410_572_9"),
        Err(ParseDec19x19Error::OutOfBounds)
    );
}

#[test]
fn parse_exponent_cases() {
    assert_eq!(d("987e-2"), d("9.87"));
    assert_eq!(d("987e-1"), d("98.7"));
    assert_eq!(d("987e-0"), d("987"));
    assert_eq!(d("987e0"), d("987"));
    assert_eq!(d("987e+0"), d("987"));
    assert_eq!(d("987e+1"), d("9_870"));
    assert_eq!(d("987e+2"), d("98_700"));
    assert_eq!(d("987E2"), d("98_700"));
    assert_eq!(d("987e16"), d("9_870_000_000_000_000_000"));
    assert_eq!(d("1_000_000_000_000_000e-34"), Dec19x19::smallest_step());
    assert_eq!(d("0.000_000_000_000_000e34"), d("0"));
    assert!(Dec19x19::parse("987e+17").is_err());
    assert_eq!(Dec19x19::parse("987e-20"), Err(ParseDec19x19Error::TooPrecise));
}

#[test]
fn parse_errors() {
    assert_eq!(
        Dec19x19::parse("1e2e3"),
        Err(ParseDec19x19Error::InvalidChar { char: 'e', pos: 3 })
    );
    assert_eq!(
        Dec19x19::parse("1.2.3"),
        Err(ParseDec19x19Error::InvalidChar { char: '.', pos: 3 })
    );
    assert!(matches!(Dec19x19::parse("abc"), Err(ParseDec19x19Error::ParseIntError(_))));
    assert!(matches!(Dec19x19::parse(""), Err(ParseDec19x19Error::ParseIntError(_))));
    assert!(matches!(Dec19x19::parse("1e"), Err(ParseDec19x19Error::ParseIntError(_))));
    assert!(matches!(Dec19x19::parse("1e2000000"), Err(ParseDec19x19Error::ParseIntError(_))));
    assert!(matches!(Dec19x19::parse("-"), Err(ParseDec19x19Error::ParseIntError(_))));
    assert_eq!(
        Dec19x19::parse("--5"),
        Err(ParseDec19x19Error::InvalidChar { char: '-', pos: 1 })
    );
    assert_eq!(
        Dec19x19::parse("1.+5"),
        Err(ParseDec19x19Error::InvalidChar { char: '+', pos: 2 })
    );
    assert_eq!(parse_dec19x19_internal("  -1.5 "), Ok(-15_000_000_000_000_000_000));
    assert_eq!(parse_dec19x19_internal("1 000.000_1"), Ok(10_000_001_000_000_000_000_000));
    assert_eq!("2.5".parse::<Dec19x19>(), Ok(d("2.5")));
}

fn plain() -> Formatter {
    Formatter { separator: None, precision: None, width: None, align: None, fill: ' ', sign_plus: false }
}

#[test]
fn format_plain() {
    assert_eq!(d("1.5").to_decimal_string(), "1.5");
    assert_eq!(d("-0.5").to_decimal_string(), "-0.5");
    assert_eq!(d("0").to_decimal_string(), "0");
    assert_eq!(d("100").to_decimal_string(), "100");
    assert_eq!(Dec19x19::max_value().to_decimal_string(), "17014118346046923173.1687303715884105727");
    assert_eq!(Dec19x19::min_value().to_decimal_string(), "-17014118346046923173.1687303715884105728");
}

#[test]
fn format_with_options() {
    let mut f = plain();
    f.separator = Some('_');
    assert_eq!(d("1234567.8912345").format(&mut f), "1_234_567.891_234_5");
    let mut f = plain();
    f.precision = Some(2);
    assert_eq!(d("3.14159").format(&mut f), "3.14");
    assert_eq!(d("3.145").format(&mut f), "3.15");
    assert_eq!(d("3").format(&mut f), "3.00");
    let mut f = plain();
    f.sign_plus = true;
    assert_eq!(d("3").format(&mut f), "+3");
    assert_eq!(d("-3").format(&mut f), "-3");
    let mut f = plain();
    f.width = Some(6);
    f.fill = '*';
    assert_eq!(d("1.5").format(&mut f), "***1.5");
    f.align = Some(Alignment::Right);
    assert_eq!(d("1.5").format(&mut f), "***1.5");
    f.align = Some(Alignment::Left);
    assert_eq!(d("1.5").format(&mut f), "1.5***");
    f.align = Some(Alignment::Center);
    assert_eq!(d("1.5").format(&mut f), "*1.5**");
    f.width = Some(2);
    assert_eq!(d("1.5").format(&mut f), "1.5");
}

#[test]
fn format_then_parse_round_trips() {
    for seed in 0..200u64 {
        let x = Dec19x19::rand(seed, 0..=19, 0..=19);
        assert_eq!(Dec19x19::parse(&x.to_decimal_string()), Ok(x));
    }
    for x in [Dec19x19::max_value(), Dec19x19::min_value(), d("0"), d("-0.1")].iter() {
        assert_eq!(Dec19x19::parse(&x.to_decimal_string()), Ok(*x));
    }
}
