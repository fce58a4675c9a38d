use rust_lox::common::decimal::{check_decimal_literal, scientific_to_positional};
use rust_lox::common::text::{concatenate, decimal_string};
use rust_lox::Number;

fn number(value: f64) -> Number {
    Number::from_bits(value.to_bits())
}

fn value(n: Number) -> f64 {
    f64::from_bits(n.to_bits())
}

fn samples() -> Vec<f64> {
    vec![
        0.0,
        -0.0,
        1.0,
        -1.0,
        2.0,
        3.0,
        0.1,
        0.2,
        0.5,
        1.5,
        7.0,
        10.0,
        100.0,
        720.0,
        1e15,
        1e16,
        1e21,
        1e22,
        1e-7,
        1e-5,
        0.000001,
        123456789.125,
        1.0 / 3.0,
        2.0 / 3.0,
        6.02214076e23,
        9007199254740992.0,
        9007199254740993.0,
        f64::MAX,
        f64::MIN_POSITIVE,
        5e-324,
        -2.5e-3,
        1125899906842624.5,
        1125899906842624.25,
        1125899906842624.75,
        4503599627370496.5,
        0.3,
        2.2250738585072014e-308,
        1e23,
        9.5,
        1e-320,
    ]
}

#[test]
fn sums_match_hardware() {
    for a in samples() {
        for b in samples() {
            assert_eq!(value(number(a).add(&number(b))).to_bits(), (a + b).to_bits(), "{} + {}", a, b);
        }
    }
}

#[test]
fn differences_match_hardware() {
    for a in samples() {
        for b in samples() {
            let expected = a - b;
            let got = value(number(a).subtract(&number(b)));
            assert_eq!(got.to_bits(), expected.to_bits(), "{} - {}", a, b);
        }
    }
}

#[test]
fn products_match_hardware() {
    for a in samples() {
        for b in samples() {
            let expected = a * b;
            let got = value(number(a).multiply(&number(b)));
            assert_eq!(got.to_bits(), expected.to_bits(), "{} * {}", a, b);
        }
    }
}

#[test]
fn quotients_match_hardware() {
    for a in samples() {
        for b in samples() {
            let expected = a / b;
            let got = value(number(a).divide(&number(b)));
            if expected.is_nan() {
                assert!(got.is_nan(), "{} / {}", a, b);
            } else {
                assert_eq!(got.to_bits(), expected.to_bits(), "{} / {}", a, b);
            }
        }
    }
}

#[test]
fn one_plus_two_is_three() {
    assert_eq!(value(number(1.0).add(&number(2.0))), 3.0);
    assert_eq!(value(number(5.0).subtract(&number(2.0))), 3.0);
    assert_eq!(value(number(1.5).multiply(&number(2.0))), 3.0);
    assert_eq!(value(number(6.0).divide(&number(2.0))), 3.0);
}

#[test]
fn comparisons_match_hardware() {
    let mut all = samples();
    all.push(f64::NAN);
    all.push(f64::INFINITY);
    all.push(f64::NEG_INFINITY);
    for a in all.clone() {
        for b in all.clone() {
            assert_eq!(number(a).less_than(&number(b)), a < b, "{} < {}", a, b);
            assert_eq!(number(a).equals(&number(b)), a == b, "{} == {}", a, b);
            assert_eq!(number(a).less_or_equal(&number(b)), a <= b, "{} <= {}", a, b);
        }
    }
}

#[test]
fn classification_matches_hardware() {
    let mut all = samples();
    all.push(f64::NAN);
    all.push(f64::INFINITY);
    all.push(f64::NEG_INFINITY);
    for a in all {
        assert_eq!(number(a).is_nan(), a.is_nan());
        assert_eq!(number(a).is_infinite(), a.is_infinite());
        assert_eq!(number(a).is_zero(), a == 0.0);
        assert_eq!(number(a).is_sign_negative(), a.is_sign_negative());
        assert_eq!(number(a).negate().to_bits(), (-a).to_bits());
    }
}

#[test]
fn zero_is_positive_zero() {
    assert_eq!(Number::zero().to_bits(), 0);
    assert!(Number::zero().is_zero());
    assert!(!Number::zero().is_sign_negative());
}

#[test]
fn integers_convert_as_hardware_does() {
    for i in [0i64, 1, -1, 42, 1700000000, 9007199254740992, 9007199254740993, i64::MAX, i64::MIN] {
        assert_eq!(Number::from_integer(i).to_bits(), (i as f64).to_bits(), "{}", i);
    }
}

#[test]
fn literals_parse_as_hardware_does() {
    for text in [
        "0",
        "1",
        "7",
        "3.14",
        "0.1",
        "0.5",
        "10.25",
        "123456789012345678901234567890",
        "0.000000000000000000000000000001",
        "9007199254740993",
        "1.7976931348623157",
        "179769313486231570000000000000000000000000000000000",
        "4.35",
        "0.30000000000000004",
    ] {
        let expected: f64 = text.parse().unwrap();
        let got = Number::parse(text).expect(text);
        assert_eq!(got.to_bits(), expected.to_bits(), "{}", text);
    }
}

#[test]
fn only_decimal_literals_parse() {
    for text in ["", ".", "1.", ".5", "1..2", "1.2.3", "-1", "+1", "1e5", "abc", "1 ", "inf", "nan", "0x10"] {
        assert!(Number::parse(text).is_none(), "{:?}", text);
        let chars: Vec<char> = text.chars().collect();
        assert!(!check_decimal_literal(&chars), "{:?}", text);
    }
    for text in ["0", "12", "1.5", "007.250"] {
        let chars: Vec<char> = text.chars().collect();
        assert!(check_decimal_literal(&chars), "{:?}", text);
    }
}

#[test]
fn numbers_display_as_hardware_does() {
    let mut all = samples();
    all.push(f64::NAN);
    all.push(f64::INFINITY);
    all.push(f64::NEG_INFINITY);
    all.push(0.1 + 0.2);
    all.push(-720.0);
    all.push(1e300);
    all.push(1.0e-300);
    for a in all {
        assert_eq!(number(a).to_string(), format!("{}", a), "bits {:x}", a.to_bits());
    }
}

#[test]
fn display_reads_back() {
    for a in samples() {
        let text = number(a.abs()).to_string();
        let back: f64 = text.parse().unwrap();
        assert_eq!(back.to_bits(), a.abs().to_bits(), "{}", text);
    }
}

#[test]
fn integers_display_without_a_point() {
    assert_eq!(number(7.0).to_string(), "7");
    assert_eq!(number(720.0).to_string(), "720");
    assert_eq!(number(-3.0).to_string(), "-3");
    assert_eq!(number(0.0).to_string(), "0");
    assert_eq!(number(-0.0).to_string(), "-0");
    assert_eq!(number(2.5).to_string(), "2.5");
    assert_eq!(number(0.001).to_string(), "0.001");
    assert_eq!(number(f64::NAN).to_string(), "NaN");
    assert_eq!(number(f64::INFINITY).to_string(), "inf");
    assert_eq!(number(f64::NEG_INFINITY).to_string(), "-inf");
}

fn positional(text: &str) -> Option<String> {
    let chars: Vec<char> = text.chars().collect();
    scientific_to_positional(&chars).map(|numeral| numeral.into_iter().collect())
}

#[test]
fn scientific_texts_become_positional() {
    assert_eq!(positional("1.5E+0").as_deref(), Some("1.5"));
    assert_eq!(positional("1.0E+0").as_deref(), Some("1"));
    assert_eq!(positional("7.0E+0").as_deref(), Some("7"));
    assert_eq!(positional("1.0E-1").as_deref(), Some("0.1"));
    assert_eq!(positional("1.25E-3").as_deref(), Some("0.00125"));
    assert_eq!(positional("1.2345E+2").as_deref(), Some("123.45"));
    assert_eq!(positional("1.2345E+4").as_deref(), Some("12345"));
    assert_eq!(positional("1.2345E+6").as_deref(), Some("1234500"));
    assert_eq!(positional("1.2300E+1").as_deref(), Some("12.3"));
    assert_eq!(positional("1.0E+21").as_deref(), Some("1000000000000000000000"));
    assert_eq!(positional("5.0E-0").as_deref(), Some("5"));
}

#[test]
fn other_texts_are_not_scientific() {
    for text in ["", "1", "1.5", "1.5E", "1.5E+", "15E+1", "1.5e+1", "1.5E1", "a.5E+1", "1.xE+1", "1.5E+x", "1.5E+12345", "1.E+1", "-1.5E+1", "1.5E+1E+2"] {
        assert!(positional(text).is_none(), "{:?}", text);
    }
}

#[test]
fn decimal_numerals() {
    assert_eq!(decimal_string(0), "0");
    assert_eq!(decimal_string(7), "7");
    assert_eq!(decimal_string(10), "10");
    assert_eq!(decimal_string(255), "255");
    assert_eq!(decimal_string(1234567890), "1234567890");
    assert_eq!(decimal_string(usize::MAX), usize::MAX.to_string());
}

#[test]
fn texts_are_joined() {
    assert_eq!(concatenate("hi ", "there"), "hi there");
    assert_eq!(concatenate("", ""), "");
    assert_eq!(concatenate("héllo ", "wörld"), "héllo wörld");
}

#[test]
fn literals_are_read_directly() {
    assert_eq!(Number::from_literal("1").to_bits(), 1.0f64.to_bits());
    assert_eq!(Number::from_literal("0.25").to_bits(), 0.25f64.to_bits());
    assert_eq!(Number::from_literal("000").to_bits(), 0.0f64.to_bits());
    let long = "1".repeat(400);
    assert_eq!(Number::from_literal(&long).to_bits(), f64::INFINITY.to_bits());
    let small = format!("0.{}1", "0".repeat(400));
    assert_eq!(Number::from_literal(&small).to_bits(), 0.0f64.to_bits());
    assert_eq!(Number::parse(&long).unwrap().to_bits(), long.parse::<f64>().unwrap().to_bits());
}
