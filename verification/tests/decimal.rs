use orderbook::decimal::FixedDecimal;
use orderbook::decimal::MAX_MANTISSA;
use orderbook::decimal::MAX_SCALE;
use orderbook::decimal::UNITS_PER_WHOLE;
use rust_decimal::Decimal;
use std::str::FromStr;

fn dec(text: &str) -> FixedDecimal {
    FixedDecimal::parse(text).unwrap()
}

fn parts(text: &str) -> (i128, u32) {
    let d = dec(text);
    (d.mantissa(), d.scale())
}

#[test]
fn parse_keeps_the_written_scale() {
    assert_eq!(parts("10.5"), (105, 1));
    assert_eq!(parts("10.0"), (100, 1));
    assert_eq!(parts("10.00"), (1000, 2));
    assert_eq!(parts("5"), (5, 0));
    assert_eq!(parts("-0.5"), (-5, 1));
    assert_eq!(parts("0.00000000"), (0, 8));
    assert_eq!(parts("61840.01000000"), (6184001000000, 8));
}

#[test]
fn parse_takes_the_largest_mantissa() {
    assert_eq!(parts("79228162514264337593543950335"), (MAX_MANTISSA, 0));
    assert_eq!(parts("-79228162514264337593543950335"), (-MAX_MANTISSA, 0));
    assert_eq!(parts("0.0000000000000000000000000001"), (1, 28));
}

#[test]
fn parse_rejects_what_is_not_a_decimal() {
    assert_eq!(FixedDecimal::parse(""), None);
    assert_eq!(FixedDecimal::parse("abc"), None);
    assert_eq!(FixedDecimal::parse("1.2.3"), None);
    assert_eq!(FixedDecimal::parse("10.5x"), None);
    assert_eq!(FixedDecimal::parse("."), None);
    assert_eq!(FixedDecimal::parse("79228162514264337593543950336"), None);
}

#[test]
fn new_checks_the_range() {
    let d = FixedDecimal::new(105, 1).unwrap();
    assert_eq!((d.mantissa(), d.scale()), (105, 1));
    assert_eq!(d, dec("10.5"));
    assert!(FixedDecimal::new(MAX_MANTISSA, MAX_SCALE).is_some());
    assert!(FixedDecimal::new(-MAX_MANTISSA, 0).is_some());
    assert_eq!(FixedDecimal::new(MAX_MANTISSA + 1, 0), None);
    assert_eq!(FixedDecimal::new(-MAX_MANTISSA - 1, 0), None);
    assert_eq!(FixedDecimal::new(1, MAX_SCALE + 1), None);
    assert_eq!(FixedDecimal::new(i128::MIN, 0), None);
}

#[test]
fn zero_is_zero_at_any_scale() {
    assert!(dec("0").is_zero());
    assert!(dec("0.00000000").is_zero());
    assert!(dec("-0.0").is_zero());
    assert!(!dec("0.00000001").is_zero());
    assert!(!dec("-3").is_zero());
}

#[test]
fn equality_is_of_the_written_form() {
    assert_ne!(dec("10.0"), dec("10.00"));
    assert_eq!(dec("10.0").sort_key(), dec("10.00").sort_key());
}

#[test]
fn sort_key_is_floor_and_fraction() {
    let half = UNITS_PER_WHOLE / 2;
    assert_eq!(dec("10.5").sort_key(), (10, half));
    assert_eq!(dec("10").sort_key(), (10, 0));
    assert_eq!(dec("0").sort_key(), (0, 0));
    assert_eq!(dec("0.5").sort_key(), (0, half));
    assert_eq!(dec("-0.5").sort_key(), (-1, half));
    assert_eq!(dec("-2").sort_key(), (-2, 0));
    assert_eq!(dec("-2.25").sort_key(), (-3, UNITS_PER_WHOLE / 4 * 3));
    assert_eq!(dec("0.0000000000000000000000000001").sort_key(), (0, 1));
    assert_eq!(dec("-0.0000000000000000000000000001").sort_key(), (-1, UNITS_PER_WHOLE - 1));
    assert_eq!(FixedDecimal::new(MAX_MANTISSA, 0).unwrap().sort_key(), (MAX_MANTISSA, 0));
    assert_eq!(FixedDecimal::new(-MAX_MANTISSA, 0).unwrap().sort_key(), (-MAX_MANTISSA, 0));
    assert_eq!(
        FixedDecimal::new(MAX_MANTISSA, 28).unwrap().sort_key(),
        (7, 9_228_162_514_264_337_593_543_950_335)
    );
}

#[test]
fn sort_keys_order_as_the_numbers_do() {
    let texts = ["-79228162514264337593543950335", "-2.25", "-2", "-0.5", "0", "0.0000000000000000000000000001",
        "0.5", "9.99", "10", "10.5", "10.50000001", "79228162514264337593543950335"];
    for i in 0..texts.len() {
        for j in 0..texts.len() {
            assert_eq!(dec(texts[i]).sort_key() < dec(texts[j]).sort_key(), i < j);
        }
    }
}

#[test]
fn checked_sub_gives_the_difference() {
    assert_eq!(dec("10.5").checked_sub(&dec("10.0")), Some(dec("0.5")));
    assert_eq!(dec("10.0").checked_sub(&dec("10.5")), Some(dec("-0.5")));
    assert_eq!(dec("3").checked_sub(&dec("1")), Some(dec("2")));
    let d = dec("1").checked_sub(&dec("0.25")).unwrap();
    assert_eq!((d.mantissa(), d.scale()), (75, 2));
}

#[test]
fn checked_sub_is_absent_beyond_the_range() {
    let top = FixedDecimal::new(MAX_MANTISSA, 0).unwrap();
    let bottom = FixedDecimal::new(-MAX_MANTISSA, 0).unwrap();
    assert_eq!(top.checked_sub(&bottom), None);
    assert_eq!(bottom.checked_sub(&top), None);
    assert_eq!(top.checked_sub(&top).map(|d| d.is_zero()), Some(true));
}

const SAMPLES: [&str; 16] = [
    "-79228162514264337593543950335",
    "-7922816251426433759354395.0335",
    "-2.25",
    "-2.250",
    "-0.0000000000000000000000000001",
    "0",
    "0.000",
    "0.0000000000000000000000000001",
    "0.5",
    "0.50",
    "9.99",
    "10",
    "10.00000000",
    "10.5",
    "7.9228162514264337593543950335",
    "79228162514264337593543950335",
];

#[test]
fn sort_keys_compare_as_rust_decimal_does() {
    for a in SAMPLES {
        for b in SAMPLES {
            let x = Decimal::from_str(a).unwrap();
            let y = Decimal::from_str(b).unwrap();
            assert_eq!(dec(a).sort_key().cmp(&dec(b).sort_key()), x.cmp(&y), "{} against {}", a, b);
        }
    }
}

#[test]
fn checked_sub_is_rust_decimal_subtraction() {
    for a in SAMPLES {
        for b in SAMPLES {
            let x = Decimal::from_str(a).unwrap();
            let y = Decimal::from_str(b).unwrap();
            let expected = x.checked_sub(y).map(|d| (d.mantissa(), d.scale()));
            let got = dec(a).checked_sub(&dec(b)).map(|d| (d.mantissa(), d.scale()));
            assert_eq!(got, expected, "{} minus {}", a, b);
        }
    }
}
