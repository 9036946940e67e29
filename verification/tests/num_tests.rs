//! Decimal, integer and date parsing.

use svue::decoder::Date;
use svue::decoder::parse_date;
use svue::num::Decimal;
use svue::num::parse_decimal;
use svue::num::parse_i8;

#[test]
fn decimal_whole() {
    assert!(parse_decimal("95") == Some(Decimal { negative: false, mantissa: 95, scale: 0 }));
}

#[test]
fn decimal_trailing_zeroes_normalize() {
    assert!(parse_decimal("7.50") == Some(Decimal { negative: false, mantissa: 75, scale: 1 }));
    assert!(parse_decimal("7.5") == parse_decimal("7.50"));
}

#[test]
fn decimal_leading_zeroes() {
    assert!(parse_decimal("0007") == Some(Decimal { negative: false, mantissa: 7, scale: 0 }));
}

#[test]
fn decimal_negative() {
    assert!(parse_decimal("-3.2") == Some(Decimal { negative: true, mantissa: 32, scale: 1 }));
}

#[test]
fn decimal_negative_zero_is_zero() {
    assert!(parse_decimal("-0.0") == Some(Decimal { negative: false, mantissa: 0, scale: 0 }));
}

#[test]
fn decimal_two_dots_rejected() {
    assert!(parse_decimal("1.2.3") == None);
}

#[test]
fn decimal_empty_rejected() {
    assert!(parse_decimal("") == None);
    assert!(parse_decimal(".") == None);
    assert!(parse_decimal("-") == None);
}

#[test]
fn integer_range() {
    assert!(parse_i8("-128") == Some(-128));
    assert!(parse_i8("127") == Some(127));
    assert!(parse_i8("128") == None);
    assert!(parse_i8("-129") == None);
    assert!(parse_i8("+12") == Some(12));
    assert!(parse_i8("1a") == None);
}

#[test]
fn date_parses() {
    assert!(parse_date("1/2/2015") == Some(Date { year: 2015, month: 1, day: 2 }));
    assert!(parse_date("11/25/2015") == Some(Date { year: 2015, month: 11, day: 25 }));
}

#[test]
fn date_rejects_bad_calendar_days() {
    assert!(parse_date("2/30/2015") == None);
    assert!(parse_date("13/1/2015") == None);
    assert!(parse_date("not a date") == None);
}
