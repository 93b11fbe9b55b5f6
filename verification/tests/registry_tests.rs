//! Tests for the currency registry, the dimensions and the unit registry.

use numr::{decimal as d, Currency, Dimensions};
use numr::unit::{parse_unit, format_exponent, format_dimensions};
use numr::decimal::format_plain;

#[test]
fn test_parse_currencies() {
    assert_eq!(Currency::parse("$"), Some(Currency::USD));
    assert_eq!(Currency::parse("USD"), Some(Currency::USD));
    assert_eq!(Currency::parse("usd"), Some(Currency::USD));
    assert_eq!(Currency::parse("dollars"), Some(Currency::USD));
    assert_eq!(Currency::parse("€"), Some(Currency::EUR));
    assert_eq!(Currency::parse("₿"), Some(Currency::BTC));
    assert_eq!(Currency::parse("bitcoin"), Some(Currency::BTC));
}

#[test]
fn test_all_currencies_have_defs() {
    for currency in Currency::all() {
        let def = currency.def();
        assert!(!def.symbol.is_empty());
        assert!(!def.code.is_empty());
        assert!(!def.aliases.is_empty());
    }
}

#[test]
fn test_dimensions_multiply() {
    let length = Dimensions::length(1);
    let area = length.multiply(length);
    assert_eq!(area.length, 2);
}

#[test]
fn test_dimensions_divide() {
    let length = Dimensions::length(1);
    let time = Dimensions::time(1);
    let speed = length.divide(time);
    assert_eq!(speed.length, 1);
    assert_eq!(speed.time, -1);
}

#[test]
fn test_parse_unit() {
    let meter = parse_unit("m").unwrap();
    assert_eq!(meter.factor, d("1"));
    assert_eq!(meter.dimensions, Dimensions::length(1));

    let km = parse_unit("km").unwrap();
    assert_eq!(km.factor, d("1000"));
}

#[test]
fn test_unit_conversion() {
    let km = parse_unit("km").unwrap();
    let m = parse_unit("m").unwrap();
    let result = km.convert_to(&d("1"), &m).unwrap();
    assert_eq!(result, d("1000"));
}

#[test]
fn test_compound_multiply() {
    let m = parse_unit("m").unwrap();
    let m2 = m.multiply(&m).unwrap();
    assert_eq!(m2.dimensions.length, 2);
}

#[test]
fn test_compound_divide() {
    let km = parse_unit("km").unwrap();
    let h = parse_unit("h").unwrap();
    let kmh = km.divide(&h).unwrap();
    assert_eq!(kmh.dimensions.length, 1);
    assert_eq!(kmh.dimensions.time, -1);
}

#[test]
fn test_format_exponent() {
    assert_eq!(format_exponent(2), "²");
    assert_eq!(format_exponent(3), "³");
    assert_eq!(format_exponent(-1), "⁻¹");
    assert_eq!(format_exponent(1), "");
}

#[test]
fn test_format_dimensions_speed() {
    let mut dims = Dimensions::length(1);
    dims.time = -1;
    assert_eq!(format_dimensions(&dims), "m/s");
}

#[test]
fn test_format_number() {
    assert_eq!(format_plain(&d("42")), "42");
    assert_eq!(format_plain(&d("3.14")), "3.14");
    assert_eq!(format_plain(&d("100.500")), "100.50");
}

#[test]
fn test_parse_unit_any_case() {
    let km = parse_unit("KM").unwrap();
    assert_eq!(km.factor, d("1000"));
    assert!(parse_unit("nothing").is_none());
}
