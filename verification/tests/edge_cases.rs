//! Edge cases: division by zero, redefinition, case sensitivity and the
//! exactness of decimal arithmetic.

use numr::{Engine, Value, decimal as d};
use rust_decimal::Decimal;
use std::str::FromStr;

fn rd(x: &numr::Dec) -> rust_decimal::Decimal {
    rust_decimal::Decimal::from_i128_with_scale(
        if x.neg { -(x.mag as i128) } else { x.mag as i128 },
        x.scale,
    )
}

#[test]
fn test_division_by_zero() {
    let mut engine = Engine::new();
    let result = engine.eval("100 / 0");
    assert!(matches!(result, Value::Error(_)));
}

#[test]
fn test_division_by_zero_percentage() {
    let mut engine = Engine::new();
    let result = engine.eval("x = 100");
    assert!(!result.is_error());
    let result = engine.eval("x / 0%");
    assert!(matches!(result, Value::Error(_)));
}

#[test]
fn test_recursive_definition() {
    let mut engine = Engine::new();
    engine.eval("x = 10");
    let _result = engine.eval("x = x + 1");

    let mut engine2 = Engine::new();
    let result2 = engine2.eval("y = y + 1");
    assert!(matches!(result2, Value::Error(_)));
}

#[test]
fn test_case_sensitivity() {
    let mut engine = Engine::new();
    engine.eval("Var = 10");
    engine.eval("var = 20");

    let res1 = engine.eval("Var");
    let res2 = engine.eval("var");

    assert_eq!(res1.as_decimal(), Some(d("10")));
    assert_eq!(res2.as_decimal(), Some(d("20")));
}

#[test]
fn test_unit_mismatch() {
    let mut engine = Engine::new();
    let result = engine.eval("10 kg + 5 meters");
    assert!(matches!(result, Value::Error(_)));
}

#[test]
fn test_floating_point_precision() {
    let mut engine = Engine::new();
    let result = engine.eval("0.1 + 0.2");

    let decimal_val = result.as_decimal().expect("Expected a decimal");
    let expected = Decimal::from_str("0.3").unwrap();
    assert_eq!(
        rd(&decimal_val), expected,
        "0.1 + 0.2 should be exactly 0.3"
    );
}

#[test]
fn test_decimal_precision_financial() {
    let mut engine = Engine::new();

    let result = engine.eval("$19.99 * 3");
    let decimal_val = result.as_decimal().expect("Expected a decimal");
    let expected = Decimal::from_str("59.97").unwrap();
    assert_eq!(rd(&decimal_val), expected, "Currency multiplication precision");

    let result = engine.eval("15% of $199.99");
    let decimal_val = result.as_decimal().expect("Expected a decimal");
    let expected = Decimal::from_str("29.9985").unwrap();
    assert_eq!(rd(&decimal_val), expected, "Percentage calculation precision");
}

#[test]
fn test_decimal_precision_accumulation() {
    let mut engine = Engine::new();

    engine.eval("a = 0.1");
    let result = engine.eval("a + a + a + a + a + a + a + a + a + a");
    let decimal_val = result.as_decimal().expect("Expected a decimal");
    assert_eq!(rd(&decimal_val), Decimal::ONE, "Accumulated addition should be exact");
}

#[test]
fn test_decimal_division_precision() {
    let mut engine = Engine::new();

    let result = engine.eval("(1 / 3) * 3");
    let decimal_val = result.as_decimal().expect("Expected a decimal");
    let diff = (rd(&decimal_val) - Decimal::ONE).abs();
    assert!(
        diff < Decimal::from_str("0.0000000001").unwrap(),
        "Division/multiplication should preserve precision: got {decimal_val:?}"
    );
}

#[test]
fn test_parentheses_with_variables() {
    let mut engine = Engine::new();
    engine.eval("x = 10");
    engine.eval("y = 5");

    let res1 = engine.eval("(x + y) * 2");
    assert_eq!(res1.as_decimal(), Some(d("30")));

    let res2 = engine.eval("x + (y * 2)");
    assert_eq!(res2.as_decimal(), Some(d("20")));

    let res3 = engine.eval("((x + y) * 2) / 3");
    assert_eq!(res3.as_decimal(), Some(d("10")));
}

#[test]
fn test_parentheses_with_units() {
    let mut engine = Engine::new();

    let res = engine.eval("(1 km + 500 m) in m");
    assert_eq!(res.as_decimal(), Some(d("1500")));
}

#[test]
fn test_complex_unit_conversions() {
    let mut engine = Engine::new();

    let res_temp = engine.eval("100 C in F");
    let temp_val = res_temp.as_decimal().unwrap();
    assert!(
        (rd(&temp_val) - rd(&d("212"))).abs() < rd(&d("0.0001")),
        "Expected ~212, got {temp_val:?}"
    );

    let res_weight = engine.eval("1 kg in g");
    assert_eq!(res_weight.as_decimal(), Some(d("1000")));

    let res_mixed = engine.eval("(1 kg * 2) in g");
    assert_eq!(res_mixed.as_decimal(), Some(d("2000")));
}
