//! Integration tests: precision of displayed results, conversions chained
//! with arithmetic, and the `in`/`to` keywords.

use numr::{decimal as d, Currency, Engine};

fn rd(x: &numr::Dec) -> rust_decimal::Decimal {
    rust_decimal::Decimal::from_i128_with_scale(
        if x.neg { -(x.mag as i128) } else { x.mag as i128 },
        x.scale,
    )
}

fn assert_clean_display(result: &str) {
    let numeric: String = result
        .chars()
        .filter(|c| c.is_ascii_digit() || *c == '.' || *c == '-')
        .collect();

    if let Some(dot_pos) = numeric.find('.') {
        let decimals = numeric.len() - dot_pos - 1;
        assert!(
            decimals <= 6,
            "Too many decimal places in '{}': {} decimals (from '{}')",
            result,
            decimals,
            numeric
        );
    }
}

#[test]
fn test_decimal_precision_formatting() {
    let mut engine = Engine::new();

    engine.set_exchange_rate(Currency::USD, Currency::RUB, d("100"));

    let result = engine.eval("200 USD + 299 RUB");
    assert!(!result.is_error(), "Should evaluate: {:?}", result);
    let display = result.display_string();
    assert_clean_display(&display);

    engine.set_exchange_rate(Currency::USD, Currency::EUR, d("0.333333333"));
    let result = engine.eval("$100 in EUR");
    let display = result.display_string();
    assert_clean_display(&display);

    let result = engine.eval("10 / 3");
    let display = result.display_string();
    assert_clean_display(&display);

    let result = engine.eval("33.33% of 100");
    let display = result.display_string();
    assert_clean_display(&display);
}

#[test]
fn test_multiplication_operators() {
    let mut engine = Engine::new();

    assert_eq!(engine.eval("10 * 10").as_decimal(), Some(d("100")));
    assert_eq!(engine.eval("10 × 10").as_decimal(), Some(d("100")));
}

#[test]
fn test_complex_expressions() {
    let mut engine = Engine::new();

    assert_eq!(engine.eval("10 + 20 * 3").as_decimal(), Some(d("70")));
    assert_eq!(engine.eval("(10 + 20) * 3").as_decimal(), Some(d("90")));

    engine.eval("x = 5");
    engine.eval("y = 10");
    assert_eq!(engine.eval("x * y").as_decimal(), Some(d("50")));

    assert_eq!(engine.eval("20% of 150").as_decimal(), Some(d("30")));
}

#[test]
fn test_currency_conversion() {
    let mut engine = Engine::new();

    engine.set_exchange_rate(Currency::USD, Currency::EUR, d("0.85"));

    let result = engine.eval("$100 in EUR");
    assert_eq!(result.as_decimal(), Some(d("85")));
    assert_eq!(result.display_string(), "€85.00");
    assert_clean_display(&result.display_string());

    let result = engine.eval("€85 in USD");
    assert_eq!(result.as_decimal(), Some(d("100")));
    assert_eq!(result.display_string(), "$100.00");
    assert_clean_display(&result.display_string());

    engine.set_exchange_rate(Currency::USD, Currency::GBP, d("0.75"));
    let result = engine.eval("$200 in GBP");
    assert_eq!(result.as_decimal(), Some(d("150")));
    assert_eq!(result.display_string(), "£150.00");
    assert_clean_display(&result.display_string());
}

#[test]
fn test_currency_conversion_then_add() {
    let mut engine = Engine::new();

    engine.set_exchange_rate(Currency::USD, Currency::EUR, d("0.92"));
    engine.set_exchange_rate(Currency::USD, Currency::ILS, d("3.65"));
    engine.set_exchange_rate(Currency::USD, Currency::RUB, d("100"));

    let result = engine.eval("200 rub in ils + 500 eur");
    assert!(!result.is_error(), "Expected successful eval, got: {:?}", result);

    let amount = result.as_decimal().expect("should have decimal value");
    assert!(
        rd(&amount) > rd(&d("1980")) && rd(&amount) < rd(&d("2000")),
        "Expected ~1991 ILS, got {:?}",
        amount
    );
    assert_clean_display(&result.display_string());
}

#[test]
fn test_inch_unit() {
    let mut engine = Engine::new();

    assert_eq!(engine.eval("5 inches").display_string(), "5 in");

    let result = engine.eval("5 in");
    assert!(!result.is_error(), "5 in should parse as 5 inches: {:?}", result);
    assert_eq!(result.display_string(), "5 in");

    let result = engine.eval("5 inches to cm");
    assert!(!result.is_error(), "5 inches to cm should work: {:?}", result);
    let amount = result.as_decimal().expect("should have decimal value");
    assert!(
        rd(&amount) > rd(&d("12.6")) && rd(&amount) < rd(&d("12.8")),
        "Expected ~12.7 cm, got {:?}",
        amount
    );
    assert_clean_display(&result.display_string());
}

#[test]
fn test_in_conversion_keyword() {
    let mut engine = Engine::new();

    engine.set_exchange_rate(Currency::USD, Currency::EUR, d("0.85"));

    let result = engine.eval("$100 in EUR");
    assert!(!result.is_error(), "$100 in EUR should be currency conversion");
    assert_eq!(result.as_decimal(), Some(d("85")));
    assert_clean_display(&result.display_string());

    let result = engine.eval("100 USD in EUR");
    assert_eq!(result.as_decimal(), Some(d("85")));
    assert_clean_display(&result.display_string());
}

#[test]
fn test_to_conversion_keyword() {
    let mut engine = Engine::new();

    engine.set_exchange_rate(Currency::USD, Currency::EUR, d("0.85"));
    engine.set_exchange_rate(Currency::USD, Currency::GBP, d("0.75"));

    let result = engine.eval("$100 to EUR");
    assert_eq!(result.as_decimal(), Some(d("85")));
    assert_eq!(result.display_string(), "€85.00");
    assert_clean_display(&result.display_string());

    let result = engine.eval("1 km to m");
    assert_eq!(result.as_decimal(), Some(d("1000")));
    assert_clean_display(&result.display_string());

    let result = engine.eval("$50 to EUR + $50 to GBP");
    assert!(!result.is_error(), "Chained to conversions should work: {:?}", result);
    let amount = result.as_decimal().expect("should have decimal value");
    assert!(
        rd(&amount) > rd(&d("74")) && rd(&amount) < rd(&d("76")),
        "Expected ~75 GBP, got {:?}",
        amount
    );
    assert_clean_display(&result.display_string());
}
