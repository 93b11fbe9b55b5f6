//! Cryptocurrency tests: crypto-to-fiat conversions and formats.

use numr::{decimal as d, Currency, Dec, Engine};

fn rd(x: &Dec) -> rust_decimal::Decimal {
    rust_decimal::Decimal::from_i128_with_scale(
        if x.neg { -(x.mag as i128) } else { x.mag as i128 },
        x.scale,
    )
}

fn engine_with_btc_rate(rate: Dec) -> Engine {
    let mut engine = Engine::new();
    engine.set_exchange_rate(Currency::BTC, Currency::USD, rate);
    engine
}

#[test]
fn test_btc_formats() {
    let mut engine = Engine::new();

    assert_eq!(engine.eval("₿1").display_string(), "₿1.00");
    assert_eq!(engine.eval("1 BTC").display_string(), "₿1.00");
    assert_eq!(engine.eval("1 btc").display_string(), "₿1.00");
    assert_eq!(engine.eval("1 bitcoin").display_string(), "₿1.00");
}

#[test]
fn test_btc_to_usd_conversion() {
    let mut engine = engine_with_btc_rate(d("95000"));

    let result = engine.eval("₿1 in USD");
    assert_eq!(result.as_decimal(), Some(d("95000")));
    assert_eq!(result.display_string(), "$95000.00");

    let result = engine.eval("1 BTC in usd");
    assert_eq!(result.as_decimal(), Some(d("95000")));
    assert_eq!(result.display_string(), "$95000.00");

    let result = engine.eval("0.5 btc in USD");
    assert_eq!(result.as_decimal(), Some(d("47500")));
    assert_eq!(result.display_string(), "$47500.00");
}

#[test]
fn test_btc_fractional_amounts() {
    let mut engine = engine_with_btc_rate(d("95000"));

    let result = engine.eval("0.001 BTC in USD");
    assert_eq!(result.as_decimal(), Some(d("95")));
    assert_eq!(result.display_string(), "$95.00");

    let result = engine.eval("0.0001 BTC in USD");
    assert_eq!(result.as_decimal(), Some(d("9.5")));
    assert_eq!(result.display_string(), "$9.50");

    let result = engine.eval("0.01 btc in usd");
    assert_eq!(result.as_decimal(), Some(d("950")));
    assert_eq!(result.display_string(), "$950.00");
}

#[test]
fn test_usd_to_btc_conversion() {
    let mut engine = engine_with_btc_rate(d("95000"));

    let result = engine.eval("$95000 in BTC");
    let btc = result.as_decimal().unwrap();
    assert!(
        (rd(&btc) - rd(&d("1"))).abs() < rd(&d("0.0000001")),
        "Expected ~1 BTC, got {:?}",
        btc
    );
    assert_eq!(result.display_string(), "₿1.00");

    let result = engine.eval("$9500 in btc");
    let btc = result.as_decimal().unwrap();
    assert!(
        (rd(&btc) - rd(&d("0.1"))).abs() < rd(&d("0.0000001")),
        "Expected ~0.1 BTC, got {:?}",
        btc
    );
    assert_eq!(result.display_string(), "₿0.10");

    let result = engine.eval("$950 in bitcoin");
    let btc = result.as_decimal().unwrap();
    assert!(
        (rd(&btc) - rd(&d("0.01"))).abs() < rd(&d("0.0000001")),
        "Expected ~0.01 BTC, got {:?}",
        btc
    );
    assert_eq!(result.display_string(), "₿0.01");
}

#[test]
fn test_btc_arithmetic() {
    let mut engine = Engine::new();

    let result = engine.eval("₿0.5 + ₿0.25");
    assert_eq!(result.as_decimal(), Some(d("0.75")));
    assert_eq!(result.display_string(), "₿0.75");

    let result = engine.eval("₿1 - ₿0.3");
    assert_eq!(result.as_decimal(), Some(d("0.7")));
    assert_eq!(result.display_string(), "₿0.70");

    let result = engine.eval("₿0.1 * 5");
    assert_eq!(result.as_decimal(), Some(d("0.5")));
    assert_eq!(result.display_string(), "₿0.50");

    let result = engine.eval("₿1 / 4");
    assert_eq!(result.as_decimal(), Some(d("0.25")));
    assert_eq!(result.display_string(), "₿0.25");
}

#[test]
fn test_btc_with_custom_rate() {
    let mut engine = Engine::new();
    engine.set_exchange_rate(Currency::BTC, Currency::USD, d("100000"));

    let result = engine.eval("₿1 in USD");
    assert_eq!(result.as_decimal(), Some(d("100000")));
}
