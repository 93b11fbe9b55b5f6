//! Shopping, cooking, travel and salary scenarios.

use numr::{decimal as d, Currency, Engine};

fn rd(x: &numr::Dec) -> rust_decimal::Decimal {
    rust_decimal::Decimal::from_i128_with_scale(
        if x.neg { -(x.mag as i128) } else { x.mag as i128 },
        x.scale,
    )
}

#[test]
fn test_discount_calculation() {
    let mut engine = Engine::new();
    let result = engine.eval("$150 - 20% of $150");
    assert_eq!(result.as_decimal(), Some(d("120")));
}

#[test]
fn test_tip_calculation() {
    let mut engine = Engine::new();
    let result = engine.eval("15% of $85");
    assert_eq!(result.as_decimal(), Some(d("12.75")));
}

#[test]
fn test_split_bill() {
    let mut engine = Engine::new();
    let result = engine.eval("$120 / 4");
    assert_eq!(result.as_decimal(), Some(d("30")));
}

#[test]
fn test_tax_inclusive_price() {
    let mut engine = Engine::new();
    let result = engine.eval("$100 + 8%");
    assert_eq!(result.as_decimal(), Some(d("108")));
}

#[test]
fn test_cooking_conversion() {
    let mut engine = Engine::new();
    let result = engine.eval("500 ml to cups");
    assert!(!result.is_error(), "Got: {:?}", result);
    let amount = result.as_decimal().unwrap();
    assert!(rd(&amount) > rd(&d("2")) && rd(&amount) < rd(&d("2.2")));
}

#[test]
fn test_temperature_conversion() {
    let mut engine = Engine::new();
    let result = engine.eval("350 fahrenheit to celsius");
    assert!(!result.is_error(), "Got: {:?}", result);
    let amount = result.as_decimal().unwrap();
    assert!(rd(&amount) > rd(&d("175")) && rd(&amount) < rd(&d("178")));
}

#[test]
fn test_distance_for_travel() {
    let mut engine = Engine::new();
    let result = engine.eval("42.195 km to miles");
    assert!(!result.is_error(), "Got: {:?}", result);
    let amount = result.as_decimal().unwrap();
    assert!(rd(&amount) > rd(&d("26.1")) && rd(&amount) < rd(&d("26.3")));
}

#[test]
fn test_hourly_to_annual() {
    let mut engine = Engine::new();
    let result = engine.eval("25 * 40 * 52");
    assert_eq!(result.as_decimal(), Some(d("52000")));
}

#[test]
fn test_monthly_savings() {
    let mut engine = Engine::new();
    engine.eval("income = 5000");
    engine.eval("rent = 1500");
    engine.eval("utilities = 200");
    engine.eval("food = 600");
    let result = engine.eval("income - rent - utilities - food");
    assert_eq!(result.as_decimal(), Some(d("2700")));
}

#[test]
fn test_loan_monthly_payment_simple() {
    let mut engine = Engine::new();
    let result = engine.eval("(10000 + 5% of 10000) / 12");
    assert_eq!(result.as_decimal(), Some(d("875")));
}

#[test]
fn test_hours_to_minutes() {
    let mut engine = Engine::new();
    let result = engine.eval("2.5 hours to minutes");
    assert_eq!(result.as_decimal(), Some(d("150")));
}

#[test]
fn test_work_hours() {
    let mut engine = Engine::new();
    let result = engine.eval("8 * 5");
    assert_eq!(result.as_decimal(), Some(d("40")));
}

#[test]
fn test_real_life_scenario() {
    let mut engine = Engine::new();
    engine.set_exchange_rate(Currency::USD, Currency::RUB, d("60"));
    engine.set_exchange_rate(Currency::ILS, Currency::RUB, d("10"));

    let res1 = engine.eval("wit = 300$ in rub");
    assert_eq!(res1.as_decimal(), Some(d("18000")));
    assert_eq!(res1.display_string(), "18000.00₽");

    let res2 = engine.eval("string here before wit + 200 ils in usd");
    assert!(res2.display_string().contains("$"));

    let res3 = engine.eval("total");
    assert!(rd(&res3.as_decimal().unwrap()) > rd(&d("600")));

    let res4 = engine.eval("$4000");
    assert_eq!(res4.as_decimal(), Some(d("4000")));
    assert_eq!(res4.display_string(), "$4000.00");

    let res5 = engine.eval("3500$");
    assert_eq!(res5.as_decimal(), Some(d("3500")));
    assert_eq!(res5.display_string(), "$3500.00");

    let res6 = engine.eval("3500 $");
    assert_eq!(res6.as_decimal(), Some(d("3500")));
    assert_eq!(res6.display_string(), "$3500.00");

    let res7 = engine.eval("$ 4000");
    assert_eq!(res7.as_decimal(), Some(d("4000")));
    assert_eq!(res7.display_string(), "$4000.00");

    engine.set_exchange_rate(Currency::BTC, Currency::USD, d("95000"));
    let res8 = engine.eval("1 btc in usd");
    assert_eq!(res8.as_decimal(), Some(d("95000")));
    assert_eq!(res8.display_string(), "$95000.00");

    let res9 = engine.eval("100 eur in usd");
    assert!(res9.display_string().contains("$"));
    assert!(res9.as_decimal().is_some());

    let res10 = engine.eval("100 jpy in usd");
    assert!(res10.display_string().contains("$"));
    assert!(res10.as_decimal().is_some());
}

#[test]
fn test_mixed_currency_with_trailing_text() {
    let mut engine = Engine::new();
    engine.set_exchange_rate(Currency::USD, Currency::RUB, d("100"));
    engine.set_exchange_rate(Currency::USD, Currency::EUR, d("0.9"));

    let result = engine.eval("10000 rubles + 1000 usd in eur");
    assert_eq!(result.as_decimal(), Some(d("990")));
    assert_eq!(result.display_string(), "€990.00");

    let result = engine.eval("10000 rubles + 1000 usd in eur and some text here without comment");
    assert_eq!(result.as_decimal(), Some(d("990")));
    assert_eq!(result.display_string(), "€990.00");
}
