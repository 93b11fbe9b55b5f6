//! Longer session calculations: variables that build on each other, unit
//! multiplication, conversions from variables, and comma-grouped numbers.

use numr::{decimal as d, Currency, Engine};

fn rd(x: &numr::Dec) -> rust_decimal::Decimal {
    rust_decimal::Decimal::from_i128_with_scale(
        if x.neg { -(x.mag as i128) } else { x.mag as i128 },
        x.scale,
    )
}

fn create_engine() -> Engine {
    let mut engine = Engine::new();
    engine.set_exchange_rate(Currency::USD, Currency::ILS, d("3.65"));
    engine.set_exchange_rate(Currency::USD, Currency::EUR, d("0.92"));
    engine.set_exchange_rate(Currency::USD, Currency::RUB, d("92"));
    engine.set_exchange_rate(Currency::BTC, Currency::USD, d("60000"));
    engine
}

#[test]
fn test_unit_times_currency() {
    let mut engine = create_engine();

    let result = engine.eval("45h * 85 usd");
    assert!(!result.is_error(), "Should not error: {:?}", result);

    let formatted = result.display_string();
    assert!(
        formatted.contains('$') || formatted.to_lowercase().contains("usd"),
        "45h * 85 usd should produce USD, got: {formatted}"
    );

    assert_eq!(result.as_decimal(), Some(d("3825")));
}

#[test]
fn test_currency_times_months() {
    let mut engine = create_engine();

    let result = engine.eval("340 usd * 12 months");
    assert!(!result.is_error(), "340 usd * 12 months should work: {:?}", result);

    assert_eq!(result.as_decimal(), Some(d("4080")));
}

#[test]
fn test_variable_unit_conversion() {
    let mut engine = create_engine();

    engine.eval("flight_km = 9500 km");

    let result = engine.eval("flight_km in miles");
    assert!(!result.is_error(), "Unit conversion from variable should work: {:?}", result);

    let miles = result.as_decimal().unwrap();
    assert!(
        (rd(&miles) - rd(&d("5903.4"))).abs() < rd(&d("1")),
        "9500 km should be ~5903 miles, got {:?}",
        miles
    );
}

#[test]
fn test_ratio_to_unit_conversion() {
    let mut engine = create_engine();

    engine.eval("liquid = 1000 usd");
    engine.eval("expenses = 100 usd");
    let runway = engine.eval("(liquid / expenses) in months");
    assert!(!runway.is_error(), "Currency ratio to unit should work: {:?}", runway);
    assert_eq!(runway.as_decimal(), Some(d("10")));

    let result = engine.eval("(500 usd / 50 usd) in months");
    assert!(!result.is_error(), "Inline ratio to unit should work: {:?}", result);
    assert_eq!(result.as_decimal(), Some(d("10")));
}

#[test]
fn test_mixed_unit_arithmetic() {
    let mut engine = create_engine();

    let result = engine.eval("1 km + 500 m");
    assert!(!result.is_error(), "Should add compatible units: {:?}", result);
    assert_eq!(result.as_decimal(), Some(d("1.5")));
}

#[test]
fn test_percentage_increase_decrease() {
    let mut engine = create_engine();

    let result = engine.eval("100 + 10%");
    assert_eq!(result.as_decimal(), Some(d("110")));

    let result = engine.eval("100 - 20%");
    assert_eq!(result.as_decimal(), Some(d("80")));
}

#[test]
fn test_comma_separated_numbers() {
    let mut engine = create_engine();

    let result = engine.eval("$4,250");
    assert_eq!(result.as_decimal(), Some(d("4250")));
    assert_eq!(result.display_string(), "$4250.00");

    let result = engine.eval("1,234,567");
    assert_eq!(result.as_decimal(), Some(d("1234567")));

    let result = engine.eval("$1,000 + $2,500");
    assert_eq!(result.as_decimal(), Some(d("3500")));
    assert_eq!(result.display_string(), "$3500.00");

    let result = engine.eval("$1,234.56");
    assert_eq!(result.as_decimal(), Some(d("1234.56")));
    assert_eq!(result.display_string(), "$1234.56");
}

#[test]
fn test_bank_account_totals() {
    let mut engine = create_engine();

    engine.eval("checking = $4,250");
    engine.eval("savings = $12,800");
    let total_usd = engine.eval("total_usd = checking + savings");
    assert_eq!(total_usd.as_decimal(), Some(d("17050")));

    engine.eval("ils_account = ₪45,000");
    let ils_in_usd = engine.eval("ils_in_usd = ils_account in usd");
    let v = ils_in_usd.as_decimal().unwrap();
    assert!((rd(&v) - rd(&d("12328.77"))).abs() < rd(&d("1")));

    engine.eval("btc_wallet = 0.42 btc");
    let btc_usd = engine.eval("btc_usd = btc_wallet in usd");
    assert_eq!(btc_usd.as_decimal(), Some(d("25200")));

    let liquid = engine.eval("liquid = total_usd + ils_in_usd + btc_usd");
    let lv = liquid.as_decimal().unwrap();
    assert!((rd(&lv) - rd(&d("54578.77"))).abs() < rd(&d("10")));
}

#[test]
fn test_week_hours() {
    let mut engine = create_engine();

    let week = engine.eval("week_hours = 6.5h + 8h + 7.5h + 8h + 5h");
    let v = week.as_decimal().unwrap();
    assert!((rd(&v) - rd(&d("35"))).abs() < rd(&d("0.01")));

    let overtime = engine.eval("overtime = week_hours - 40h");
    let ov = overtime.as_decimal().unwrap();
    assert!((rd(&ov) - rd(&d("-5"))).abs() < rd(&d("0.01")));
}

#[test]
fn test_monthly_expenses() {
    let mut engine = create_engine();

    let monthly = engine.eval("monthly_fixed = 1850 usd + 900 ils + 90 ils + 70 ils + 50 usd");
    let v = monthly.as_decimal().unwrap();
    assert!((rd(&v) - rd(&d("2190.41"))).abs() < rd(&d("1")), "got {:?}", v);
}
