//! Cross-cutting behavior checks: repeated lookups give the same value,
//! conversion round trips, rate inversion, percentage asymmetry,
//! continuation sums, mixed-type rejection, dimensional display, rate
//! resolution over two hops, division by zero, and the built-in functions.

use numr::{decimal as d, Currency, Engine, RateGraph, Value};
use numr::unit::parse_unit;

fn rd(x: &numr::Dec) -> rust_decimal::Decimal {
    rust_decimal::Decimal::from_i128_with_scale(
        if x.neg { -(x.mag as i128) } else { x.mag as i128 },
        x.scale,
    )
}

#[test]
fn test_assignment_then_lookup_same_value() {
    let mut engine = Engine::new();
    let first = engine.eval("x = 10");
    let second = engine.eval("x");
    assert_eq!(first.as_decimal(), second.as_decimal());
    assert_eq!(first.display_string(), second.display_string());
    let third = engine.eval("x");
    assert_eq!(second.as_decimal(), third.as_decimal());
}

#[test]
fn test_unit_round_trip() {
    let km = parse_unit("km").unwrap();
    let mi = parse_unit("mi").unwrap();
    let v = d("42.195");
    let there = km.convert_to(&v, &mi).unwrap();
    let back = mi.convert_to(&there, &km).unwrap();
    assert!((rd(&back) - rd(&v)).abs() < rd(&d("0.0000001")));

    let c = parse_unit("c").unwrap();
    let f = parse_unit("f").unwrap();
    let t = d("36.6");
    let tf = c.convert_to(&t, &f).unwrap();
    let tc = f.convert_to(&tf, &c).unwrap();
    assert!((rd(&tc) - rd(&t)).abs() < rd(&d("0.0000001")));
}

#[test]
fn test_rate_inversion() {
    let mut g = RateGraph::new();
    g.set_rate(Currency::USD, Currency::EUR, d("0.8"));
    let back = g.get_rate(Currency::EUR, Currency::USD).unwrap();
    assert_eq!(rd(&back), rd(&d("1.25")));

    let mut g2 = RateGraph::new();
    g2.set_rate(Currency::GBP, Currency::JPY, d("190"));
    let inv = g2.get_rate(Currency::JPY, Currency::GBP).unwrap();
    assert!((rd(&inv) - rust_decimal::Decimal::ONE / rd(&d("190"))).abs() < rd(&d("0.0000000001")));
}

#[test]
fn test_percentage_asymmetry() {
    let mut engine = Engine::new();
    assert_eq!(engine.eval("100 + 10%").as_decimal(), Some(d("110")));
    assert_eq!(engine.eval("110 - 10%").as_decimal(), Some(d("99")));
}

#[test]
fn test_continuation_sum_not_double_counted() {
    let mut engine = Engine::new();
    engine.eval("100");
    engine.eval("- 5");
    assert_eq!(engine.sum().as_decimal(), Some(d("95")));
}

#[test]
fn test_mixed_type_rejection() {
    let mut engine = Engine::new();
    assert!(engine.eval("5 hours + 100 RUB").is_error());
    assert!(engine.eval("10 kg + $50").is_error());
}

#[test]
fn test_dimensional_composition_display() {
    let mut engine = Engine::new();
    assert_eq!(engine.eval("5 m * 10 m").display_string(), "50 m²");
    assert_eq!(engine.eval("100 km / 2 h").display_string(), "50 km/h");
    assert_eq!(engine.eval("50 kph * 2 h").display_string(), "100 km");
}

#[test]
fn test_two_hop_rate_resolution() {
    let mut g = RateGraph::new();
    g.set_rate(Currency::USD, Currency::EUR, d("0.5"));
    g.set_rate(Currency::EUR, Currency::GBP, d("0.5"));
    let r = g.get_rate(Currency::USD, Currency::GBP).unwrap();
    assert_eq!(rd(&r), rd(&d("0.25")));
}

#[test]
fn test_division_by_zero_both_forms() {
    let mut engine = Engine::new();
    assert!(engine.eval("100 / 0").is_error());
    engine.eval("x = 50");
    assert!(engine.eval("x / 0%").is_error());
}

#[test]
fn test_tax_variable_scenario() {
    let mut engine = Engine::new();
    engine.eval("tax = 15%");
    assert_eq!(engine.eval("100 + tax").as_decimal(), Some(d("115")));
}

#[test]
fn test_currency_then_convert_scenario() {
    let mut engine = Engine::new();
    engine.set_exchange_rate(Currency::USD, Currency::EUR, d("0.92"));
    engine.eval("$100");
    assert_eq!(engine.eval("in EUR").display_string(), "€92.00");
}

#[test]
fn test_hours_times_rate_scenario() {
    let mut engine = Engine::new();
    assert_eq!(engine.eval("45h * 85 usd").display_string(), "$3825.00");
}

#[test]
fn test_builtin_functions() {
    let mut engine = Engine::new();
    assert_eq!(engine.eval("sum(1, 2, 3)").as_decimal(), Some(d("6")));
    assert_eq!(engine.eval("avg(2, 4)").as_decimal(), Some(d("3")));
    assert_eq!(engine.eval("min(3, 2, 5)").as_decimal(), Some(d("2")));
    assert_eq!(engine.eval("max(3, 7, 5)").as_decimal(), Some(d("7")));
    assert_eq!(engine.eval("abs(-4)").as_decimal(), Some(d("4")));
    assert_eq!(engine.eval("round(2.6)").as_decimal(), Some(d("3")));
    assert_eq!(engine.eval("floor(2.6)").as_decimal(), Some(d("2")));
    assert_eq!(engine.eval("ceil(2.1)").as_decimal(), Some(d("3")));
    assert_eq!(engine.eval("sqrt(16)").as_decimal(), Some(d("4")));
    assert!(engine.eval("sqrt(-1)").is_error());
    assert!(engine.eval("min()").is_error());
    assert!(engine.eval("max()").is_error());
    assert!(engine.eval("nosuchfn(1)").is_error());
}

#[test]
fn test_power_operator() {
    let mut engine = Engine::new();
    assert_eq!(engine.eval("2 ^ 10").as_decimal(), Some(d("1024")));
    assert_eq!(engine.eval("2 ^ 3 ^ 2").as_decimal(), Some(d("512")));
}

#[test]
fn test_unknown_variable_message() {
    let mut engine = Engine::new();
    let r = engine.eval("mystery_name");
    assert!(matches!(r, Value::Error(ref m) if m.contains("Unknown variable")));
}

#[test]
fn test_unknown_target_unit_message() {
    let mut engine = Engine::new();
    engine.eval("x = 5 km");
    let r = engine.eval("x in nothingunits");
    assert!(matches!(r, Value::Error(ref m) if m.contains("Unknown target unit")));
}

#[test]
fn test_no_rate_message() {
    let mut engine = Engine::new();
    engine.context = numr::EvalContext::empty();
    let r = engine.eval("$100 in EUR");
    assert!(matches!(r, Value::Error(ref m) if m.contains("No exchange rate")));
}

#[test]
fn test_variables_excludes_pseudo() {
    let mut engine = Engine::new();
    engine.eval("a = 1");
    engine.eval("b = 2");
    engine.eval("3");
    engine.eval("+ 1");
    let vars = engine.variables();
    let names: Vec<&str> = vars.iter().map(|p| p.0.as_str()).collect();
    assert!(names.contains(&"a"));
    assert!(names.contains(&"b"));
    assert!(!names.contains(&"total"));
    assert!(!names.contains(&"_"));
    assert!(!names.contains(&"ANS"));
    assert!(!names.contains(&"ans"));
}

#[test]
fn test_display_formats() {
    let mut engine = Engine::new();
    assert_eq!(engine.eval("42").display_string(), "42");
    assert_eq!(engine.eval("3.14159").display_string(), "3.14");
    assert_eq!(engine.eval("100.5").display_string(), "100.50");
    assert_eq!(engine.eval("20%").display_string(), "20%");
    assert_eq!(engine.eval("5 km").display_string(), "5 km");
    let mut fresh = Engine::new();
    assert_eq!(fresh.eval("").display_string(), "");
}

#[test]
fn test_eval_preview_does_not_record() {
    let mut engine = Engine::new();
    engine.eval("10");
    let preview = engine.eval_preview("+ 5");
    assert_eq!(preview.as_decimal(), Some(d("15")));
    assert_eq!(engine.lines().len(), 1);
    assert_eq!(engine.sum().as_decimal(), Some(d("10")));
}

#[test]
fn test_apply_raw_rates() {
    let mut engine = Engine::new();
    let mut rates: Vec<(String, numr::Dec)> = Vec::new();
    rates.push(("EUR".to_string(), d("0.5")));
    rates.push(("BTC".to_string(), d("50000")));
    rates.push(("ZZZ".to_string(), d("9")));
    engine.apply_raw_rates(&rates);
    assert_eq!(engine.eval("$100 in EUR").as_decimal(), Some(d("50")));
    assert_eq!(engine.eval("1 btc in usd").as_decimal(), Some(d("50000")));
}
