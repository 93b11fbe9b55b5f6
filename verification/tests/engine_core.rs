//! Tests for the session engine: variables, sums, grouped totals and the
//! continuation mechanism.

use numr::{decimal as d, Currency, Engine, Unit, Value};

#[test]
fn test_engine_basic() {
    let mut engine = Engine::new();
    let result = engine.eval("10 + 20");
    assert_eq!(result.as_decimal(), Some(d("30")));
}

#[test]
fn test_engine_variables() {
    let mut engine = Engine::new();
    engine.eval("x = 100");
    let result = engine.eval("x + 50");
    assert_eq!(result.as_decimal(), Some(d("150")));
}

#[test]
fn test_engine_sum() {
    let mut engine = Engine::new();
    engine.eval("10");
    engine.eval("20");
    engine.eval("30");
    assert_eq!(engine.sum().as_decimal(), Some(d("60")));
}

fn rd(x: &numr::Dec) -> rust_decimal::Decimal {
    rust_decimal::Decimal::from_i128_with_scale(
        if x.neg { -(x.mag as i128) } else { x.mag as i128 },
        x.scale,
    )
}

#[test]
fn test_grouped_totals() {
    let mut engine = Engine::new();
    engine.set_exchange_rate(Currency::USD, Currency::EUR, d("0.92"));

    engine.eval("$100");
    engine.eval("$50");
    engine.eval("€200");
    engine.eval("1000 m");
    engine.eval("5 km");
    engine.eval("42");

    let totals = engine.grouped_totals();
    assert_eq!(totals.len(), 2);

    let expected_eur = rd(&d("338"));
    assert!(totals.iter().any(|v| matches!(v,
        Value::Currency { amount, currency }
        if *currency == Currency::EUR && (rd(amount) - expected_eur).abs() < rd(&d("1"))
    )));

    let expected_km = rd(&d("6"));
    let tolerance = rd(&d("0.01"));
    assert!(totals.iter().any(|v| matches!(v,
        Value::WithUnit { amount, unit }
        if *unit == Unit::Kilometer && (rd(amount) - expected_km).abs() < tolerance
    )));
}

#[test]
fn test_grouped_totals_last_currency() {
    let mut engine = Engine::new();
    engine.set_exchange_rate(Currency::USD, Currency::EUR, d("0.92"));

    engine.eval("€100");
    engine.eval("$50");

    let totals = engine.grouped_totals();

    let expected_usd = rd(&d("158.70"));
    assert!(totals.iter().any(|v| matches!(v,
        Value::Currency { amount, currency }
        if *currency == Currency::USD && (rd(amount) - expected_usd).abs() < rd(&d("1"))
    )));
}

#[test]
fn test_continuation_basic() {
    let mut engine = Engine::new();
    assert_eq!(engine.eval("10").as_decimal(), Some(d("10")));
    assert_eq!(engine.eval("+ 5").as_decimal(), Some(d("15")));
    assert_eq!(engine.eval("* 2").as_decimal(), Some(d("30")));
    assert_eq!(engine.eval("/ 3").as_decimal(), Some(d("10")));
    assert_eq!(engine.eval("- 2").as_decimal(), Some(d("8")));
}

#[test]
fn test_continuation_with_currency() {
    let mut engine = Engine::new();
    let result = engine.eval("$100");
    assert!(matches!(result, Value::Currency { .. }));

    let result = engine.eval("- 10");
    assert!(matches!(result, Value::Currency { amount, currency }
        if currency == Currency::USD && (rd(&amount) - rd(&d("90"))).abs() < rd(&d("1"))
    ));

    let result = engine.eval("+ $20");
    assert!(matches!(result, Value::Currency { amount, currency }
        if currency == Currency::USD && (rd(&amount) - rd(&d("110"))).abs() < rd(&d("1"))
    ));
}

#[test]
fn test_continuation_conversion() {
    let mut engine = Engine::new();
    engine.set_exchange_rate(Currency::USD, Currency::EUR, d("0.92"));

    engine.eval("$100");
    let result = engine.eval("in EUR");
    assert!(matches!(result, Value::Currency { amount, currency }
        if currency == Currency::EUR && (rd(&amount) - rd(&d("92"))).abs() < rd(&d("1"))
    ));
}

#[test]
fn test_continuation_unit_conversion() {
    let mut engine = Engine::new();
    engine.eval("5 km");
    let result = engine.eval("to m");
    assert!(matches!(result, Value::WithUnit { amount, unit }
        if unit == Unit::Meter && (rd(&amount) - rd(&d("5000"))).abs() < rd(&d("1"))
    ));
}

#[test]
fn test_underscore_variable() {
    let mut engine = Engine::new();
    engine.eval("42");
    assert_eq!(engine.eval("_ + 8").as_decimal(), Some(d("50")));
    assert_eq!(engine.eval("_ * 2").as_decimal(), Some(d("100")));
}

#[test]
fn test_ans_alias() {
    let mut engine = Engine::new();
    engine.eval("42");
    assert_eq!(engine.eval("ANS + 8").as_decimal(), Some(d("50")));
    assert_eq!(engine.eval("ans * 2").as_decimal(), Some(d("100")));
    engine.eval("result = ANS");
    assert_eq!(engine.eval("result").as_decimal(), Some(d("100")));
}

#[test]
fn test_continuation_negative_vs_subtract() {
    let mut engine = Engine::new();

    assert_eq!(engine.eval("-5").as_decimal(), Some(d("-5")));

    engine.clear();
    engine.eval("100");
    assert_eq!(engine.eval("-5").as_decimal(), Some(d("95")));

    engine.clear();
    engine.eval("100");
    assert_eq!(engine.eval("- 5").as_decimal(), Some(d("95")));
}

#[test]
fn test_continuation_skips_empty() {
    let mut engine = Engine::new();
    engine.eval("100");
    engine.eval("");
    engine.eval("# comment");
    assert_eq!(engine.eval("+ 50").as_decimal(), Some(d("150")));
}

#[test]
fn test_continuation_power() {
    let mut engine = Engine::new();
    engine.eval("2");
    assert_eq!(engine.eval("^ 10").as_decimal(), Some(d("1024")));
}

#[test]
fn test_continuation_totals_not_double_counted() {
    let mut engine = Engine::new();
    engine.eval("100");
    engine.eval("- 5");

    assert_eq!(engine.sum().as_decimal(), Some(d("95")));
}

#[test]
fn test_continuation_chain_totals() {
    let mut engine = Engine::new();
    engine.eval("$100");
    engine.eval("+ $50");
    engine.eval("* 2");

    let totals = engine.grouped_totals();
    assert_eq!(totals.len(), 1);

    assert!(matches!(&totals[0],
        Value::Currency { amount, currency }
        if *currency == Currency::USD && (rd(amount) - rd(&d("300"))).abs() < rd(&d("1"))
    ));
}

#[test]
fn test_continuation_source_flag() {
    let mut engine = Engine::new();
    engine.eval("100");
    engine.eval("+ 50");

    let lines = engine.lines();
    assert_eq!(lines.len(), 2);
    assert!(lines[0].is_continuation_source);
    assert!(!lines[1].is_continuation_source);
}

#[test]
fn test_standalone_values_not_consumed() {
    let mut engine = Engine::new();
    engine.eval("100");
    engine.eval("200");

    let lines = engine.lines();
    assert!(!lines[0].is_continuation_source);
    assert!(!lines[1].is_continuation_source);

    assert_eq!(engine.sum().as_decimal(), Some(d("300")));
}

#[test]
fn test_freelance_calculation_totals() {
    let mut engine = Engine::new();

    engine.eval("techcorp_hours = 45");
    engine.eval("techcorp_rate = 85 usd");
    engine.eval("techcorp_gross = techcorp_hours * techcorp_rate");
    engine.eval("- 25%");
    engine.eval("techcorp_net = _");

    let totals = engine.grouped_totals();

    assert_eq!(totals.len(), 1);
    let amount = totals[0].as_decimal().unwrap();
    let expected = rd(&d("85")) + rd(&d("2868.75"));
    assert!(
        (rd(&amount) - expected).abs() < rd(&d("1")),
        "Expected ~$2953.75, got {:?}",
        amount
    );
}

#[test]
fn test_simple_addition_chain_totals() {
    let mut engine = Engine::new();

    engine.eval("$2200");
    engine.eval("+ $400");
    engine.eval("startup_total = _");

    let totals = engine.grouped_totals();

    assert_eq!(totals.len(), 1);
    assert_eq!(totals[0].as_decimal(), Some(d("2600")));
}

#[test]
fn test_multiply_chain_totals() {
    let mut engine = Engine::new();

    engine.eval("saas_mrr = 340 usd");
    engine.eval("* 12");
    engine.eval("saas_annual = _");

    let totals = engine.grouped_totals();

    assert_eq!(totals.len(), 1);
    assert_eq!(totals[0].as_decimal(), Some(d("4080")));
}

#[test]
fn test_multi_step_chain_totals() {
    let mut engine = Engine::new();

    engine.eval("127 usd");
    engine.eval("+ 48 usd");
    engine.eval("* 12");
    engine.eval("hosting_annual = _");

    let totals = engine.grouped_totals();

    assert_eq!(totals.len(), 1);
    assert_eq!(totals[0].as_decimal(), Some(d("2100")));
}

#[test]
fn test_mixed_standalone_and_continuation() {
    let mut engine = Engine::new();

    engine.eval("rent = 1850 usd");
    engine.eval("gym = 50 usd");

    engine.eval("$100");
    engine.eval("+ $50");
    engine.eval("bonus = _");

    engine.eval("groceries = 200 usd");

    let totals = engine.grouped_totals();

    assert_eq!(totals.len(), 1);
    assert_eq!(totals[0].as_decimal(), Some(d("2250")));
}

#[test]
fn test_job_offer_calculation() {
    let mut engine = Engine::new();
    engine.set_exchange_rate(Currency::USD, Currency::RUB, d("92"));

    engine.eval("85000 rub");
    engine.eval("+ 15%");
    engine.eval("- 13%");
    engine.eval("take_home = _");

    let totals = engine.grouped_totals();

    assert_eq!(totals.len(), 1);
    let amount = totals[0].as_decimal().unwrap();
    assert!(
        (rd(&amount) - rd(&d("85042.5"))).abs() < rd(&d("1")),
        "Expected ~85042.5 RUB, got {:?}",
        amount
    );
}

#[test]
fn test_unit_conversion_continuation_totals() {
    let mut engine = Engine::new();

    engine.eval("flight = 9500 km");
    engine.eval("to miles");

    let totals = engine.grouped_totals();

    assert_eq!(totals.len(), 1);
    let amount = totals[0].as_decimal().unwrap();
    assert!(
        (rd(&amount) - rd(&d("5903.4"))).abs() < rd(&d("1")),
        "Expected ~5903 miles, got {:?}",
        amount
    );
}

#[test]
fn test_currency_conversion_continuation_totals() {
    let mut engine = Engine::new();
    engine.set_exchange_rate(Currency::USD, Currency::EUR, d("0.92"));

    engine.eval("$100");
    engine.eval("in EUR");

    let totals = engine.grouped_totals();

    assert_eq!(totals.len(), 1);
    assert!(matches!(&totals[0],
        Value::Currency { amount, currency }
        if *currency == Currency::EUR && (rd(amount) - rd(&d("92"))).abs() < rd(&d("1"))
    ));
}

#[test]
fn test_multiple_separate_chains() {
    let mut engine = Engine::new();

    engine.eval("$100");
    engine.eval("+ $50");
    engine.eval("first = _");

    engine.eval("$200");
    engine.eval("* 2");
    engine.eval("second = _");

    let totals = engine.grouped_totals();

    assert_eq!(totals.len(), 1);
    assert_eq!(totals[0].as_decimal(), Some(d("550")));
}

#[test]
fn test_percentage_chain_totals() {
    let mut engine = Engine::new();

    engine.eval("$1000");
    engine.eval("+ 10%");
    engine.eval("- 5%");
    engine.eval("final = _");

    let totals = engine.grouped_totals();

    assert_eq!(totals.len(), 1);
    assert_eq!(totals[0].as_decimal(), Some(d("1045")));
}

#[test]
fn test_basic_arithmetic() {
    let mut engine = Engine::new();
    assert_eq!(engine.eval("10 + 20").as_decimal(), Some(d("30")));
    assert_eq!(engine.eval("100 - 25").as_decimal(), Some(d("75")));
    assert_eq!(engine.eval("6 * 7").as_decimal(), Some(d("42")));
    assert_eq!(engine.eval("100 / 4").as_decimal(), Some(d("25")));
}

#[test]
fn test_percentage_of() {
    let mut engine = Engine::new();
    assert_eq!(engine.eval("20% of 150").as_decimal(), Some(d("30")));
}

#[test]
fn test_parse_number() {
    let result = numr::parse_line("42");
    assert!(result.is_ok());
}

#[test]
fn test_parse_expression() {
    let result = numr::parse_line("10 + 20");
    assert!(result.is_ok());
}

#[test]
fn test_parse_assignment() {
    let result = numr::parse_line("tax = 15%");
    assert!(result.is_ok());
}

#[test]
fn test_rate_cache() {
    let mut cache = numr::RateGraph::new();
    cache.set_rate(Currency::USD, Currency::EUR, d("0.92"));

    assert_eq!(cache.get_rate(Currency::USD, Currency::EUR), Some(d("0.92")));
    assert!(cache.get_rate(Currency::EUR, Currency::USD).is_some());
}

#[test]
fn test_same_currency() {
    let cache = numr::RateGraph::new();
    assert_eq!(cache.get_rate(Currency::USD, Currency::USD), Some(d("1")));
}

#[test]
fn test_default_has_all_currencies() {
    let mut engine_ctx = numr::EvalContext::new();
    assert!(engine_ctx.rate_graph.get_rate(Currency::ETH, Currency::USD).is_some());
    assert!(engine_ctx.rate_graph.get_rate(Currency::SOL, Currency::USD).is_some());
    assert!(engine_ctx.rate_graph.get_rate(Currency::PLN, Currency::USD).is_some());
    engine_ctx.clear_variables();
}

#[test]
fn test_cross_conversion() {
    let ctx = numr::EvalContext::new();
    assert!(ctx.rate_graph.get_rate(Currency::ETH, Currency::RUB).is_some());
}
