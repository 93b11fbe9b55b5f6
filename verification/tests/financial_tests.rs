//! Financial tests: percentages, taxes, discounts.  Currency amounts always
//! display with exactly two fractional digits.

use numr::{decimal as d, Engine};

#[test]
fn test_percentage_of_value() {
    let mut engine = Engine::new();

    let result = engine.eval("20% of 150");
    assert_eq!(result.as_decimal(), Some(d("30")));

    let result = engine.eval("15% of 200");
    assert_eq!(result.as_decimal(), Some(d("30")));

    let result = engine.eval("50% of 80");
    assert_eq!(result.as_decimal(), Some(d("40")));
}

#[test]
fn test_tax_calculations() {
    let mut engine = Engine::new();

    engine.eval("tax = 20%");

    let result = engine.eval("100 + tax");
    assert_eq!(result.as_decimal(), Some(d("120")));

    engine.eval("item1 = 50");
    engine.eval("item2 = 75");
    let result = engine.eval("item1 + item2 + tax");
    assert_eq!(result.as_decimal(), Some(d("150")));
}

#[test]
fn test_discount_calculations() {
    let mut engine = Engine::new();

    let result = engine.eval("$100 - 10%");
    assert_eq!(result.display_string(), "$90.00");

    engine.eval("discount = 25%");
    let result = engine.eval("$200 - discount");
    assert_eq!(result.display_string(), "$150.00");
}

#[test]
fn test_tip_calculations() {
    let mut engine = Engine::new();

    engine.eval("bill = $85");
    engine.eval("tip = 18%");

    let result = engine.eval("18% of $85");
    assert_eq!(result.display_string(), "$15.30");

    let result = engine.eval("bill + tip");
    assert_eq!(result.display_string(), "$100.30");
}

#[test]
fn test_profit_margin() {
    let mut engine = Engine::new();

    engine.eval("cost = 80");
    engine.eval("price = 100");

    let result = engine.eval("price - cost");
    assert_eq!(result.as_decimal(), Some(d("20")));

    let result = engine.eval("20% of cost");
    assert_eq!(result.as_decimal(), Some(d("16")));
}

#[test]
fn test_compound_percentages() {
    let mut engine = Engine::new();

    let result = engine.eval("100 + 10%");
    assert_eq!(result.as_decimal(), Some(d("110")));

    let result = engine.eval("110 - 10%");
    assert_eq!(result.as_decimal(), Some(d("99")));
}

#[test]
fn test_budget_tracking() {
    let mut engine = Engine::new();

    engine.eval("salary = $5000");
    engine.eval("rent = $1500");
    engine.eval("utilities = $200");
    engine.eval("groceries = $400");
    engine.eval("transport = $150");

    let result = engine.eval("20% of salary");
    assert_eq!(result.display_string(), "$1000.00");
}

#[test]
fn test_investment_returns() {
    let mut engine = Engine::new();

    engine.eval("principal = $10000");
    engine.eval("return_rate = 8%");

    let result = engine.eval("8% of principal");
    assert_eq!(result.display_string(), "$800.00");

    let result = engine.eval("principal + return_rate");
    assert_eq!(result.display_string(), "$10800.00");
}
