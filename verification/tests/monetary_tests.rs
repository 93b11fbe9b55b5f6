//! Monetary tests: currency conversions, multi-currency arithmetic and
//! display formatting.

use numr::{decimal as d, Currency, Engine};

fn rd(x: &numr::Dec) -> rust_decimal::Decimal {
    rust_decimal::Decimal::from_i128_with_scale(
        if x.neg { -(x.mag as i128) } else { x.mag as i128 },
        x.scale,
    )
}

#[test]
fn test_currency_formats() {
    let mut engine = Engine::new();

    assert_eq!(engine.eval("$100").display_string(), "$100.00");
    assert_eq!(engine.eval("100 USD").display_string(), "$100.00");
    assert_eq!(engine.eval("100$").display_string(), "$100.00");
    assert_eq!(engine.eval("100 dollars").display_string(), "$100.00");

    assert_eq!(engine.eval("€50").display_string(), "€50.00");
    assert_eq!(engine.eval("50 EUR").display_string(), "€50.00");
    assert_eq!(engine.eval("50 eur").display_string(), "€50.00");
    assert_eq!(engine.eval("50 euros").display_string(), "€50.00");

    assert_eq!(engine.eval("£75").display_string(), "£75.00");
    assert_eq!(engine.eval("75 GBP").display_string(), "£75.00");
    assert_eq!(engine.eval("75 pounds").display_string(), "£75.00");

    assert_eq!(engine.eval("₽100").display_string(), "100.00₽");
    assert_eq!(engine.eval("100 RUB").display_string(), "100.00₽");
    assert_eq!(engine.eval("100 rubles").display_string(), "100.00₽");

    assert_eq!(engine.eval("₿1").display_string(), "₿1.00");
    assert_eq!(engine.eval("1 BTC").display_string(), "₿1.00");
    assert_eq!(engine.eval("1 bitcoin").display_string(), "₿1.00");
}

#[test]
fn test_currency_arithmetic_same() {
    let mut engine = Engine::new();

    let result = engine.eval("$100 + $50");
    assert_eq!(result.as_decimal(), Some(d("150")));
    assert_eq!(result.display_string(), "$150.00");

    let result = engine.eval("€200 - €75");
    assert_eq!(result.as_decimal(), Some(d("125")));
    assert_eq!(result.display_string(), "€125.00");

    let result = engine.eval("$25 * 4");
    assert_eq!(result.as_decimal(), Some(d("100")));
    assert_eq!(result.display_string(), "$100.00");

    let result = engine.eval("£100 / 4");
    assert_eq!(result.as_decimal(), Some(d("25")));
    assert_eq!(result.display_string(), "£25.00");
}

#[test]
fn test_usd_to_eur_conversion() {
    let mut engine = Engine::new();
    engine.set_exchange_rate(Currency::USD, Currency::EUR, d("0.92"));

    let result = engine.eval("$100 in EUR");
    assert_eq!(result.as_decimal(), Some(d("92")));
    assert_eq!(result.display_string(), "€92.00");

    let result = engine.eval("$1000 in eur");
    assert_eq!(result.as_decimal(), Some(d("920")));
    assert_eq!(result.display_string(), "€920.00");
}

#[test]
fn test_eur_to_usd_conversion() {
    let mut engine = Engine::new();
    engine.set_exchange_rate(Currency::USD, Currency::EUR, d("0.92"));

    let result = engine.eval("€92 in USD");
    assert!(result.display_string().starts_with("$"));
    let amount = result.as_decimal().unwrap();
    assert_eq!(amount, d("100"));
}

#[test]
fn test_usd_to_gbp_conversion() {
    let mut engine = Engine::new();
    engine.set_exchange_rate(Currency::USD, Currency::GBP, d("0.79"));

    let result = engine.eval("$100 in GBP");
    assert_eq!(result.as_decimal(), Some(d("79")));
    assert_eq!(result.display_string(), "£79.00");

    let result = engine.eval("$500 in pounds");
    assert_eq!(result.as_decimal(), Some(d("395")));
    assert_eq!(result.display_string(), "£395.00");
}

#[test]
fn test_usd_to_jpy_conversion() {
    let mut engine = Engine::new();
    engine.set_exchange_rate(Currency::USD, Currency::JPY, d("149.5"));

    let result = engine.eval("$100 in JPY");
    assert_eq!(result.as_decimal(), Some(d("14950")));
    assert_eq!(result.display_string(), "¥14950.00");

    let result = engine.eval("$10 in jpy");
    assert_eq!(result.as_decimal(), Some(d("1495")));
    assert_eq!(result.display_string(), "¥1495.00");
}

#[test]
fn test_multi_currency_arithmetic() {
    let mut engine = Engine::new();
    engine.set_exchange_rate(Currency::USD, Currency::EUR, d("0.92"));

    let result = engine.eval("$100 + €46");
    assert_eq!(result.as_decimal(), Some(d("150")));
    assert_eq!(result.display_string(), "$150.00");
}

#[test]
fn test_currency_with_variables() {
    let mut engine = Engine::new();
    engine.set_exchange_rate(Currency::USD, Currency::EUR, d("0.92"));

    engine.eval("income = $5000");
    engine.eval("expenses = €1000");

    let result = engine.eval("income");
    assert_eq!(result.as_decimal(), Some(d("5000")));
    assert_eq!(result.display_string(), "$5000.00");

    let result = engine.eval("income in EUR");
    assert_eq!(result.as_decimal(), Some(d("4600")));
    assert_eq!(result.display_string(), "€4600.00");
}

#[test]
fn test_currency_percentage_operations() {
    let mut engine = Engine::new();

    let result = engine.eval("15% of $200");
    assert_eq!(result.as_decimal(), Some(d("30")));
    assert_eq!(result.display_string(), "$30.00");

    let result = engine.eval("$100 + 20%");
    assert_eq!(result.as_decimal(), Some(d("120")));
    assert_eq!(result.display_string(), "$120.00");

    let result = engine.eval("€500 - 10%");
    assert_eq!(result.as_decimal(), Some(d("450")));
    assert_eq!(result.display_string(), "€450.00");
}

#[test]
fn test_rub_and_ils_currencies() {
    let mut engine = Engine::new();
    engine.set_exchange_rate(Currency::USD, Currency::RUB, d("92"));
    engine.set_exchange_rate(Currency::USD, Currency::ILS, d("3.65"));

    let result = engine.eval("$100 in RUB");
    assert_eq!(result.as_decimal(), Some(d("9200")));
    assert_eq!(result.display_string(), "9200.00₽");

    let result = engine.eval("$100 in ILS");
    assert_eq!(result.as_decimal(), Some(d("365")));
    assert_eq!(result.display_string(), "₪365.00");

    let result = engine.eval("₽5000");
    assert_eq!(result.as_decimal(), Some(d("5000")));
    assert_eq!(result.display_string(), "5000.00₽");

    let result = engine.eval("₪100");
    assert_eq!(result.as_decimal(), Some(d("100")));
    assert_eq!(result.display_string(), "₪100.00");
}

#[test]
fn test_travel_expense_scenario() {
    let mut engine = Engine::new();
    engine.set_exchange_rate(Currency::USD, Currency::EUR, d("0.92"));
    engine.set_exchange_rate(Currency::USD, Currency::GBP, d("0.79"));

    engine.eval("flight = $800");
    engine.eval("hotel_paris = €500");
    engine.eval("hotel_london = £300");

    assert_eq!(engine.eval("flight").as_decimal(), Some(d("800")));
    assert_eq!(engine.eval("hotel_paris").as_decimal(), Some(d("500")));
    assert_eq!(engine.eval("hotel_london").as_decimal(), Some(d("300")));

    let paris_usd = engine.eval("hotel_paris in USD");
    let paris_amount = paris_usd.as_decimal().unwrap();
    assert!(rd(&paris_amount) > rd(&d("500")));

    let london_usd = engine.eval("hotel_london in USD");
    let london_amount = london_usd.as_decimal().unwrap();
    assert!(rd(&london_amount) > rd(&d("300")));
}

#[test]
fn test_all_currencies_have_default_rates() {
    let mut engine = Engine::new();

    let result = engine.eval("$100 in PLN");
    assert!(result.as_decimal().is_some());

    assert_eq!(engine.eval("$100 + $50").as_decimal(), Some(d("150")));
    assert_eq!(engine.eval("€200 * 2").as_decimal(), Some(d("400")));

    let result = engine.eval("$100 in EUR");
    assert!(result.as_decimal().is_some());

    let result = engine.eval("1 ETH in USD");
    assert!(result.as_decimal().is_some());
}

#[test]
fn test_crypto_currency_formats() {
    let mut engine = Engine::new();

    assert_eq!(engine.eval("Ξ1").display_string(), "Ξ1.00");
    assert_eq!(engine.eval("1 ETH").display_string(), "Ξ1.00");
    assert_eq!(engine.eval("1 ethereum").display_string(), "Ξ1.00");

    assert_eq!(engine.eval("◎10").display_string(), "◎10.00");
    assert_eq!(engine.eval("10 SOL").display_string(), "◎10.00");
    assert_eq!(engine.eval("10 solana").display_string(), "◎10.00");

    assert_eq!(engine.eval("100 USDC").display_string(), "USDC100.00");
    assert_eq!(engine.eval("₮100").display_string(), "₮100.00");
    assert_eq!(engine.eval("100 USDT").display_string(), "₮100.00");
}

#[test]
fn test_crypto_to_usd_conversion() {
    let mut engine = Engine::new();
    engine.set_exchange_rate(Currency::ETH, Currency::USD, d("3000"));
    engine.set_exchange_rate(Currency::SOL, Currency::USD, d("140"));
    engine.set_exchange_rate(Currency::BTC, Currency::USD, d("92000"));

    let result = engine.eval("1 ETH in USD");
    assert_eq!(result.as_decimal(), Some(d("3000")));
    assert_eq!(result.display_string(), "$3000.00");

    let result = engine.eval("10 SOL in USD");
    assert_eq!(result.as_decimal(), Some(d("1400")));
    assert_eq!(result.display_string(), "$1400.00");

    let result = engine.eval("0.5 BTC in USD");
    assert_eq!(result.as_decimal(), Some(d("46000")));
    assert_eq!(result.display_string(), "$46000.00");
}

#[test]
fn test_usd_to_crypto_conversion() {
    let mut engine = Engine::new();
    engine.set_exchange_rate(Currency::ETH, Currency::USD, d("3000"));

    let result = engine.eval("$6000 in ETH");
    let eth = result.as_decimal().unwrap();
    assert!(
        (rd(&eth) - rd(&d("2"))).abs() < rd(&d("0.0000001")),
        "Expected ~2 ETH, got {:?}",
        eth
    );
    assert_eq!(result.display_string(), "Ξ2.00");
}

#[test]
fn test_plain_number_plus_currency_propagates() {
    let mut engine = Engine::new();

    let result = engine.eval("500 + 500 + 1000 RUB");
    assert_eq!(result.as_decimal(), Some(d("2000")));
    assert_eq!(result.display_string(), "2000.00₽");

    let result = engine.eval("1000 + 1000 RUB");
    assert_eq!(result.as_decimal(), Some(d("2000")));
    assert_eq!(result.display_string(), "2000.00₽");

    let result = engine.eval("1000 RUB + 500");
    assert_eq!(result.as_decimal(), Some(d("1500")));
    assert_eq!(result.display_string(), "1500.00₽");

    let result = engine.eval("100 + 200 USD + 300");
    assert_eq!(result.as_decimal(), Some(d("600")));
    assert_eq!(result.display_string(), "$600.00");

    let result = engine.eval("2000 - 500 RUB");
    assert_eq!(result.as_decimal(), Some(d("1500")));
    assert_eq!(result.display_string(), "1500.00₽");
}

#[test]
fn test_plain_number_times_currency() {
    let mut engine = Engine::new();

    let result = engine.eval("3 * 100 USD");
    assert_eq!(result.as_decimal(), Some(d("300")));
    assert_eq!(result.display_string(), "$300.00");

    let result = engine.eval("300 USD / 3");
    assert_eq!(result.as_decimal(), Some(d("100")));
    assert_eq!(result.display_string(), "$100.00");

    let result = engine.eval("300 / 100 USD");
    assert!(result.as_decimal().is_some());
}

#[test]
fn test_unit_plus_currency_errors() {
    let mut engine = Engine::new();

    let result = engine.eval("5 hours + 100 RUB");
    assert!(result.is_error(), "hours + currency should error");

    let result = engine.eval("10 kg + $50");
    assert!(result.is_error(), "kg + currency should error");

    let result = engine.eval("$100 + 5 hours");
    assert!(result.is_error(), "currency + hours should error");

    let result = engine.eval("100 RUB - 2 hours");
    assert!(result.is_error(), "currency - hours should error");
}

#[test]
fn test_unit_times_currency_allowed() {
    let mut engine = Engine::new();

    let result = engine.eval("8 hours * $50");
    assert!(!result.is_error());
    assert_eq!(result.as_decimal(), Some(d("400")));
    assert_eq!(result.display_string(), "$400.00");

    let result = engine.eval("$85 * 45h");
    assert!(!result.is_error());
    assert_eq!(result.as_decimal(), Some(d("3825")));
    assert_eq!(result.display_string(), "$3825.00");

    let result = engine.eval("12 months * 340 usd");
    assert!(!result.is_error());
    assert_eq!(result.as_decimal(), Some(d("4080")));
    assert_eq!(result.display_string(), "$4080.00");
}

#[test]
fn test_example_freelance_calculation() {
    let mut engine = Engine::new();

    engine.eval("techcorp_hours = 45h");
    engine.eval("techcorp_rate = 85 usd");

    let result = engine.eval("techcorp_hours * techcorp_rate");
    assert_eq!(result.as_decimal(), Some(d("3825")));
    assert_eq!(result.display_string(), "$3825.00");

    let result = engine.eval("25% of 3825 usd");
    assert_eq!(result.as_decimal(), Some(d("956.25")));

    let result = engine.eval("$3825 - 25%");
    assert_eq!(result.as_decimal(), Some(d("2868.75")));
    assert_eq!(result.display_string(), "$2868.75");
}

#[test]
fn test_example_saas_annual() {
    let mut engine = Engine::new();

    engine.eval("saas_mrr = 340 usd");

    let result = engine.eval("saas_mrr * 12 months");
    assert_eq!(result.as_decimal(), Some(d("4080")));
    assert_eq!(result.display_string(), "$4080.00");
}

#[test]
fn test_example_mixed_currency_expenses() {
    let mut engine = Engine::new();
    engine.set_exchange_rate(Currency::USD, Currency::ILS, d("3.65"));

    engine.eval("rent = 1850 usd");
    engine.eval("utilities = 900 ils");

    let result = engine.eval("rent + utilities");
    assert!(result.display_string().starts_with("$"));
    let amount = result.as_decimal().unwrap();
    assert!(rd(&amount) > rd(&d("2000")) && rd(&amount) < rd(&d("2200")));
}

#[test]
fn test_example_cross_currency_debt() {
    let mut engine = Engine::new();
    engine.set_exchange_rate(Currency::USD, Currency::RUB, d("92"));

    engine.eval("debt_alex = 3500 rub");
    engine.eval("tom_owes = 120 usd");

    let result = engine.eval("debt_alex - tom_owes");
    assert_eq!(result.display_string().contains("₽"), true);
    let amount = result.as_decimal().unwrap();
    assert!(rd(&amount) < rd(&d("0")));
}
