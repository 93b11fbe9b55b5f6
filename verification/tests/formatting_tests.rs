//! Display rounding tests.

use numr::Engine;

#[test]
fn test_unit_rounding() {
    let mut engine = Engine::new();

    let res = engine.eval("100 mi in km");
    let res_str = res.display_string();
    assert_eq!(res_str, "160.93 km");
}

#[test]
fn test_currency_rounding() {
    let mut engine = Engine::new();
    let res = engine.eval("$10 / 3");
    assert_eq!(res.display_string(), "$3.33");
}
