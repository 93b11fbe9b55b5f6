//! Compound-unit tests: areas, speeds, dimensional composition and totals.

use numr::{Engine, Value, decimal as d};

fn rd(x: &numr::Dec) -> rust_decimal::Decimal {
    rust_decimal::Decimal::from_i128_with_scale(
        if x.neg { -(x.mag as i128) } else { x.mag as i128 },
        x.scale,
    )
}

fn create_engine() -> Engine {
    Engine::new()
}

#[test]
fn test_area_calculations() {
    let mut engine = create_engine();

    engine.eval("length = 5 m");
    engine.eval("width = 10 m");
    let result = engine.eval("area = length * width");
    assert_eq!(result.display_string(), "50 m²");
}

#[test]
fn test_speed_calculations() {
    let mut engine = create_engine();

    engine.eval("distance = 100 km");
    engine.eval("time = 2 h");
    let result = engine.eval("speed = distance / time");
    assert_eq!(result.display_string(), "50 km/h");
}

#[test]
fn test_dimensionless_result() {
    let mut engine = create_engine();

    let result = engine.eval("25 km / 100 km");
    assert!(matches!(result, Value::Number(_)));
    assert_eq!(result.as_decimal(), Some(d("0.25")));
}

#[test]
fn test_compound_unit_parsing() {
    let mut engine = create_engine();

    let result = engine.eval("50 kph");
    assert_eq!(result.display_string(), "50 km/h");

    let result = engine.eval("100 m2");
    assert_eq!(result.display_string(), "100 m²");

    let result = engine.eval("10 mps");
    assert_eq!(result.display_string(), "10 m/s");
}

#[test]
fn test_compound_unit_conversion() {
    let mut engine = create_engine();

    let result = engine.eval("50 kph in mps");
    let val = result.as_decimal().unwrap();
    assert!((rd(&val) - rd(&d("13.89"))).abs() < rd(&d("0.01")));
}

#[test]
fn test_compound_unit_addition() {
    let mut engine = create_engine();

    engine.eval("wall1 = 4 m * 3 m");
    engine.eval("wall2 = 5 m * 3 m");
    let result = engine.eval("total = wall1 + wall2");
    assert_eq!(result.display_string(), "27 m²");
}

#[test]
fn test_speed_times_time_gives_distance() {
    let mut engine = create_engine();

    let result = engine.eval("50 kph * 2 h");
    assert_eq!(result.display_string(), "100 km");
}

#[test]
fn test_mixed_speed_units() {
    let mut engine = create_engine();

    engine.eval("car = 100 kph");
    engine.eval("bike = 30 mph");
    let result = engine.eval("total = car + bike");
    let val = result.as_decimal().unwrap();
    assert!((rd(&val) - rd(&d("148.28"))).abs() < rd(&d("0.1")));
}

#[test]
fn test_compound_unit_totals() {
    let mut engine = create_engine();

    engine.eval("room1 = 20 m2");
    engine.eval("room2 = 15 m2");
    engine.eval("room3 = 25 m2");

    let totals = engine.grouped_totals();
    assert_eq!(totals.len(), 1);
    assert_eq!(totals[0].display_string(), "60 m²");
}
