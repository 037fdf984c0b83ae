use pricing_engine::input::PathCost;
use pricing_engine::resolve::{names_step, parse_id};
use pricing_engine::{PricingEngine, PricingError, Scalar, Value};
use std::collections::HashMap;

fn text(s: &str) -> Scalar {
    Scalar::Text(s.to_string())
}

fn table() -> Vec<PathCost> {
    vec![
        PathCost { path: "/volume".to_string(), cost: Value::from_int(20) },
        PathCost { path: "/material/resin/color".to_string(), cost: Value::from_int(30) },
        PathCost { path: "/time_taken".to_string(), cost: Value::from_int(100) },
        PathCost { path: "/material/pla/color".to_string(), cost: Value::from_int(300) },
    ]
}

fn steps() -> HashMap<i32, Value> {
    let mut m = HashMap::new();
    m.insert(1, Value::from_int(150));
    m.insert(-4, Value::from_int(7));
    m
}

fn parse(s: &str) -> Option<i32> {
    parse_id(s)
}

#[test]
fn step_ids_are_read_as_signed_decimals() {
    assert_eq!(parse("0"), Some(0));
    assert_eq!(parse("12"), Some(12));
    assert_eq!(parse("+12"), Some(12));
    assert_eq!(parse("-12"), Some(-12));
    assert_eq!(parse("007"), Some(7));
    assert_eq!(parse("2147483647"), Some(i32::MAX));
    assert_eq!(parse("-2147483648"), Some(i32::MIN));
    assert_eq!(parse("-0"), Some(0));
}

#[test]
fn step_ids_that_are_no_numbers_are_refused() {
    assert_eq!(parse(""), None);
    assert_eq!(parse("+"), None);
    assert_eq!(parse("-"), None);
    assert_eq!(parse("1a"), None);
    assert_eq!(parse(" 1"), None);
    assert_eq!(parse("1 "), None);
    assert_eq!(parse("--1"), None);
    assert_eq!(parse("1.0"), None);
    assert_eq!(parse("2147483648"), None);
    assert_eq!(parse("-2147483649"), None);
    assert_eq!(parse("99999999999999999999999999"), None);
    assert_eq!(parse("99999999999999999999999999x"), None);
}

#[test]
fn step_reference_opens_with_its_prefix() {
    assert!(names_step("step__1"));
    assert!(names_step("step__"));
    assert!(!names_step("step_1"));
    assert!(!names_step("Step__1"));
    assert!(!names_step("/step__1"));
    assert!(!names_step(""));
}

#[test]
fn step_reference_gives_the_stored_value() {
    let mut engine = PricingEngine::new();
    assert_eq!(
        engine.resolve_value(&text("step__1"), &steps(), &table()),
        Ok(vec![Value::from_int(150)])
    );
    assert_eq!(
        engine.resolve_value(&text("step__-4"), &steps(), &table()),
        Ok(vec![Value::from_int(7)])
    );
}

#[test]
fn step_reference_without_a_stored_value_is_zero() {
    let mut engine = PricingEngine::new();
    assert_eq!(
        engine.resolve_value(&text("step__99"), &steps(), &table()),
        Ok(vec![Value::zero()])
    );
}

#[test]
fn step_reference_with_a_bad_id_is_an_error() {
    let mut engine = PricingEngine::new();
    assert_eq!(
        engine.resolve_value(&text("step__one"), &steps(), &table()),
        Err(PricingError::InvalidStepReference { reference: "step__one".to_string() })
    );
    assert_eq!(
        engine.resolve_value(&text("step__"), &steps(), &table()),
        Err(PricingError::InvalidStepReference { reference: "step__".to_string() })
    );
    // The prefix goes before the wildcard test.
    assert_eq!(
        engine.resolve_value(&text("step__*"), &steps(), &table()),
        Err(PricingError::InvalidStepReference { reference: "step__*".to_string() })
    );
}

#[test]
fn exact_path_gives_its_cost_or_zero() {
    let mut engine = PricingEngine::new();
    assert_eq!(
        engine.resolve_value(&text("/time_taken"), &steps(), &table()),
        Ok(vec![Value::from_int(100)])
    );
    assert_eq!(
        engine.resolve_value(&text("/missing"), &steps(), &table()),
        Ok(vec![Value::zero()])
    );
    assert_eq!(engine.cached_count(), 0);
}

#[test]
fn wildcard_gives_all_matching_costs_in_table_order() {
    let mut engine = PricingEngine::new();
    assert_eq!(
        engine.resolve_value(&text("/material/*/color"), &steps(), &table()),
        Ok(vec![Value::from_int(30), Value::from_int(300)])
    );
    assert_eq!(
        engine.resolve_wildcard_pattern("/*", &table()),
        Ok(vec![Value::from_int(20), Value::from_int(100)])
    );
}

#[test]
fn wildcard_without_a_match_is_an_error() {
    let mut engine = PricingEngine::new();
    assert_eq!(
        engine.resolve_value(&text("/finish/*"), &steps(), &table()),
        Err(PricingError::NoWildcardMatch {
            pattern: "/finish/*".to_string(),
            known_paths: vec![
                "/volume".to_string(),
                "/material/resin/color".to_string(),
                "/time_taken".to_string(),
                "/material/pla/color".to_string(),
            ],
        })
    );
}

#[test]
fn wildcard_that_cannot_be_compiled_is_an_error() {
    let mut engine = PricingEngine::new();
    assert_eq!(
        engine.resolve_value(&text("/a(/*"), &steps(), &table()),
        Err(PricingError::UnparsablePattern { pattern: "/a(/*".to_string() })
    );
    assert_eq!(engine.cached_count(), 0);
}

#[test]
fn resolving_a_wildcard_twice_gives_the_same_values() {
    let mut engine = PricingEngine::new();
    let first = engine.resolve_wildcard_pattern("/material/*/color", &table());
    assert_eq!(engine.cached_count(), 1);
    let second = engine.resolve_wildcard_pattern("/material/*/color", &table());
    assert_eq!(engine.cached_count(), 1);
    assert_eq!(first, second);
    let mut fresh = PricingEngine::new();
    assert_eq!(fresh.resolve_wildcard_pattern("/material/*/color", &table()), first);
}

#[test]
fn literals_stand_for_themselves_and_the_rest_for_zero() {
    let mut engine = PricingEngine::new();
    let number = Scalar::Number(Value::from_micros(2_500_000));
    assert_eq!(
        engine.resolve_value(&number, &steps(), &table()),
        Ok(vec![Value::from_micros(2_500_000)])
    );
    assert_eq!(engine.resolve_value(&Scalar::Null, &steps(), &table()), Ok(vec![Value::zero()]));
    assert_eq!(
        engine.resolve_value(&Scalar::Bool(true), &steps(), &table()),
        Ok(vec![Value::zero()])
    );
    assert_eq!(
        engine.resolve_value(&Scalar::Other("[1]".to_string()), &steps(), &table()),
        Ok(vec![Value::zero()])
    );
}

#[test]
fn inputs_are_resolved_one_after_the_other() {
    let mut engine = PricingEngine::new();
    let references = vec![
        text("/volume"),
        text("/material/*/color"),
        Scalar::Number(Value::from_int(2)),
        text("step__1"),
    ];
    assert_eq!(
        engine.resolve_inputs(&references, &steps(), &table()),
        Ok(vec![
            Value::from_int(20),
            Value::from_int(30),
            Value::from_int(300),
            Value::from_int(2),
            Value::from_int(150),
        ])
    );
    assert_eq!(engine.resolve_inputs(&Vec::new(), &steps(), &table()), Ok(Vec::new()));
}

#[test]
fn first_failing_input_ends_the_resolution() {
    let mut engine = PricingEngine::new();
    let references = vec![text("/volume"), text("step__x"), text("/none/*")];
    assert_eq!(
        engine.resolve_inputs(&references, &steps(), &table()),
        Err(PricingError::InvalidStepReference { reference: "step__x".to_string() })
    );
}

#[test]
fn first_value_of_a_wildcard_is_the_first_match() {
    let mut engine = PricingEngine::new();
    assert_eq!(
        engine.resolve_first(&text("/material/*/color"), &steps(), &table()),
        Ok(Value::from_int(30))
    );
}
