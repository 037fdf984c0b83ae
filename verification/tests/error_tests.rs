use pricing_engine::{Operation, PricingError, Value};

fn list(items: &[&str]) -> Vec<String> {
    items.iter().map(|s| s.to_string()).collect()
}

#[test]
fn input_errors_name_the_path() {
    let e = PricingError::MissingRequiredInput {
        pattern: "/material/*/color".to_string(),
        provided: list(&["/volume", "/time_taken"]),
    };
    assert_eq!(
        e.message(),
        "Required input '/material/*/color' is missing. Provided inputs: [\"/volume\", \"/time_taken\"]"
    );
    let e = PricingError::MissingRequiredInput { pattern: "/a".to_string(), provided: Vec::new() };
    assert_eq!(e.message(), "Required input '/a' is missing. Provided inputs: []");
    let e = PricingError::DuplicateInputPath { path: "/volume".to_string() };
    assert_eq!(e.message(), "Duplicate input for path '/volume'. Each path must be unique.");
    let e = PricingError::UnknownPath { path: "/x".to_string(), known_paths: list(&["/volume"]) };
    assert_eq!(e.message(), "No pricing node found for path '/x'. Available paths: [\"/volume\"]");
    let e = PricingError::InvalidValueForPath {
        path: "/material".to_string(),
        value: "wood".to_string(),
        valid_values: list(&["tpa", "pla", "resin"]),
    };
    assert_eq!(
        e.message(),
        "Invalid value 'wood' for path '/material'. Available values: [\"tpa\", \"pla\", \"resin\"]"
    );
    let e = PricingError::NonNumericInputForNumericNode {
        path: "/volume".to_string(),
        value: "much".to_string(),
    };
    assert_eq!(e.message(), "Invalid numeric input 'much' for path '/volume'.");
}

#[test]
fn reference_errors_name_the_reference() {
    let e = PricingError::InvalidStepReference { reference: "step__x".to_string() };
    assert_eq!(e.message(), "Invalid step reference: step__x");
    let e = PricingError::NoWildcardMatch {
        pattern: "/a/*".to_string(),
        known_paths: list(&["/b", "/c"]),
    };
    assert_eq!(
        e.message(),
        "No inputs found matching wildcard pattern '/a/*'. Available paths: [\"/b\", \"/c\"]"
    );
    let e = PricingError::UnparsablePattern { pattern: "/a/(".to_string() };
    assert_eq!(e.message(), "Pattern '/a/(' cannot be compiled");
}

#[test]
fn arity_errors_say_what_the_operator_requires() {
    let message = |operation: Operation, count: usize| {
        PricingError::OperatorArityError { step: "S".to_string(), operation, count }.message()
    };
    assert_eq!(message(Operation::Add, 0), "S: add requires at least one input");
    assert_eq!(message(Operation::Subtract, 0), "S: subtract requires at least one input");
    assert_eq!(message(Operation::Multiply, 0), "S: multiply requires at least one input");
    assert_eq!(message(Operation::Divide, 1), "S: divide requires at least two inputs");
    assert_eq!(message(Operation::Min, 0), "S: min requires at least one input");
    assert_eq!(message(Operation::Max, 0), "S: max requires at least one input");
    assert_eq!(
        message(Operation::Percentage, 1),
        "S: percentage requires percent in step or two inputs"
    );
    assert_eq!(message(Operation::Percentage, 3), "S: percentage allows only one or two inputs");
    assert_eq!(message(Operation::Round, 1), "S: round requires decimals in step or two inputs");
    assert_eq!(message(Operation::Round, 0), "S: round allows only one or two inputs");
}

#[test]
fn step_errors_start_with_the_step() {
    let step = "Apply Tax".to_string();
    let e = PricingError::DivisionByZero { step: step.clone() };
    assert_eq!(e.message(), "Apply Tax: division by zero");
    let e = PricingError::NegativePercent {
        step: step.clone(),
        percent: Value::from_micros(-2_500_000),
    };
    assert_eq!(e.message(), "Apply Tax: percentage cannot be negative (-2.5)");
    let e = PricingError::InvalidClampRange {
        step: step.clone(),
        min: Value::from_int(10),
        max: Value::from_int(5),
    };
    assert_eq!(e.message(), "Apply Tax: min value (10) cannot be greater than max value (5)");
    let e = PricingError::UnsupportedConditionOperator {
        step: step.clone(),
        operator: "=~".to_string(),
    };
    assert_eq!(e.message(), "Apply Tax: unsupported operator '=~'");
    let e = PricingError::NumericOverflow { context: step };
    assert_eq!(e.message(), "Apply Tax: result out of range");
}
