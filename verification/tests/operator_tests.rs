use pricing_engine::operators::clamp_value;
use pricing_engine::outcome::{
    apply_add, apply_clamp, apply_divide, apply_if, apply_max, apply_min, apply_multiply,
    apply_percentage, apply_round, apply_subtract, compare,
};
use pricing_engine::{Operation, PricingError, Value};

fn units(list: &[i32]) -> Vec<Value> {
    list.iter().map(|u| Value::from_int(*u)).collect()
}

fn name() -> String {
    "Total".to_string()
}

fn arity(operation: Operation, count: usize) -> PricingError {
    PricingError::OperatorArityError { step: name(), operation, count }
}

#[test]
fn add_sums_all_values() {
    let (result, entry) = apply_add(1, name(), units(&[20, 100, 30])).unwrap();
    assert_eq!(result, Value::from_int(150));
    assert_eq!(entry.step_id, 1);
    assert_eq!(entry.name, "Total");
    assert_eq!(entry.operation, "Addition");
    assert_eq!(entry.description, "Sum of 3 values");
    assert_eq!(entry.inputs, units(&[20, 100, 30]));
    assert_eq!(entry.calculation, "20.00 + 100.00 + 30.00");
    assert_eq!(entry.result, Value::from_int(150));
}

#[test]
fn add_of_one_value_is_that_value() {
    let (result, entry) = apply_add(1, name(), units(&[7])).unwrap();
    assert_eq!(result, Value::from_int(7));
    assert_eq!(entry.description, "Sum of 1 values");
    assert_eq!(entry.calculation, "7.00");
}

#[test]
fn add_may_pass_through_sums_out_of_range() {
    let values = vec![Value::from_micros(i64::MAX), Value::from_micros(5), Value::from_micros(-9)];
    let (result, _) = apply_add(1, name(), values).unwrap();
    assert_eq!(result, Value::from_micros(i64::MAX - 4));
    assert_eq!(
        apply_add(1, name(), vec![Value::from_micros(i64::MAX), Value::from_micros(1)]),
        Err(PricingError::NumericOverflow { context: name() })
    );
}

#[test]
fn subtract_takes_the_rest_from_the_first() {
    let (result, entry) = apply_subtract(6, name(), units(&[345, 10])).unwrap();
    assert_eq!(result, Value::from_int(335));
    assert_eq!(entry.operation, "Subtraction");
    assert_eq!(entry.description, "Subtract 1 value(s) from base");
    assert_eq!(entry.calculation, "345.00 - 10.00");
    let (result, entry) = apply_subtract(6, name(), units(&[10, 1, 2, 3])).unwrap();
    assert_eq!(result, Value::from_int(4));
    assert_eq!(entry.description, "Subtract 3 value(s) from base");
}

#[test]
fn subtract_of_one_value_passes_it_through() {
    let (result, entry) = apply_subtract(6, name(), units(&[-5])).unwrap();
    assert_eq!(result, Value::from_int(-5));
    assert_eq!(entry.description, "Subtract 0 value(s) from base");
    assert_eq!(entry.calculation, "-5.00");
}

#[test]
fn multiply_gives_the_product() {
    let (result, entry) = apply_multiply(2, name(), units(&[2, 150])).unwrap();
    assert_eq!(result, Value::from_int(300));
    assert_eq!(entry.operation, "Multiplication");
    assert_eq!(entry.description, "Product of 2 values");
    assert_eq!(entry.calculation, "2.00 × 150.00");
    let values = vec![Value::from_micros(1_500_000), Value::from_micros(-2_500_000)];
    assert_eq!(apply_multiply(2, name(), values).unwrap().0, Value::from_micros(-3_750_000));
    assert_eq!(
        apply_multiply(2, name(), vec![Value::from_micros(i64::MAX), Value::from_int(3)]),
        Err(PricingError::NumericOverflow { context: name() })
    );
}

#[test]
fn divide_goes_through_the_divisors_in_turn() {
    let (result, entry) = apply_divide(3, name(), units(&[100, 4, 5])).unwrap();
    assert_eq!(result, Value::from_int(5));
    assert_eq!(entry.operation, "Division");
    assert_eq!(entry.description, "Divide 100 by 2 value(s)");
    assert_eq!(entry.calculation, "100.00 ÷ 4.00 ÷ 5.00");
    let (result, _) = apply_divide(3, name(), units(&[10, 3])).unwrap();
    assert_eq!(result, Value::from_micros(3_333_333));
}

#[test]
fn divide_by_zero_is_an_error() {
    assert_eq!(
        apply_divide(3, name(), units(&[10, 0])),
        Err(PricingError::DivisionByZero { step: name() })
    );
    assert_eq!(
        apply_divide(3, name(), units(&[10, 2, 0, 5])),
        Err(PricingError::DivisionByZero { step: name() })
    );
    assert_eq!(
        apply_divide(3, name(), units(&[0, 5])).unwrap().0,
        Value::zero()
    );
}

#[test]
fn divide_reports_a_quotient_out_of_range_before_a_later_zero() {
    let values = vec![Value::from_micros(i64::MAX), Value::from_micros(1), Value::zero()];
    assert_eq!(
        apply_divide(3, name(), values),
        Err(PricingError::NumericOverflow { context: name() })
    );
}

#[test]
fn operators_refuse_too_few_values() {
    assert_eq!(apply_add(1, name(), Vec::new()), Err(arity(Operation::Add, 0)));
    assert_eq!(apply_subtract(1, name(), Vec::new()), Err(arity(Operation::Subtract, 0)));
    assert_eq!(apply_multiply(1, name(), Vec::new()), Err(arity(Operation::Multiply, 0)));
    assert_eq!(apply_min(1, name(), Vec::new()), Err(arity(Operation::Min, 0)));
    assert_eq!(apply_max(1, name(), Vec::new()), Err(arity(Operation::Max, 0)));
    assert_eq!(apply_divide(1, name(), Vec::new()), Err(arity(Operation::Divide, 0)));
    assert_eq!(apply_divide(1, name(), units(&[4])), Err(arity(Operation::Divide, 1)));
}

#[test]
fn min_and_max_pick_the_extremes() {
    let (low, entry) = apply_min(4, name(), units(&[30, -2, 15])).unwrap();
    assert_eq!(low, Value::from_int(-2));
    assert_eq!(entry.operation, "Minimum");
    assert_eq!(entry.description, "Minimum of 3 values");
    assert_eq!(entry.calculation, "min(30.00, -2.00, 15.00)");
    let (high, entry) = apply_max(5, name(), units(&[30, -2, 15])).unwrap();
    assert_eq!(high, Value::from_int(30));
    assert_eq!(entry.operation, "Maximum");
    assert_eq!(entry.description, "Maximum of 3 values");
    assert_eq!(entry.calculation, "max(30.00, -2.00, 15.00)");
    assert_eq!(apply_min(4, name(), units(&[9])).unwrap().0, Value::from_int(9));
    assert_eq!(apply_max(4, name(), units(&[9])).unwrap().0, Value::from_int(9));
}

#[test]
fn percentage_takes_its_rate_from_the_second_value() {
    let (result, entry) = apply_percentage(4, name(), units(&[300, 15]), None).unwrap();
    assert_eq!(result, Value::from_int(45));
    assert_eq!(entry.operation, "Percentage");
    assert_eq!(entry.description, "15% of 300");
    assert_eq!(entry.calculation, "300.00 × 15%");
    assert_eq!(entry.inputs, units(&[300, 15]));
    // The second value goes before the step's own rate.
    let stated = Some(Value::from_int(50));
    let (result, _) = apply_percentage(4, name(), units(&[300, 15]), stated).unwrap();
    assert_eq!(result, Value::from_int(45));
}

#[test]
fn percentage_takes_its_rate_from_the_step() {
    let rate = Some(Value::from_micros(12_500_000));
    let (result, entry) = apply_percentage(4, name(), units(&[200]), rate).unwrap();
    assert_eq!(result, Value::from_int(25));
    assert_eq!(entry.description, "12.5% of 200");
    assert_eq!(entry.calculation, "200.00 × 12.5%");
    let (result, _) = apply_percentage(4, name(), units(&[200]), Some(Value::zero())).unwrap();
    assert_eq!(result, Value::zero());
}

#[test]
fn percentage_errors() {
    assert_eq!(
        apply_percentage(4, name(), units(&[200]), None),
        Err(arity(Operation::Percentage, 1))
    );
    assert_eq!(
        apply_percentage(4, name(), Vec::new(), Some(Value::from_int(5))),
        Err(arity(Operation::Percentage, 0))
    );
    assert_eq!(
        apply_percentage(4, name(), units(&[1, 2, 3]), None),
        Err(arity(Operation::Percentage, 3))
    );
    assert_eq!(
        apply_percentage(4, name(), units(&[200, -5]), None),
        Err(PricingError::NegativePercent { step: name(), percent: Value::from_int(-5) })
    );
    assert_eq!(
        apply_percentage(4, name(), units(&[200]), Some(Value::from_micros(-1))),
        Err(PricingError::NegativePercent { step: name(), percent: Value::from_micros(-1) })
    );
    assert_eq!(
        apply_percentage(4, name(), vec![Value::from_micros(i64::MAX)], Some(Value::from_int(200))),
        Err(PricingError::NumericOverflow { context: name() })
    );
}

#[test]
fn round_takes_its_places_from_the_step() {
    let values = vec![Value::from_micros(2_345_000)];
    let (result, entry) = apply_round(8, name(), values.clone(), Some(2)).unwrap();
    assert_eq!(result, Value::from_micros(2_350_000));
    assert_eq!(entry.operation, "Round");
    assert_eq!(entry.description, "Round 2.345 to 2 decimal places");
    assert_eq!(entry.calculation, "round(2.345, 2)");
    let (result, entry) = apply_round(8, name(), units(&[1250]), Some(-2)).unwrap();
    assert_eq!(result, Value::from_int(1300));
    assert_eq!(entry.description, "Round 1250 to -2 decimal places");
    assert_eq!(entry.calculation, "round(1250, -2)");
}

#[test]
fn round_takes_its_places_from_the_second_value() {
    let values = vec![Value::from_micros(2_345_000), Value::from_micros(1_900_000)];
    let (result, entry) = apply_round(8, name(), values, Some(4)).unwrap();
    assert_eq!(result, Value::from_micros(2_300_000));
    assert_eq!(entry.description, "Round 2.345 to 1 decimal places");
    assert_eq!(entry.calculation, "round(2.345, 1)");
}

#[test]
fn round_errors() {
    assert_eq!(apply_round(8, name(), units(&[2]), None), Err(arity(Operation::Round, 1)));
    assert_eq!(apply_round(8, name(), Vec::new(), Some(2)), Err(arity(Operation::Round, 0)));
    assert_eq!(apply_round(8, name(), units(&[1, 2, 3]), Some(2)), Err(arity(Operation::Round, 3)));
    assert_eq!(
        apply_round(8, name(), vec![Value::from_micros(i64::MAX)], Some(-13)),
        Err(PricingError::NumericOverflow { context: name() })
    );
}

#[test]
fn clamp_leaves_a_value_in_range_alone() {
    let (result, entry) =
        apply_clamp(7, name(), Value::from_int(335), Value::from_int(50), Value::from_int(500))
            .unwrap();
    assert_eq!(result, Value::from_int(335));
    assert_eq!(entry.operation, "Clamp");
    assert_eq!(entry.description, "Clamp 335 between 50 and 500 - not clamped");
    assert_eq!(entry.calculation, "clamp(335, 50, 500)");
    assert_eq!(entry.inputs, units(&[335, 50, 500]));
}

#[test]
fn clamp_brings_a_value_to_the_nearer_bound() {
    let (result, entry) =
        apply_clamp(7, name(), Value::from_int(20), Value::from_int(50), Value::from_int(500))
            .unwrap();
    assert_eq!(result, Value::from_int(50));
    assert_eq!(entry.description, "Clamp 20 between 50 and 500 - clamped to minimum (50)");
    let (result, entry) =
        apply_clamp(7, name(), Value::from_int(900), Value::from_int(50), Value::from_int(500))
            .unwrap();
    assert_eq!(result, Value::from_int(500));
    assert_eq!(entry.description, "Clamp 900 between 50 and 500 - clamped to maximum (500)");
    let (result, _) =
        apply_clamp(7, name(), Value::from_int(9), Value::from_int(5), Value::from_int(5)).unwrap();
    assert_eq!(result, Value::from_int(5));
}

#[test]
fn clamp_stays_between_its_bounds() {
    let bounds = [(-3, 4), (0, 0), (5, 1000), (-50, -10)];
    for (low, high) in bounds.iter() {
        for v in -60..60 {
            let r = clamp_value(Value::from_int(v), Value::from_int(*low), Value::from_int(*high));
            assert!(Value::from_int(*low).to_micros() <= r.to_micros());
            assert!(r.to_micros() <= Value::from_int(*high).to_micros());
            if *low <= v && v <= *high {
                assert_eq!(r, Value::from_int(v));
            }
        }
    }
}

#[test]
fn clamp_refuses_an_empty_range() {
    assert_eq!(
        apply_clamp(7, name(), Value::from_int(1), Value::from_int(10), Value::from_int(5)),
        Err(PricingError::InvalidClampRange {
            step: name(),
            min: Value::from_int(10),
            max: Value::from_int(5),
        })
    );
}

#[test]
fn comparison_operators() {
    let (a, b) = (Value::from_int(1), Value::from_int(2));
    assert_eq!(compare(">", a, b), Some(false));
    assert_eq!(compare(">", b, a), Some(true));
    assert_eq!(compare(">", a, a), Some(false));
    assert_eq!(compare("<", a, b), Some(true));
    assert_eq!(compare("<", b, a), Some(false));
    assert_eq!(compare("<", a, a), Some(false));
    assert_eq!(compare(">=", a, b), Some(false));
    assert_eq!(compare(">=", b, a), Some(true));
    assert_eq!(compare(">=", a, a), Some(true));
    assert_eq!(compare("<=", a, b), Some(true));
    assert_eq!(compare("<=", b, a), Some(false));
    assert_eq!(compare("<=", a, a), Some(true));
    assert_eq!(compare("==", a, b), Some(false));
    assert_eq!(compare("==", a, a), Some(true));
    assert_eq!(compare("!=", a, b), Some(true));
    assert_eq!(compare("!=", a, a), Some(false));
    assert_eq!(compare("=", a, a), None);
    assert_eq!(compare("", a, a), None);
    assert_eq!(compare("=>", a, a), None);
    assert_eq!(compare("> ", a, a), None);
}

#[test]
fn if_gives_then_exactly_when_the_comparison_holds() {
    let then_value = Value::from_int(11);
    let else_value = Value::from_int(22);
    let operators = [">", "<", ">=", "<=", "==", "!="];
    for operator in operators.iter() {
        for left in -2..3 {
            for right in -2..3 {
                let holds = match *operator {
                    ">" => left > right,
                    "<" => left < right,
                    ">=" => left >= right,
                    "<=" => left <= right,
                    "==" => left == right,
                    _ => left != right,
                };
                let (result, entry) = apply_if(
                    3,
                    name(),
                    Value::from_int(left),
                    operator,
                    Value::from_int(right),
                    then_value,
                    else_value,
                )
                .unwrap();
                assert_eq!(result == then_value, holds);
                assert_eq!(result == else_value, !holds);
                assert_eq!(entry.result, result);
            }
        }
    }
}

#[test]
fn if_records_the_decision() {
    let (result, entry) = apply_if(
        3,
        name(),
        Value::from_int(300),
        ">",
        Value::from_int(200),
        Value::from_int(300),
        Value::zero(),
    )
    .unwrap();
    assert_eq!(result, Value::from_int(300));
    assert_eq!(entry.operation, "Conditional");
    assert_eq!(entry.description, "If 300 > 200 then 300 else 0");
    assert_eq!(entry.calculation, "300.00 > 200.00 → TRUE → 300.00");
    assert_eq!(entry.inputs, units(&[300, 200, 300, 0]));
    let (result, entry) = apply_if(
        3,
        name(),
        Value::from_int(100),
        ">=",
        Value::from_int(200),
        Value::from_int(300),
        Value::from_micros(1_500_000),
    )
    .unwrap();
    assert_eq!(result, Value::from_micros(1_500_000));
    assert_eq!(entry.description, "If 100 >= 200 then 300 else 1.5");
    assert_eq!(entry.calculation, "100.00 >= 200.00 → FALSE → 1.50");
}

#[test]
fn if_refuses_an_unknown_operator() {
    assert_eq!(
        apply_if(
            3,
            name(),
            Value::from_int(1),
            "=~",
            Value::from_int(2),
            Value::from_int(3),
            Value::from_int(4),
        ),
        Err(PricingError::UnsupportedConditionOperator {
            step: name(),
            operator: "=~".to_string(),
        })
    );
}
