use crate::breakdown::{BreakdownEntry, BreakdownView};
use crate::error::{ErrorView, Operation, PricingError};
use crate::operators::{
    clamp_value, clamped, comparison, difference, divide_values, greatest, held, least, max_value,
    min_value, multiply_values, product_of, quotient_of, subtract_values, sum_values, total,
    DivisionFault,
};
use crate::text::{
    append_fixed2, append_int, append_joined_fixed2, append_nat, append_plain, fixed2_text,
    int_text, joined_fixed2, nat_text, plain_text, same_text,
};
use crate::value::{percent_share, rounded, truncated, Value};
use vstd::prelude::*;
use vstd::string::StringExecFns;

verus! {

/// What a step comes to: its result with its record, or the error that
/// ended it.
pub type Outcome = Result<(Value, BreakdownView), ErrorView>;

/// The mathematical content of what a step function returns.
pub open spec fn outcome_view(r: Result<(Value, BreakdownEntry), PricingError>) -> Outcome {
    match r {
        Ok((value, entry)) => Ok((value, entry@)),
        Err(e) => Err(e@),
    }
}

/// The successful outcome with the given record.
pub open spec fn recorded(
    step_id: i32,
    name: Seq<char>,
    operation: Seq<char>,
    description: Seq<char>,
    inputs: Seq<Value>,
    calculation: Seq<char>,
    result: Value,
) -> Outcome {
    Ok(
        (
            result,
            BreakdownView { step_id, name, operation, description, inputs, calculation, result },
        ),
    )
}

/// The error of an operator that was given `count` operands and does not
/// accept that many.
pub open spec fn arity_error(name: Seq<char>, operation: Operation, count: nat) -> Outcome {
    Err(ErrorView::OperatorArityError { step: name, operation, count })
}

/// The error of a result that is out of range.
pub open spec fn overflow_error(name: Seq<char>) -> Outcome {
    Err(ErrorView::NumericOverflow { context: name })
}

/// Addition: the sum of one or more values.
pub open spec fn add_outcome(id: i32, name: Seq<char>, values: Seq<Value>) -> Outcome {
    if values.len() == 0 {
        arity_error(name, Operation::Add, 0)
    } else {
        match held(total(values)) {
            None => overflow_error(name),
            Some(result) => recorded(
                id,
                name,
                "Addition"@,
                "Sum of "@ + nat_text(values.len()) + " values"@,
                values,
                joined_fixed2(values, " + "@),
                result,
            ),
        }
    }
}

/// Subtraction: the first of one or more values, less all the others.
pub open spec fn subtract_outcome(id: i32, name: Seq<char>, values: Seq<Value>) -> Outcome {
    if values.len() == 0 {
        arity_error(name, Operation::Subtract, 0)
    } else {
        match held(difference(values)) {
            None => overflow_error(name),
            Some(result) => recorded(
                id,
                name,
                "Subtraction"@,
                "Subtract "@ + nat_text((values.len() - 1) as nat) + " value(s) from base"@,
                values,
                joined_fixed2(values, " - "@),
                result,
            ),
        }
    }
}

/// Multiplication: the product of one or more values.
pub open spec fn multiply_outcome(id: i32, name: Seq<char>, values: Seq<Value>) -> Outcome {
    if values.len() == 0 {
        arity_error(name, Operation::Multiply, 0)
    } else {
        match product_of(values) {
            None => overflow_error(name),
            Some(result) => recorded(
                id,
                name,
                "Multiplication"@,
                "Product of "@ + nat_text(values.len()) + " values"@,
                values,
                joined_fixed2(values, " × "@),
                result,
            ),
        }
    }
}

/// Division: the first of two or more values, divided by each of the
/// others in turn; no divisor may be zero.
pub open spec fn divide_outcome(id: i32, name: Seq<char>, values: Seq<Value>) -> Outcome {
    if values.len() < 2 {
        arity_error(name, Operation::Divide, values.len())
    } else {
        match quotient_of(values) {
            Err(DivisionFault::ZeroDivisor) => Err(ErrorView::DivisionByZero { step: name }),
            Err(DivisionFault::OutOfRange) => overflow_error(name),
            Ok(result) => recorded(
                id,
                name,
                "Division"@,
                "Divide "@ + plain_text(values[0]@) + " by "@ + nat_text(
                    (values.len() - 1) as nat,
                ) + " value(s)"@,
                values,
                joined_fixed2(values, " ÷ "@),
                result,
            ),
        }
    }
}

/// Minimum: the least of one or more values.
pub open spec fn min_outcome(id: i32, name: Seq<char>, values: Seq<Value>) -> Outcome {
    if values.len() == 0 {
        arity_error(name, Operation::Min, 0)
    } else {
        recorded(
            id,
            name,
            "Minimum"@,
            "Minimum of "@ + nat_text(values.len()) + " values"@,
            values,
            "min("@ + joined_fixed2(values, ", "@) + ")"@,
            least(values),
        )
    }
}

/// Maximum: the greatest of one or more values.
pub open spec fn max_outcome(id: i32, name: Seq<char>, values: Seq<Value>) -> Outcome {
    if values.len() == 0 {
        arity_error(name, Operation::Max, 0)
    } else {
        recorded(
            id,
            name,
            "Maximum"@,
            "Maximum of "@ + nat_text(values.len()) + " values"@,
            values,
            "max("@ + joined_fixed2(values, ", "@) + ")"@,
            greatest(values),
        )
    }
}

/// Percentage: so many per cent of the first value. With one value the
/// percentage is the step's own, which must then be there; with two it
/// is the second value. It may not be negative.
pub open spec fn percentage_outcome(
    id: i32,
    name: Seq<char>,
    values: Seq<Value>,
    percent: Option<Value>,
) -> Outcome {
    if values.len() == 1 && percent is None {
        arity_error(name, Operation::Percentage, 1)
    } else if values.len() != 1 && values.len() != 2 {
        arity_error(name, Operation::Percentage, values.len())
    } else {
        let rate = if values.len() == 1 { percent->Some_0 } else { values[1] };
        if rate@ < 0 {
            Err(ErrorView::NegativePercent { step: name, percent: rate })
        } else {
            match held(percent_share(values[0]@, rate@)) {
                None => overflow_error(name),
                Some(result) => recorded(
                    id,
                    name,
                    "Percentage"@,
                    plain_text(rate@) + "% of "@ + plain_text(values[0]@),
                    values,
                    fixed2_text(values[0]@) + " × "@ + plain_text(rate@) + "%"@,
                    result,
                ),
            }
        }
    }
}

/// Round: the first value rounded to a number of decimal places, halves
/// away from zero. With one value the number of places is the step's own,
/// which must then be there; with two it is the whole part of the second.
pub open spec fn round_outcome(
    id: i32,
    name: Seq<char>,
    values: Seq<Value>,
    decimals: Option<i32>,
) -> Outcome {
    if values.len() == 1 && decimals is None {
        arity_error(name, Operation::Round, 1)
    } else if values.len() != 1 && values.len() != 2 {
        arity_error(name, Operation::Round, values.len())
    } else {
        let places: int = if values.len() == 1 {
            decimals->Some_0 as int
        } else {
            truncated(values[1]@)
        };
        match held(rounded(values[0]@, places)) {
            None => overflow_error(name),
            Some(result) => recorded(
                id,
                name,
                "Round"@,
                "Round "@ + plain_text(values[0]@) + " to "@ + int_text(places)
                    + " decimal places"@,
                values,
                "round("@ + plain_text(values[0]@) + ", "@ + int_text(places) + ")"@,
                result,
            ),
        }
    }
}

/// What the record of a clamp says was done to the value.
pub open spec fn clamp_note(value: Value, min: Value, max: Value) -> Seq<char> {
    if value@ < min@ {
        "clamped to minimum ("@ + plain_text(min@) + ")"@
    } else if value@ > max@ {
        "clamped to maximum ("@ + plain_text(max@) + ")"@
    } else {
        "not clamped"@
    }
}

/// Clamp: the value brought into the range from `min` to `max`, which
/// must not be empty.
pub open spec fn clamp_outcome(id: i32, name: Seq<char>, value: Value, min: Value, max: Value)
    -> Outcome {
    if min@ > max@ {
        Err(ErrorView::InvalidClampRange { step: name, min, max })
    } else {
        recorded(
            id,
            name,
            "Clamp"@,
            "Clamp "@ + plain_text(value@) + " between "@ + plain_text(min@) + " and "@
                + plain_text(max@) + " - "@ + clamp_note(value, min, max),
            seq![value, min, max],
            "clamp("@ + plain_text(value@) + ", "@ + plain_text(min@) + ", "@ + plain_text(max@)
                + ")"@,
            clamped(value, min, max),
        )
    }
}

/// Conditional: `then_value` where the comparison holds, `else_value`
/// where it does not.
pub open spec fn if_outcome(
    id: i32,
    name: Seq<char>,
    left: Value,
    operator: Seq<char>,
    right: Value,
    then_value: Value,
    else_value: Value,
) -> Outcome {
    match comparison(operator, left, right) {
        None => Err(ErrorView::UnsupportedConditionOperator { step: name, operator }),
        Some(holds) => {
            let result = if holds { then_value } else { else_value };
            recorded(
                id,
                name,
                "Conditional"@,
                "If "@ + plain_text(left@) + " "@ + operator + " "@ + plain_text(right@)
                    + " then "@ + plain_text(then_value@) + " else "@ + plain_text(else_value@),
                seq![left, right, then_value, else_value],
                fixed2_text(left@) + " "@ + operator + " "@ + fixed2_text(right@) + " → "@ + (
                if holds {
                    "TRUE"@
                } else {
                    "FALSE"@
                }) + " → "@ + fixed2_text(result@),
                result,
            )
        },
    }
}

fn arity(name: String, operation: Operation, count: usize) -> (r: Result<
    (Value, BreakdownEntry),
    PricingError,
>)
    ensures
        outcome_view(r) == arity_error(name@, operation, count as nat),
{
    Err(PricingError::OperatorArityError { step: name, operation, count })
}

fn overflow(name: String) -> (r: Result<(Value, BreakdownEntry), PricingError>)
    ensures
        outcome_view(r) == overflow_error(name@),
{
    Err(PricingError::NumericOverflow { context: name })
}

fn record(
    step_id: i32,
    name: String,
    operation: &str,
    description: String,
    inputs: Vec<Value>,
    calculation: String,
    result: Value,
) -> (r: Result<(Value, BreakdownEntry), PricingError>)
    ensures
        outcome_view(r) == recorded(
            step_id,
            name@,
            operation@,
            description@,
            inputs@,
            calculation@,
            result,
        ),
{
    Ok(
        (
            result,
            BreakdownEntry {
                step_id,
                name,
                operation: String::from_str(operation),
                description,
                inputs,
                calculation,
                result,
            },
        ),
    )
}

/// `head`, the count, and `tail`, one after the other.
fn counted(head: &str, count: usize, tail: &str) -> (r: String)
    ensures
        r@ == head@ + nat_text(count as nat) + tail@,
{
    let mut s = String::from_str(head);
    append_nat(&mut s, count as u128);
    s.append(tail);
    s
}

/// The two-decimal texts of the values with `sep` between them.
fn joined(values: &Vec<Value>, sep: &str) -> (r: String)
    ensures
        r@ == joined_fixed2(values@, sep@),
{
    let mut s = String::new();
    append_joined_fixed2(&mut s, values, sep);
    assert(s@ =~= joined_fixed2(values@, sep@));
    s
}

/// Adds up values that are already resolved.
pub fn apply_add(id: i32, name: String, values: Vec<Value>) -> (r: Result<
    (Value, BreakdownEntry),
    PricingError,
>)
    ensures
        outcome_view(r) == add_outcome(id, name@, values@),
{
    if values.len() == 0 {
        return arity(name, Operation::Add, 0);
    }
    match sum_values(&values) {
        None => overflow(name),
        Some(result) => {
            let description = counted("Sum of ", values.len(), " values");
            let calculation = joined(&values, " + ");
            record(id, name, "Addition", description, values, calculation, result)
        },
    }
}

/// Subtracts values that are already resolved.
pub fn apply_subtract(id: i32, name: String, values: Vec<Value>) -> (r: Result<
    (Value, BreakdownEntry),
    PricingError,
>)
    ensures
        outcome_view(r) == subtract_outcome(id, name@, values@),
{
    if values.len() == 0 {
        return arity(name, Operation::Subtract, 0);
    }
    match subtract_values(&values) {
        None => overflow(name),
        Some(result) => {
            let description = counted("Subtract ", values.len() - 1, " value(s) from base");
            let calculation = joined(&values, " - ");
            record(id, name, "Subtraction", description, values, calculation, result)
        },
    }
}

/// Multiplies values that are already resolved.
pub fn apply_multiply(id: i32, name: String, values: Vec<Value>) -> (r: Result<
    (Value, BreakdownEntry),
    PricingError,
>)
    ensures
        outcome_view(r) == multiply_outcome(id, name@, values@),
{
    if values.len() == 0 {
        return arity(name, Operation::Multiply, 0);
    }
    match multiply_values(&values) {
        None => overflow(name),
        Some(result) => {
            let description = counted("Product of ", values.len(), " values");
            let calculation = joined(&values, " × ");
            record(id, name, "Multiplication", description, values, calculation, result)
        },
    }
}

/// Divides values that are already resolved.
pub fn apply_divide(id: i32, name: String, values: Vec<Value>) -> (r: Result<
    (Value, BreakdownEntry),
    PricingError,
>)
    ensures
        outcome_view(r) == divide_outcome(id, name@, values@),
{
    if values.len() < 2 {
        let count = values.len();
        return arity(name, Operation::Divide, count);
    }
    match divide_values(&values) {
        Err(DivisionFault::ZeroDivisor) => Err(PricingError::DivisionByZero { step: name }),
        Err(DivisionFault::OutOfRange) => overflow(name),
        Ok(result) => {
            let mut description = String::from_str("Divide ");
            append_plain(&mut description, values[0]);
            description.append(" by ");
            append_nat(&mut description, (values.len() - 1) as u128);
            description.append(" value(s)");
            let calculation = joined(&values, " ÷ ");
            record(id, name, "Division", description, values, calculation, result)
        },
    }
}

/// Takes the least of values that are already resolved.
pub fn apply_min(id: i32, name: String, values: Vec<Value>) -> (r: Result<
    (Value, BreakdownEntry),
    PricingError,
>)
    ensures
        outcome_view(r) == min_outcome(id, name@, values@),
{
    if values.len() == 0 {
        return arity(name, Operation::Min, 0);
    }
    let result = min_value(&values);
    let description = counted("Minimum of ", values.len(), " values");
    let mut calculation = String::from_str("min(");
    append_joined_fixed2(&mut calculation, &values, ", ");
    calculation.append(")");
    record(id, name, "Minimum", description, values, calculation, result)
}

/// Takes the greatest of values that are already resolved.
pub fn apply_max(id: i32, name: String, values: Vec<Value>) -> (r: Result<
    (Value, BreakdownEntry),
    PricingError,
>)
    ensures
        outcome_view(r) == max_outcome(id, name@, values@),
{
    if values.len() == 0 {
        return arity(name, Operation::Max, 0);
    }
    let result = max_value(&values);
    let description = counted("Maximum of ", values.len(), " values");
    let mut calculation = String::from_str("max(");
    append_joined_fixed2(&mut calculation, &values, ", ");
    calculation.append(")");
    record(id, name, "Maximum", description, values, calculation, result)
}

/// Takes a percentage of a value that is already resolved.
pub fn apply_percentage(id: i32, name: String, values: Vec<Value>, percent: Option<Value>) -> (r:
    Result<(Value, BreakdownEntry), PricingError>)
    ensures
        outcome_view(r) == percentage_outcome(id, name@, values@, percent),
{
    let rate = if values.len() == 1 {
        match percent {
            Some(p) => p,
            None => {
                return arity(name, Operation::Percentage, 1);
            },
        }
    } else if values.len() == 2 {
        values[1]
    } else {
        let count = values.len();
        return arity(name, Operation::Percentage, count);
    };
    if rate.micros < 0 {
        return Err(PricingError::NegativePercent { step: name, percent: rate });
    }
    match values[0].checked_percent(rate) {
        None => overflow(name),
        Some(result) => {
            let mut description = String::new();
            append_plain(&mut description, rate);
            description.append("% of ");
            append_plain(&mut description, values[0]);
            assert(description@ =~= plain_text(rate@) + "% of "@ + plain_text(values[0]@));
            let mut calculation = String::new();
            append_fixed2(&mut calculation, values[0]);
            calculation.append(" × ");
            append_plain(&mut calculation, rate);
            calculation.append("%");
            assert(calculation@ =~= fixed2_text(values[0]@) + " × "@ + plain_text(rate@) + "%"@);
            record(id, name, "Percentage", description, values, calculation, result)
        },
    }
}

/// Rounds a value that is already resolved.
pub fn apply_round(id: i32, name: String, values: Vec<Value>, decimals: Option<i32>) -> (r: Result<
    (Value, BreakdownEntry),
    PricingError,
>)
    ensures
        outcome_view(r) == round_outcome(id, name@, values@, decimals),
{
    let places: i32 = if values.len() == 1 {
        match decimals {
            Some(d) => d,
            None => {
                return arity(name, Operation::Round, 1);
            },
        }
    } else if values.len() == 2 {
        values[1].truncate()
    } else {
        let count = values.len();
        return arity(name, Operation::Round, count);
    };
    match values[0].checked_round(places) {
        None => overflow(name),
        Some(result) => {
            let mut description = String::from_str("Round ");
            append_plain(&mut description, values[0]);
            description.append(" to ");
            append_int(&mut description, places as i64);
            description.append(" decimal places");
            let mut calculation = String::from_str("round(");
            append_plain(&mut calculation, values[0]);
            calculation.append(", ");
            append_int(&mut calculation, places as i64);
            calculation.append(")");
            record(id, name, "Round", description, values, calculation, result)
        },
    }
}

/// Clamps a value that is already resolved.
pub fn apply_clamp(id: i32, name: String, value: Value, min: Value, max: Value) -> (r: Result<
    (Value, BreakdownEntry),
    PricingError,
>)
    ensures
        outcome_view(r) == clamp_outcome(id, name@, value, min, max),
{
    if min.micros > max.micros {
        return Err(PricingError::InvalidClampRange { step: name, min, max });
    }
    let result = clamp_value(value, min, max);
    let note = if value.micros < min.micros {
        let mut s = String::from_str("clamped to minimum (");
        append_plain(&mut s, min);
        s.append(")");
        s
    } else if value.micros > max.micros {
        let mut s = String::from_str("clamped to maximum (");
        append_plain(&mut s, max);
        s.append(")");
        s
    } else {
        String::from_str("not clamped")
    };
    let mut description = String::from_str("Clamp ");
    append_plain(&mut description, value);
    description.append(" between ");
    append_plain(&mut description, min);
    description.append(" and ");
    append_plain(&mut description, max);
    description.append(" - ");
    description.append(note.as_str());
    let mut calculation = String::from_str("clamp(");
    append_plain(&mut calculation, value);
    calculation.append(", ");
    append_plain(&mut calculation, min);
    calculation.append(", ");
    append_plain(&mut calculation, max);
    calculation.append(")");
    let mut inputs: Vec<Value> = Vec::new();
    inputs.push(value);
    inputs.push(min);
    inputs.push(max);
    assert(inputs@ =~= seq![value, min, max]);
    record(id, name, "Clamp", description, inputs, calculation, result)
}

/// Decides a comparison between two values.
pub fn compare(operator: &str, left: Value, right: Value) -> (r: Option<bool>)
    ensures
        r == comparison(operator@, left, right),
{
    if same_text(operator, ">") {
        Some(left.micros > right.micros)
    } else if same_text(operator, "<") {
        Some(left.micros < right.micros)
    } else if same_text(operator, ">=") {
        Some(left.micros >= right.micros)
    } else if same_text(operator, "<=") {
        Some(left.micros <= right.micros)
    } else if same_text(operator, "==") {
        Some(left.micros == right.micros)
    } else if same_text(operator, "!=") {
        Some(left.micros != right.micros)
    } else {
        None
    }
}

/// Chooses between two values that are already resolved.
pub fn apply_if(
    id: i32,
    name: String,
    left: Value,
    operator: &str,
    right: Value,
    then_value: Value,
    else_value: Value,
) -> (r: Result<(Value, BreakdownEntry), PricingError>)
    ensures
        outcome_view(r) == if_outcome(id, name@, left, operator@, right, then_value, else_value),
{
    let holds = match compare(operator, left, right) {
        Some(holds) => holds,
        None => {
            return Err(
                PricingError::UnsupportedConditionOperator {
                    step: name,
                    operator: String::from_str(operator),
                },
            );
        },
    };
    let result = if holds { then_value } else { else_value };
    let mut description = String::from_str("If ");
    append_plain(&mut description, left);
    description.append(" ");
    description.append(operator);
    description.append(" ");
    append_plain(&mut description, right);
    description.append(" then ");
    append_plain(&mut description, then_value);
    description.append(" else ");
    append_plain(&mut description, else_value);
    let mut calculation = String::new();
    append_fixed2(&mut calculation, left);
    calculation.append(" ");
    calculation.append(operator);
    calculation.append(" ");
    append_fixed2(&mut calculation, right);
    calculation.append(" → ");
    if holds {
        calculation.append("TRUE");
    } else {
        calculation.append("FALSE");
    }
    calculation.append(" → ");
    append_fixed2(&mut calculation, result);
    assert(calculation@ =~= fixed2_text(left@) + " "@ + operator@ + " "@ + fixed2_text(right@)
        + " → "@ + (if holds {
        "TRUE"@
    } else {
        "FALSE"@
    }) + " → "@ + fixed2_text(result@));
    let mut inputs: Vec<Value> = Vec::new();
    inputs.push(left);
    inputs.push(right);
    inputs.push(then_value);
    inputs.push(else_value);
    assert(inputs@ =~= seq![left, right, then_value, else_value]);
    record(id, name, "Conditional", description, inputs, calculation, result)
}

} // verus!
