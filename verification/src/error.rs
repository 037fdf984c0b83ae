use crate::text::{append_plain, plain_text, texts};
use crate::value::Value;
use vstd::prelude::*;
use vstd::string::StringExecFns;

verus! {

/// The ten operators a strategy step can apply.
#[derive(Clone, Copy, Debug, PartialEq, Eq, Structural)]
pub enum Operation {
    Add,
    Subtract,
    Multiply,
    Divide,
    Min,
    Max,
    Percentage,
    Round,
    Clamp,
    If,
}

/// Why a calculation was abandoned. Every failure ends the whole
/// calculation; no partial result is kept.
#[derive(Clone, Debug, PartialEq, Eq)]
pub enum PricingError {
    /// A required pattern is matched by none of the provided input paths.
    MissingRequiredInput { pattern: String, provided: Vec<String> },
    /// Two inputs share one path.
    DuplicateInputPath { path: String },
    /// The catalog has no node at the input's path.
    UnknownPath { path: String, known_paths: Vec<String> },
    /// The catalog has nodes at the path, but none for this value.
    InvalidValueForPath { path: String, value: String, valid_values: Vec<String> },
    /// A numeric node was given an input that is not a number.
    NonNumericInputForNumericNode { path: String, value: String },
    /// A step reference whose id is not a 32-bit integer.
    InvalidStepReference { reference: String },
    /// A wildcard pattern that matches none of the resolved paths.
    NoWildcardMatch { pattern: String, known_paths: Vec<String> },
    /// An operator was given a number of operands it does not accept.
    OperatorArityError { step: String, operation: Operation, count: usize },
    /// A divisor is zero.
    DivisionByZero { step: String },
    /// A percentage below zero.
    NegativePercent { step: String, percent: Value },
    /// A clamp whose lower bound lies above its upper bound.
    InvalidClampRange { step: String, min: Value, max: Value },
    /// A condition with an operator other than the six comparisons.
    UnsupportedConditionOperator { step: String, operator: String },
    /// A pattern that cannot be compiled into a matcher.
    UnparsablePattern { pattern: String },
    /// A result that a `Value` cannot hold; `context` names the step or
    /// the input path.
    NumericOverflow { context: String },
}

/// The content of a `PricingError`.
pub enum ErrorView {
    MissingRequiredInput { pattern: Seq<char>, provided: Seq<Seq<char>> },
    DuplicateInputPath { path: Seq<char> },
    UnknownPath { path: Seq<char>, known_paths: Seq<Seq<char>> },
    InvalidValueForPath { path: Seq<char>, value: Seq<char>, valid_values: Seq<Seq<char>> },
    NonNumericInputForNumericNode { path: Seq<char>, value: Seq<char> },
    InvalidStepReference { reference: Seq<char> },
    NoWildcardMatch { pattern: Seq<char>, known_paths: Seq<Seq<char>> },
    OperatorArityError { step: Seq<char>, operation: Operation, count: nat },
    DivisionByZero { step: Seq<char> },
    NegativePercent { step: Seq<char>, percent: Value },
    InvalidClampRange { step: Seq<char>, min: Value, max: Value },
    UnsupportedConditionOperator { step: Seq<char>, operator: Seq<char> },
    UnparsablePattern { pattern: Seq<char> },
    NumericOverflow { context: Seq<char> },
}

impl View for PricingError {
    type V = ErrorView;

    open spec fn view(&self) -> ErrorView {
        match *self {
            PricingError::MissingRequiredInput { pattern, provided } => {
                ErrorView::MissingRequiredInput { pattern: pattern@, provided: texts(provided@) }
            },
            PricingError::DuplicateInputPath { path } => ErrorView::DuplicateInputPath {
                path: path@,
            },
            PricingError::UnknownPath { path, known_paths } => ErrorView::UnknownPath {
                path: path@,
                known_paths: texts(known_paths@),
            },
            PricingError::InvalidValueForPath {
                path,
                value,
                valid_values,
            } => ErrorView::InvalidValueForPath {
                path: path@,
                value: value@,
                valid_values: texts(valid_values@),
            },
            PricingError::NonNumericInputForNumericNode {
                path,
                value,
            } => ErrorView::NonNumericInputForNumericNode { path: path@, value: value@ },
            PricingError::InvalidStepReference { reference } => ErrorView::InvalidStepReference {
                reference: reference@,
            },
            PricingError::NoWildcardMatch { pattern, known_paths } => ErrorView::NoWildcardMatch {
                pattern: pattern@,
                known_paths: texts(known_paths@),
            },
            PricingError::OperatorArityError {
                step,
                operation,
                count,
            } => ErrorView::OperatorArityError { step: step@, operation, count: count as nat },
            PricingError::DivisionByZero { step } => ErrorView::DivisionByZero { step: step@ },
            PricingError::NegativePercent { step, percent } => ErrorView::NegativePercent {
                step: step@,
                percent,
            },
            PricingError::InvalidClampRange { step, min, max } => ErrorView::InvalidClampRange {
                step: step@,
                min,
                max,
            },
            PricingError::UnsupportedConditionOperator {
                step,
                operator,
            } => ErrorView::UnsupportedConditionOperator { step: step@, operator: operator@ },
            PricingError::UnparsablePattern { pattern } => ErrorView::UnparsablePattern {
                pattern: pattern@,
            },
            PricingError::NumericOverflow { context } => ErrorView::NumericOverflow {
                context: context@,
            },
        }
    }
}

/// The items, each in double quotes, with `, ` between neighbours.
pub open spec fn quoted_items(items: Seq<Seq<char>>) -> Seq<char>
    decreases items.len(),
{
    if items.len() == 0 {
        Seq::empty()
    } else if items.len() == 1 {
        "\""@ + items[0] + "\""@
    } else {
        quoted_items(items.drop_last()) + ", "@ + "\""@ + items.last() + "\""@
    }
}

/// What an operator asks of the number of its operands, as the message of
/// an arity error says it.
pub open spec fn arity_text(operation: Operation, count: nat) -> Seq<char> {
    match operation {
        Operation::Add => "add requires at least one input"@,
        Operation::Subtract => "subtract requires at least one input"@,
        Operation::Multiply => "multiply requires at least one input"@,
        Operation::Divide => "divide requires at least two inputs"@,
        Operation::Min => "min requires at least one input"@,
        Operation::Max => "max requires at least one input"@,
        Operation::Percentage => if count == 1 {
            "percentage requires percent in step or two inputs"@
        } else {
            "percentage allows only one or two inputs"@
        },
        Operation::Round => if count == 1 {
            "round requires decimals in step or two inputs"@
        } else {
            "round allows only one or two inputs"@
        },
        Operation::Clamp => "clamp requires a value, a minimum and a maximum"@,
        Operation::If => "if requires a condition and a then value"@,
    }
}

/// The message of an error, for a reader.
pub open spec fn message_text(e: ErrorView) -> Seq<char> {
    match e {
        ErrorView::MissingRequiredInput { pattern, provided } => "Required input '"@ + pattern
            + "' is missing. Provided inputs: ["@ + quoted_items(provided) + "]"@,
        ErrorView::DuplicateInputPath { path } => "Duplicate input for path '"@ + path
            + "'. Each path must be unique."@,
        ErrorView::UnknownPath { path, known_paths } => "No pricing node found for path '"@ + path
            + "'. Available paths: ["@ + quoted_items(known_paths) + "]"@,
        ErrorView::InvalidValueForPath { path, value, valid_values } => "Invalid value '"@ + value
            + "' for path '"@ + path + "'. Available values: ["@ + quoted_items(valid_values)
            + "]"@,
        ErrorView::NonNumericInputForNumericNode { path, value } => "Invalid numeric input '"@
            + value + "' for path '"@ + path + "'."@,
        ErrorView::InvalidStepReference { reference } => "Invalid step reference: "@ + reference,
        ErrorView::NoWildcardMatch { pattern, known_paths } =>
            "No inputs found matching wildcard pattern '"@ + pattern + "'. Available paths: ["@
            + quoted_items(known_paths) + "]"@,
        ErrorView::OperatorArityError { step, operation, count } => step + ": "@ + arity_text(
            operation,
            count,
        ),
        ErrorView::DivisionByZero { step } => step + ": division by zero"@,
        ErrorView::NegativePercent { step, percent } => step
            + ": percentage cannot be negative ("@ + plain_text(percent@) + ")"@,
        ErrorView::InvalidClampRange { step, min, max } => step + ": min value ("@ + plain_text(
            min@,
        ) + ") cannot be greater than max value ("@ + plain_text(max@) + ")"@,
        ErrorView::UnsupportedConditionOperator { step, operator } => step
            + ": unsupported operator '"@ + operator + "'"@,
        ErrorView::UnparsablePattern { pattern } => "Pattern '"@ + pattern
            + "' cannot be compiled"@,
        ErrorView::NumericOverflow { context } => context + ": result out of range"@,
    }
}

/// Appends the items, each in double quotes, with `, ` between neighbours.
fn append_quoted(s: &mut String, items: &Vec<String>)
    ensures
        final(s)@ == old(s)@ + quoted_items(texts(items@)),
{
    let mut i: usize = 0;
    assert(s@ =~= old(s)@ + quoted_items(texts(items@).take(0)));
    while i < items.len()
        invariant
            0 <= i <= items.len(),
            s@ == old(s)@ + quoted_items(texts(items@).take(i as int)),
        decreases items.len() - i,
    {
        if i > 0 {
            s.append(", ");
        }
        s.append("\"");
        s.append(items[i].as_str());
        s.append("\"");
        proof {
            let next = texts(items@).take(i + 1);
            assert(next.drop_last() =~= texts(items@).take(i as int));
            assert(next.last() == items@[i as int]@);
            assert(s@ =~= old(s)@ + quoted_items(next));
        }
        i = i + 1;
    }
    assert(texts(items@).take(items.len() as int) =~= texts(items@));
}

/// Writes out what an operator asks of the number of its operands.
fn arity_message(operation: Operation, count: usize) -> (r: &'static str)
    ensures
        r@ == arity_text(operation, count as nat),
{
    match operation {
        Operation::Add => "add requires at least one input",
        Operation::Subtract => "subtract requires at least one input",
        Operation::Multiply => "multiply requires at least one input",
        Operation::Divide => "divide requires at least two inputs",
        Operation::Min => "min requires at least one input",
        Operation::Max => "max requires at least one input",
        Operation::Percentage => if count == 1 {
            "percentage requires percent in step or two inputs"
        } else {
            "percentage allows only one or two inputs"
        },
        Operation::Round => if count == 1 {
            "round requires decimals in step or two inputs"
        } else {
            "round allows only one or two inputs"
        },
        Operation::Clamp => "clamp requires a value, a minimum and a maximum",
        Operation::If => "if requires a condition and a then value",
    }
}

impl PricingError {
    /// The message of this error, for a reader.
    pub fn message(&self) -> (r: String)
        ensures
            r@ == message_text(self@),
    {
        match self {
            PricingError::MissingRequiredInput { pattern, provided } => {
                let mut s = String::from_str("Required input '");
                s.append(pattern.as_str());
                s.append("' is missing. Provided inputs: [");
                append_quoted(&mut s, provided);
                s.append("]");
                s
            },
            PricingError::DuplicateInputPath { path } => {
                let mut s = String::from_str("Duplicate input for path '");
                s.append(path.as_str());
                s.append("'. Each path must be unique.");
                s
            },
            PricingError::UnknownPath { path, known_paths } => {
                let mut s = String::from_str("No pricing node found for path '");
                s.append(path.as_str());
                s.append("'. Available paths: [");
                append_quoted(&mut s, known_paths);
                s.append("]");
                s
            },
            PricingError::InvalidValueForPath { path, value, valid_values } => {
                let mut s = String::from_str("Invalid value '");
                s.append(value.as_str());
                s.append("' for path '");
                s.append(path.as_str());
                s.append("'. Available values: [");
                append_quoted(&mut s, valid_values);
                s.append("]");
                s
            },
            PricingError::NonNumericInputForNumericNode { path, value } => {
                let mut s = String::from_str("Invalid numeric input '");
                s.append(value.as_str());
                s.append("' for path '");
                s.append(path.as_str());
                s.append("'.");
                s
            },
            PricingError::InvalidStepReference { reference } => {
                let mut s = String::from_str("Invalid step reference: ");
                s.append(reference.as_str());
                s
            },
            PricingError::NoWildcardMatch { pattern, known_paths } => {
                let mut s = String::from_str("No inputs found matching wildcard pattern '");
                s.append(pattern.as_str());
                s.append("'. Available paths: [");
                append_quoted(&mut s, known_paths);
                s.append("]");
                s
            },
            PricingError::OperatorArityError { step, operation, count } => {
                let mut s = step.clone();
                s.append(": ");
                s.append(arity_message(*operation, *count));
                assert(s@ =~= message_text(self@));
                s
            },
            PricingError::DivisionByZero { step } => {
                let mut s = step.clone();
                s.append(": division by zero");
                s
            },
            PricingError::NegativePercent { step, percent } => {
                let mut s = step.clone();
                s.append(": percentage cannot be negative (");
                append_plain(&mut s, *percent);
                s.append(")");
                s
            },
            PricingError::InvalidClampRange { step, min, max } => {
                let mut s = step.clone();
                s.append(": min value (");
                append_plain(&mut s, *min);
                s.append(") cannot be greater than max value (");
                append_plain(&mut s, *max);
                s.append(")");
                s
            },
            PricingError::UnsupportedConditionOperator { step, operator } => {
                let mut s = step.clone();
                s.append(": unsupported operator '");
                s.append(operator.as_str());
                s.append("'");
                s
            },
            PricingError::UnparsablePattern { pattern } => {
                let mut s = String::from_str("Pattern '");
                s.append(pattern.as_str());
                s.append("' cannot be compiled");
                s
            },
            PricingError::NumericOverflow { context } => {
                let mut s = context.clone();
                s.append(": result out of range");
                s
            },
        }
    }
}

} // verus!
