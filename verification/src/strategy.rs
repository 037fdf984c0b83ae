use crate::scalar::Scalar;
use crate::text::{append_int, int_text};
use crate::value::Value;
use vstd::prelude::*;
use vstd::string::StringExecFns;

verus! {

/// The comparison that decides a conditional step.
#[derive(Clone, Debug, PartialEq, Eq)]
pub struct Condition {
    pub left: Scalar,
    /// One of `>`, `<`, `>=`, `<=`, `==`, `!=`.
    pub operator: String,
    pub right: Scalar,
}

/// One step of a strategy. Every step has an id, by which later steps
/// refer to its result, and may have a name.
#[derive(Clone, Debug, PartialEq, Eq)]
pub enum Step {
    Add { id: i32, name: Option<String>, inputs: Vec<Scalar> },
    Subtract { id: i32, name: Option<String>, inputs: Vec<Scalar> },
    Multiply { id: i32, name: Option<String>, inputs: Vec<Scalar> },
    Divide { id: i32, name: Option<String>, inputs: Vec<Scalar> },
    Min { id: i32, name: Option<String>, inputs: Vec<Scalar> },
    Max { id: i32, name: Option<String>, inputs: Vec<Scalar> },
    Percentage { id: i32, name: Option<String>, inputs: Vec<Scalar>, percent: Option<Value> },
    Round { id: i32, name: Option<String>, inputs: Vec<Scalar>, decimals: Option<i32> },
    Clamp { id: i32, name: Option<String>, value: Scalar, min: Scalar, max: Scalar },
    If {
        id: i32,
        name: Option<String>,
        condition: Condition,
        then_: Scalar,
        else_: Option<Scalar>,
    },
}

/// A named, ordered list of steps, with the input patterns that must be
/// present before any step runs.
#[derive(Clone, Debug, PartialEq, Eq)]
pub struct PricingStrategy {
    pub version: i32,
    pub required_inputs: Option<Vec<String>>,
    pub steps: Vec<Step>,
}

/// The name a step goes by: its own, or `Step ` and its id.
pub open spec fn display_name(name: Option<String>, id: i32) -> Seq<char> {
    match name {
        Some(given) => given@,
        None => "Step "@ + int_text(id as int),
    }
}

/// Writes out the name a step goes by.
pub fn step_name(name: &Option<String>, id: i32) -> (r: String)
    ensures
        r@ == display_name(*name, id),
{
    match name {
        Some(given) => given.clone(),
        None => {
            let mut s = String::from_str("Step ");
            append_int(&mut s, id as i64);
            s
        },
    }
}

impl Step {
    pub open spec fn id_of(&self) -> i32 {
        match *self {
            Step::Add { id, .. } => id,
            Step::Subtract { id, .. } => id,
            Step::Multiply { id, .. } => id,
            Step::Divide { id, .. } => id,
            Step::Min { id, .. } => id,
            Step::Max { id, .. } => id,
            Step::Percentage { id, .. } => id,
            Step::Round { id, .. } => id,
            Step::Clamp { id, .. } => id,
            Step::If { id, .. } => id,
        }
    }

    pub open spec fn name_of(&self) -> Seq<char> {
        match *self {
            Step::Add { id, name, .. } => display_name(name, id),
            Step::Subtract { id, name, .. } => display_name(name, id),
            Step::Multiply { id, name, .. } => display_name(name, id),
            Step::Divide { id, name, .. } => display_name(name, id),
            Step::Min { id, name, .. } => display_name(name, id),
            Step::Max { id, name, .. } => display_name(name, id),
            Step::Percentage { id, name, .. } => display_name(name, id),
            Step::Round { id, name, .. } => display_name(name, id),
            Step::Clamp { id, name, .. } => display_name(name, id),
            Step::If { id, name, .. } => display_name(name, id),
        }
    }

    /// The id under which the step's result is stored.
    pub fn id(&self) -> (r: i32)
        ensures
            r == self.id_of(),
    {
        match self {
            Step::Add { id, .. } => *id,
            Step::Subtract { id, .. } => *id,
            Step::Multiply { id, .. } => *id,
            Step::Divide { id, .. } => *id,
            Step::Min { id, .. } => *id,
            Step::Max { id, .. } => *id,
            Step::Percentage { id, .. } => *id,
            Step::Round { id, .. } => *id,
            Step::Clamp { id, .. } => *id,
            Step::If { id, .. } => *id,
        }
    }

    /// The name the step goes by: its own, or `Step ` and its id.
    pub fn name(&self) -> (r: String)
        ensures
            r@ == self.name_of(),
    {
        match self {
            Step::Add { id, name, .. } => step_name(name, *id),
            Step::Subtract { id, name, .. } => step_name(name, *id),
            Step::Multiply { id, name, .. } => step_name(name, *id),
            Step::Divide { id, name, .. } => step_name(name, *id),
            Step::Min { id, name, .. } => step_name(name, *id),
            Step::Max { id, name, .. } => step_name(name, *id),
            Step::Percentage { id, name, .. } => step_name(name, *id),
            Step::Round { id, name, .. } => step_name(name, *id),
            Step::Clamp { id, name, .. } => step_name(name, *id),
            Step::If { id, name, .. } => step_name(name, *id),
        }
    }
}

} // verus!
