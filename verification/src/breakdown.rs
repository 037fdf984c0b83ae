use crate::value::Value;
use vstd::prelude::*;

verus! {

/// The audit record of one step: what went in, what was done, what came
/// out. It is for display only; no later step reads it.
#[derive(Clone, Debug, PartialEq, Eq)]
pub struct BreakdownEntry {
    pub step_id: i32,
    pub name: String,
    pub operation: String,
    pub description: String,
    pub inputs: Vec<Value>,
    pub calculation: String,
    pub result: Value,
}

/// The content of a `BreakdownEntry`.
pub struct BreakdownView {
    pub step_id: i32,
    pub name: Seq<char>,
    pub operation: Seq<char>,
    pub description: Seq<char>,
    pub inputs: Seq<Value>,
    pub calculation: Seq<char>,
    pub result: Value,
}

impl View for BreakdownEntry {
    type V = BreakdownView;

    open spec fn view(&self) -> BreakdownView {
        BreakdownView {
            step_id: self.step_id,
            name: self.name@,
            operation: self.operation@,
            description: self.description@,
            inputs: self.inputs@,
            calculation: self.calculation@,
            result: self.result,
        }
    }
}

/// The outcome of a calculation: the value of the last step, and one
/// record for each step, in step order.
#[derive(Clone, Debug, PartialEq, Eq)]
pub struct CalculationResult {
    pub final_price: Value,
    pub breakdown: Vec<BreakdownEntry>,
}

/// The content of a `CalculationResult`.
pub struct ResultView {
    pub final_price: Value,
    pub breakdown: Seq<BreakdownView>,
}

/// The content of a list of records, entry by entry.
pub open spec fn breakdown_views(entries: Seq<BreakdownEntry>) -> Seq<BreakdownView> {
    Seq::new(entries.len(), |i: int| entries[i]@)
}

impl View for CalculationResult {
    type V = ResultView;

    open spec fn view(&self) -> ResultView {
        ResultView { final_price: self.final_price, breakdown: breakdown_views(self.breakdown@) }
    }
}

} // verus!
