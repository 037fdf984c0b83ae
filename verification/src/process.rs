use crate::breakdown::BreakdownEntry;
use crate::engine::PricingEngine;
use crate::error::{ErrorView, PricingError};
use crate::input::{cost_views, PathCost, PathCostView};
use crate::operators::comparison;
use crate::outcome::{
    add_outcome, apply_add, apply_clamp, apply_divide, apply_if, apply_max, apply_min,
    apply_multiply, apply_percentage, apply_round, apply_subtract, clamp_outcome, compare,
    divide_outcome, if_outcome, max_outcome, min_outcome, multiply_outcome, outcome_view,
    percentage_outcome, round_outcome, subtract_outcome, Outcome,
};
use crate::resolve::{cache_after_inputs, cache_after_reference, resolved_first, resolved_inputs};
use crate::scalar::Scalar;
use crate::strategy::{display_name, step_name, Condition, Step};
use crate::value::Value;
use std::collections::HashMap;
use vstd::prelude::*;

verus! {

/// An addition step: its inputs are resolved, then added up.
pub open spec fn add_step(
    id: i32,
    name: Option<String>,
    inputs: Seq<Scalar>,
    steps: Map<i32, Value>,
    table: Seq<PathCostView>,
) -> Outcome {
    match resolved_inputs(inputs, steps, table) {
        Err(e) => Err(e),
        Ok(values) => add_outcome(id, display_name(name, id), values),
    }
}

/// A subtraction step.
pub open spec fn subtract_step(
    id: i32,
    name: Option<String>,
    inputs: Seq<Scalar>,
    steps: Map<i32, Value>,
    table: Seq<PathCostView>,
) -> Outcome {
    match resolved_inputs(inputs, steps, table) {
        Err(e) => Err(e),
        Ok(values) => subtract_outcome(id, display_name(name, id), values),
    }
}

/// A multiplication step.
pub open spec fn multiply_step(
    id: i32,
    name: Option<String>,
    inputs: Seq<Scalar>,
    steps: Map<i32, Value>,
    table: Seq<PathCostView>,
) -> Outcome {
    match resolved_inputs(inputs, steps, table) {
        Err(e) => Err(e),
        Ok(values) => multiply_outcome(id, display_name(name, id), values),
    }
}

/// A division step.
pub open spec fn divide_step(
    id: i32,
    name: Option<String>,
    inputs: Seq<Scalar>,
    steps: Map<i32, Value>,
    table: Seq<PathCostView>,
) -> Outcome {
    match resolved_inputs(inputs, steps, table) {
        Err(e) => Err(e),
        Ok(values) => divide_outcome(id, display_name(name, id), values),
    }
}

/// A minimum step.
pub open spec fn min_step(
    id: i32,
    name: Option<String>,
    inputs: Seq<Scalar>,
    steps: Map<i32, Value>,
    table: Seq<PathCostView>,
) -> Outcome {
    match resolved_inputs(inputs, steps, table) {
        Err(e) => Err(e),
        Ok(values) => min_outcome(id, display_name(name, id), values),
    }
}

/// A maximum step.
pub open spec fn max_step(
    id: i32,
    name: Option<String>,
    inputs: Seq<Scalar>,
    steps: Map<i32, Value>,
    table: Seq<PathCostView>,
) -> Outcome {
    match resolved_inputs(inputs, steps, table) {
        Err(e) => Err(e),
        Ok(values) => max_outcome(id, display_name(name, id), values),
    }
}

/// A percentage step.
pub open spec fn percentage_step(
    id: i32,
    name: Option<String>,
    inputs: Seq<Scalar>,
    percent: Option<Value>,
    steps: Map<i32, Value>,
    table: Seq<PathCostView>,
) -> Outcome {
    match resolved_inputs(inputs, steps, table) {
        Err(e) => Err(e),
        Ok(values) => percentage_outcome(id, display_name(name, id), values, percent),
    }
}

/// A rounding step.
pub open spec fn round_step(
    id: i32,
    name: Option<String>,
    inputs: Seq<Scalar>,
    decimals: Option<i32>,
    steps: Map<i32, Value>,
    table: Seq<PathCostView>,
) -> Outcome {
    match resolved_inputs(inputs, steps, table) {
        Err(e) => Err(e),
        Ok(values) => round_outcome(id, display_name(name, id), values, decimals),
    }
}

/// A clamp step: the value, the lower and the upper bound are resolved in
/// this order, each to the first value it stands for.
pub open spec fn clamp_step(
    id: i32,
    name: Option<String>,
    value: Scalar,
    min: Scalar,
    max: Scalar,
    steps: Map<i32, Value>,
    table: Seq<PathCostView>,
) -> Outcome {
    match resolved_first(value, steps, table) {
        Err(e) => Err(e),
        Ok(v) => match resolved_first(min, steps, table) {
            Err(e) => Err(e),
            Ok(low) => match resolved_first(max, steps, table) {
                Err(e) => Err(e),
                Ok(high) => clamp_outcome(id, display_name(name, id), v, low, high),
            },
        },
    }
}

/// The value of the `else` branch: what it resolves to, or zero where the
/// step has none.
pub open spec fn else_value(else_: Option<Scalar>, steps: Map<i32, Value>, table: Seq<PathCostView>)
    -> Result<Value, ErrorView> {
    match else_ {
        Some(reference) => resolved_first(reference, steps, table),
        None => Ok(Value { micros: 0 }),
    }
}

/// A conditional step: both sides of the condition are resolved and its
/// operator is checked before either branch is resolved.
pub open spec fn if_step(
    id: i32,
    name: Option<String>,
    condition: Condition,
    then_: Scalar,
    else_: Option<Scalar>,
    steps: Map<i32, Value>,
    table: Seq<PathCostView>,
) -> Outcome {
    match resolved_first(condition.left, steps, table) {
        Err(e) => Err(e),
        Ok(left) => match resolved_first(condition.right, steps, table) {
            Err(e) => Err(e),
            Ok(right) => if comparison(condition.operator@, left, right) is None {
                Err(
                    ErrorView::UnsupportedConditionOperator {
                        step: display_name(name, id),
                        operator: condition.operator@,
                    },
                )
            } else {
                match resolved_first(then_, steps, table) {
                    Err(e) => Err(e),
                    Ok(then_value) => match else_value(else_, steps, table) {
                        Err(e) => Err(e),
                        Ok(other) => if_outcome(
                            id,
                            display_name(name, id),
                            left,
                            condition.operator@,
                            right,
                            then_value,
                            other,
                        ),
                    },
                }
            },
        },
    }
}

/// What the cache holds after a clamp step.
pub open spec fn cache_after_clamp(
    before: Seq<Seq<char>>,
    value: Scalar,
    min: Scalar,
    max: Scalar,
    steps: Map<i32, Value>,
    table: Seq<PathCostView>,
) -> Seq<Seq<char>> {
    let first = cache_after_reference(before, value);
    if resolved_first(value, steps, table) is Err {
        first
    } else {
        let second = cache_after_reference(first, min);
        if resolved_first(min, steps, table) is Err {
            second
        } else {
            cache_after_reference(second, max)
        }
    }
}

/// What the cache holds after a conditional step.
pub open spec fn cache_after_if(
    before: Seq<Seq<char>>,
    condition: Condition,
    then_: Scalar,
    else_: Option<Scalar>,
    steps: Map<i32, Value>,
    table: Seq<PathCostView>,
) -> Seq<Seq<char>> {
    let first = cache_after_reference(before, condition.left);
    match resolved_first(condition.left, steps, table) {
        Err(_) => first,
        Ok(left) => {
            let second = cache_after_reference(first, condition.right);
            match resolved_first(condition.right, steps, table) {
                Err(_) => second,
                Ok(right) => if comparison(condition.operator@, left, right) is None {
                    second
                } else {
                    let third = cache_after_reference(second, then_);
                    if resolved_first(then_, steps, table) is Err {
                        third
                    } else {
                        match else_ {
                            Some(reference) => cache_after_reference(third, reference),
                            None => third,
                        }
                    }
                },
            }
        },
    }
}

/// What the cache holds after a step, whatever came of the step.
pub open spec fn cache_after_step(
    before: Seq<Seq<char>>,
    step: Step,
    steps: Map<i32, Value>,
    table: Seq<PathCostView>,
) -> Seq<Seq<char>> {
    match step {
        Step::Add { inputs, .. } => cache_after_inputs(before, inputs@, steps, table),
        Step::Subtract { inputs, .. } => cache_after_inputs(before, inputs@, steps, table),
        Step::Multiply { inputs, .. } => cache_after_inputs(before, inputs@, steps, table),
        Step::Divide { inputs, .. } => cache_after_inputs(before, inputs@, steps, table),
        Step::Min { inputs, .. } => cache_after_inputs(before, inputs@, steps, table),
        Step::Max { inputs, .. } => cache_after_inputs(before, inputs@, steps, table),
        Step::Percentage { inputs, .. } => cache_after_inputs(before, inputs@, steps, table),
        Step::Round { inputs, .. } => cache_after_inputs(before, inputs@, steps, table),
        Step::Clamp { value, min, max, .. } => cache_after_clamp(
            before,
            value,
            min,
            max,
            steps,
            table,
        ),
        Step::If { condition, then_, else_, .. } => cache_after_if(
            before,
            condition,
            then_,
            else_,
            steps,
            table,
        ),
    }
}

/// What a step comes to, given the results of the steps before it and the
/// cost table.
#[verifier::opaque]
pub open spec fn step_outcome(step: Step, steps: Map<i32, Value>, table: Seq<PathCostView>)
    -> Outcome {
    match step {
        Step::Add { id, name, inputs } => add_step(id, name, inputs@, steps, table),
        Step::Subtract { id, name, inputs } => subtract_step(id, name, inputs@, steps, table),
        Step::Multiply { id, name, inputs } => multiply_step(id, name, inputs@, steps, table),
        Step::Divide { id, name, inputs } => divide_step(id, name, inputs@, steps, table),
        Step::Min { id, name, inputs } => min_step(id, name, inputs@, steps, table),
        Step::Max { id, name, inputs } => max_step(id, name, inputs@, steps, table),
        Step::Percentage { id, name, inputs, percent } => percentage_step(
            id,
            name,
            inputs@,
            percent,
            steps,
            table,
        ),
        Step::Round { id, name, inputs, decimals } => round_step(
            id,
            name,
            inputs@,
            decimals,
            steps,
            table,
        ),
        Step::Clamp { id, name, value, min, max } => clamp_step(
            id,
            name,
            value,
            min,
            max,
            steps,
            table,
        ),
        Step::If { id, name, condition, then_, else_ } => if_step(
            id,
            name,
            condition,
            then_,
            else_,
            steps,
            table,
        ),
    }
}

impl PricingEngine {
    /// Runs an addition step.
    pub fn process_add(
        &mut self,
        id: i32,
        name: &Option<String>,
        inputs: &Vec<Scalar>,
        step_values: &HashMap<i32, Value>,
        table: &Vec<PathCost>,
    ) -> (r: Result<(Value, BreakdownEntry), PricingError>)
        ensures
            outcome_view(r) == add_step(id, *name, inputs@, step_values@, cost_views(table@)),
            final(self).cached_patterns() == cache_after_inputs(
                old(self).cached_patterns(),
                inputs@,
                step_values@,
                cost_views(table@),
            ),
    {
        let step = step_name(name, id);
        match self.resolve_inputs(inputs, step_values, table) {
            Err(e) => Err(e),
            Ok(values) => apply_add(id, step, values),
        }
    }

    /// Runs a subtraction step.
    pub fn process_subtract(
        &mut self,
        id: i32,
        name: &Option<String>,
        inputs: &Vec<Scalar>,
        step_values: &HashMap<i32, Value>,
        table: &Vec<PathCost>,
    ) -> (r: Result<(Value, BreakdownEntry), PricingError>)
        ensures
            outcome_view(r) == subtract_step(id, *name, inputs@, step_values@, cost_views(table@)),
            final(self).cached_patterns() == cache_after_inputs(
                old(self).cached_patterns(),
                inputs@,
                step_values@,
                cost_views(table@),
            ),
    {
        let step = step_name(name, id);
        match self.resolve_inputs(inputs, step_values, table) {
            Err(e) => Err(e),
            Ok(values) => apply_subtract(id, step, values),
        }
    }

    /// Runs a multiplication step.
    pub fn process_multiply(
        &mut self,
        id: i32,
        name: &Option<String>,
        inputs: &Vec<Scalar>,
        step_values: &HashMap<i32, Value>,
        table: &Vec<PathCost>,
    ) -> (r: Result<(Value, BreakdownEntry), PricingError>)
        ensures
            outcome_view(r) == multiply_step(id, *name, inputs@, step_values@, cost_views(table@)),
            final(self).cached_patterns() == cache_after_inputs(
                old(self).cached_patterns(),
                inputs@,
                step_values@,
                cost_views(table@),
            ),
    {
        let step = step_name(name, id);
        match self.resolve_inputs(inputs, step_values, table) {
            Err(e) => Err(e),
            Ok(values) => apply_multiply(id, step, values),
        }
    }

    /// Runs a division step.
    pub fn process_divide(
        &mut self,
        id: i32,
        name: &Option<String>,
        inputs: &Vec<Scalar>,
        step_values: &HashMap<i32, Value>,
        table: &Vec<PathCost>,
    ) -> (r: Result<(Value, BreakdownEntry), PricingError>)
        ensures
            outcome_view(r) == divide_step(id, *name, inputs@, step_values@, cost_views(table@)),
            final(self).cached_patterns() == cache_after_inputs(
                old(self).cached_patterns(),
                inputs@,
                step_values@,
                cost_views(table@),
            ),
    {
        let step = step_name(name, id);
        match self.resolve_inputs(inputs, step_values, table) {
            Err(e) => Err(e),
            Ok(values) => apply_divide(id, step, values),
        }
    }

    /// Runs a minimum step.
    pub fn process_min(
        &mut self,
        id: i32,
        name: &Option<String>,
        inputs: &Vec<Scalar>,
        step_values: &HashMap<i32, Value>,
        table: &Vec<PathCost>,
    ) -> (r: Result<(Value, BreakdownEntry), PricingError>)
        ensures
            outcome_view(r) == min_step(id, *name, inputs@, step_values@, cost_views(table@)),
            final(self).cached_patterns() == cache_after_inputs(
                old(self).cached_patterns(),
                inputs@,
                step_values@,
                cost_views(table@),
            ),
    {
        let step = step_name(name, id);
        match self.resolve_inputs(inputs, step_values, table) {
            Err(e) => Err(e),
            Ok(values) => apply_min(id, step, values),
        }
    }

    /// Runs a maximum step.
    pub fn process_max(
        &mut self,
        id: i32,
        name: &Option<String>,
        inputs: &Vec<Scalar>,
        step_values: &HashMap<i32, Value>,
        table: &Vec<PathCost>,
    ) -> (r: Result<(Value, BreakdownEntry), PricingError>)
        ensures
            outcome_view(r) == max_step(id, *name, inputs@, step_values@, cost_views(table@)),
            final(self).cached_patterns() == cache_after_inputs(
                old(self).cached_patterns(),
                inputs@,
                step_values@,
                cost_views(table@),
            ),
    {
        let step = step_name(name, id);
        match self.resolve_inputs(inputs, step_values, table) {
            Err(e) => Err(e),
            Ok(values) => apply_max(id, step, values),
        }
    }

    /// Runs a percentage step.
    pub fn process_percentage(
        &mut self,
        id: i32,
        name: &Option<String>,
        inputs: &Vec<Scalar>,
        percent: Option<Value>,
        step_values: &HashMap<i32, Value>,
        table: &Vec<PathCost>,
    ) -> (r: Result<(Value, BreakdownEntry), PricingError>)
        ensures
            outcome_view(r) == percentage_step(
                id,
                *name,
                inputs@,
                percent,
                step_values@,
                cost_views(table@),
            ),
            final(self).cached_patterns() == cache_after_inputs(
                old(self).cached_patterns(),
                inputs@,
                step_values@,
                cost_views(table@),
            ),
    {
        let step = step_name(name, id);
        match self.resolve_inputs(inputs, step_values, table) {
            Err(e) => Err(e),
            Ok(values) => apply_percentage(id, step, values, percent),
        }
    }

    /// Runs a rounding step.
    pub fn process_round(
        &mut self,
        id: i32,
        name: &Option<String>,
        inputs: &Vec<Scalar>,
        decimals: Option<i32>,
        step_values: &HashMap<i32, Value>,
        table: &Vec<PathCost>,
    ) -> (r: Result<(Value, BreakdownEntry), PricingError>)
        ensures
            outcome_view(r) == round_step(
                id,
                *name,
                inputs@,
                decimals,
                step_values@,
                cost_views(table@),
            ),
            final(self).cached_patterns() == cache_after_inputs(
                old(self).cached_patterns(),
                inputs@,
                step_values@,
                cost_views(table@),
            ),
    {
        let step = step_name(name, id);
        match self.resolve_inputs(inputs, step_values, table) {
            Err(e) => Err(e),
            Ok(values) => apply_round(id, step, values, decimals),
        }
    }

    /// Runs a clamp step.
    pub fn process_clamp(
        &mut self,
        id: i32,
        name: &Option<String>,
        value: &Scalar,
        min: &Scalar,
        max: &Scalar,
        step_values: &HashMap<i32, Value>,
        table: &Vec<PathCost>,
    ) -> (r: Result<(Value, BreakdownEntry), PricingError>)
        ensures
            outcome_view(r) == clamp_step(
                id,
                *name,
                *value,
                *min,
                *max,
                step_values@,
                cost_views(table@),
            ),
            final(self).cached_patterns() == cache_after_clamp(
                old(self).cached_patterns(),
                *value,
                *min,
                *max,
                step_values@,
                cost_views(table@),
            ),
    {
        let step = step_name(name, id);
        let v = match self.resolve_first(value, step_values, table) {
            Ok(v) => v,
            Err(e) => {
                return Err(e);
            },
        };
        let low = match self.resolve_first(min, step_values, table) {
            Ok(v) => v,
            Err(e) => {
                return Err(e);
            },
        };
        let high = match self.resolve_first(max, step_values, table) {
            Ok(v) => v,
            Err(e) => {
                return Err(e);
            },
        };
        apply_clamp(id, step, v, low, high)
    }

    /// Runs a conditional step.
    pub fn process_if(
        &mut self,
        id: i32,
        name: &Option<String>,
        condition: &Condition,
        then_: &Scalar,
        else_: &Option<Scalar>,
        step_values: &HashMap<i32, Value>,
        table: &Vec<PathCost>,
    ) -> (r: Result<(Value, BreakdownEntry), PricingError>)
        ensures
            outcome_view(r) == if_step(
                id,
                *name,
                *condition,
                *then_,
                *else_,
                step_values@,
                cost_views(table@),
            ),
            final(self).cached_patterns() == cache_after_if(
                old(self).cached_patterns(),
                *condition,
                *then_,
                *else_,
                step_values@,
                cost_views(table@),
            ),
    {
        let step = step_name(name, id);
        let left = match self.resolve_first(&condition.left, step_values, table) {
            Ok(v) => v,
            Err(e) => {
                return Err(e);
            },
        };
        let right = match self.resolve_first(&condition.right, step_values, table) {
            Ok(v) => v,
            Err(e) => {
                return Err(e);
            },
        };
        if compare(condition.operator.as_str(), left, right).is_none() {
            return Err(
                PricingError::UnsupportedConditionOperator {
                    step,
                    operator: condition.operator.clone(),
                },
            );
        }
        let then_value = match self.resolve_first(then_, step_values, table) {
            Ok(v) => v,
            Err(e) => {
                return Err(e);
            },
        };
        let other = match else_ {
            Some(reference) => match self.resolve_first(reference, step_values, table) {
                Ok(v) => v,
                Err(e) => {
                    return Err(e);
                },
            },
            None => Value::zero(),
        };
        apply_if(id, step, left, condition.operator.as_str(), right, then_value, other)
    }

    /// Runs one step, whatever its operator.
    pub fn process_step(
        &mut self,
        step: &Step,
        step_values: &HashMap<i32, Value>,
        table: &Vec<PathCost>,
    ) -> (r: Result<(Value, BreakdownEntry), PricingError>)
        ensures
            outcome_view(r) == step_outcome(*step, step_values@, cost_views(table@)),
            final(self).cached_patterns() == cache_after_step(
                old(self).cached_patterns(),
                *step,
                step_values@,
                cost_views(table@),
            ),
    {
        reveal(step_outcome);
        match step {
            Step::Add { id, name, inputs } => self.process_add(
                *id,
                name,
                inputs,
                step_values,
                table,
            ),
            Step::Subtract { id, name, inputs } => self.process_subtract(
                *id,
                name,
                inputs,
                step_values,
                table,
            ),
            Step::Multiply { id, name, inputs } => self.process_multiply(
                *id,
                name,
                inputs,
                step_values,
                table,
            ),
            Step::Divide { id, name, inputs } => self.process_divide(
                *id,
                name,
                inputs,
                step_values,
                table,
            ),
            Step::Min { id, name, inputs } => self.process_min(
                *id,
                name,
                inputs,
                step_values,
                table,
            ),
            Step::Max { id, name, inputs } => self.process_max(
                *id,
                name,
                inputs,
                step_values,
                table,
            ),
            Step::Percentage { id, name, inputs, percent } => self.process_percentage(
                *id,
                name,
                inputs,
                *percent,
                step_values,
                table,
            ),
            Step::Round { id, name, inputs, decimals } => self.process_round(
                *id,
                name,
                inputs,
                *decimals,
                step_values,
                table,
            ),
            Step::Clamp { id, name, value, min, max } => self.process_clamp(
                *id,
                name,
                value,
                min,
                max,
                step_values,
                table,
            ),
            Step::If { id, name, condition, then_, else_ } => self.process_if(
                *id,
                name,
                condition,
                then_,
                else_,
                step_values,
                table,
            ),
        }
    }
}

} // verus!
