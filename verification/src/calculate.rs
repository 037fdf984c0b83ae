use crate::breakdown::{
    breakdown_views, BreakdownEntry, BreakdownView, CalculationResult, ResultView,
};
use crate::engine::PricingEngine;
use crate::error::{ErrorView, PricingError};
use crate::input::{
    calculate_input_costs, cost_views, input_costs, Input, PathCost, PathCostView,
};
use crate::node::{index_nodes_by_path, index_of, PricingNode};
use crate::pattern::{cached_after, pattern_compiles, pattern_matches};
use crate::process::{cache_after_step, step_outcome};
use crate::resolve::step_value;
use crate::strategy::{PricingStrategy, Step};
use crate::text::{lemma_texts_push, texts};
use crate::value::Value;
use std::collections::HashMap;
use vstd::prelude::*;

verus! {

broadcast use vstd::std_specs::hash::group_hash_axioms;

/// The paths of a list of inputs, in its order.
pub open spec fn input_paths(inputs: Seq<Input>) -> Seq<Seq<char>> {
    Seq::new(inputs.len(), |i: int| inputs[i].path@)
}

/// Whether at least one of the paths matches the pattern.
pub open spec fn some_path_matches(pattern: Seq<char>, paths: Seq<Seq<char>>) -> bool {
    exists|i: int| 0 <= i < paths.len() && pattern_matches(pattern, #[trigger] paths[i])
}

/// The required patterns taken one after the other: each must
/// compile, and each must match at least one of the provided paths.
pub open spec fn required_check(required: Seq<String>, paths: Seq<Seq<char>>) -> Result<
    (),
    ErrorView,
>
    decreases required.len(),
{
    if required.len() == 0 {
        Ok(())
    } else {
        match required_check(required.drop_last(), paths) {
            Err(e) => Err(e),
            Ok(()) => {
                let pattern = required.last()@;
                if !pattern_compiles(pattern) {
                    Err(ErrorView::UnparsablePattern { pattern })
                } else if !some_path_matches(pattern, paths) {
                    Err(ErrorView::MissingRequiredInput { pattern, provided: paths })
                } else {
                    Ok(())
                }
            },
        }
    }
}

/// The required patterns of a strategy; none where it names none.
pub open spec fn required_patterns(strategy: PricingStrategy) -> Seq<String> {
    match strategy.required_inputs {
        Some(list) => list@,
        None => Seq::empty(),
    }
}

/// What running a list of steps has gathered: each step's result under
/// its id, and one record for each step.
pub struct RunView {
    pub values: Map<i32, Value>,
    pub breakdown: Seq<BreakdownView>,
}

/// Runs the steps in the order of the list. Each step sees the results of
/// the steps before it; its own result is stored under its id, replacing
/// what an earlier step with the same id left there. The first step that
/// fails ends the run.
pub open spec fn run_steps(steps: Seq<Step>, table: Seq<PathCostView>) -> Result<
    RunView,
    ErrorView,
>
    decreases steps.len(),
{
    if steps.len() == 0 {
        Ok(RunView { values: Map::empty(), breakdown: Seq::empty() })
    } else {
        match run_steps(steps.drop_last(), table) {
            Err(e) => Err(e),
            Ok(run) => match step_outcome(steps.last(), run.values, table) {
                Err(e) => Err(e),
                Ok((value, entry)) => Ok(
                    RunView {
                        values: run.values.insert(steps.last().id_of(), value),
                        breakdown: run.breakdown.push(entry),
                    },
                ),
            },
        }
    }
}

/// The whole calculation. The required patterns are checked first, then
/// the inputs are given their costs, then the steps run. The final price
/// is the result of the last step, or zero where there is no step.
pub open spec fn calculation(
    nodes: Seq<PricingNode>,
    strategy: PricingStrategy,
    inputs: Seq<Input>,
) -> Result<ResultView, ErrorView> {
    match required_check(required_patterns(strategy), input_paths(inputs)) {
        Err(e) => Err(e),
        Ok(()) => match input_costs(inputs, index_of(nodes)) {
            Err(e) => Err(e),
            Ok(table) => match run_steps(strategy.steps@, table) {
                Err(e) => Err(e),
                Ok(run) => Ok(
                    ResultView {
                        final_price: if strategy.steps@.len() == 0 {
                            Value { micros: 0 }
                        } else {
                            step_value(run.values, strategy.steps@.last().id_of())
                        },
                        breakdown: run.breakdown,
                    },
                ),
            },
        },
    }
}

/// The content of what a calculation returned.
pub open spec fn content(returned: Result<CalculationResult, PricingError>) -> Result<
    ResultView,
    ErrorView,
> {
    match returned {
        Ok(result) => Ok(result@),
        Err(e) => Err(e@),
    }
}

/// What the cache holds after the required patterns were checked: every
/// pattern up to the first that failed was looked up.
pub open spec fn cache_after_required(
    before: Seq<Seq<char>>,
    required: Seq<String>,
    paths: Seq<Seq<char>>,
) -> Seq<Seq<char>>
    decreases required.len(),
{
    if required.len() == 0 {
        before
    } else {
        let earlier = cache_after_required(before, required.drop_last(), paths);
        if required_check(required.drop_last(), paths) is Err {
            earlier
        } else {
            cached_after(earlier, required.last()@)
        }
    }
}

/// What the cache holds after the steps ran, up to the first that failed.
pub open spec fn cache_after_run(
    before: Seq<Seq<char>>,
    steps: Seq<Step>,
    table: Seq<PathCostView>,
) -> Seq<Seq<char>>
    decreases steps.len(),
{
    if steps.len() == 0 {
        before
    } else {
        let earlier = cache_after_run(before, steps.drop_last(), table);
        match run_steps(steps.drop_last(), table) {
            Err(_) => earlier,
            Ok(run) => cache_after_step(earlier, steps.last(), run.values, table),
        }
    }
}

/// What the cache holds after a calculation.
pub open spec fn cache_after_calculation(
    before: Seq<Seq<char>>,
    nodes: Seq<PricingNode>,
    strategy: PricingStrategy,
    inputs: Seq<Input>,
) -> Seq<Seq<char>> {
    let checked = cache_after_required(before, required_patterns(strategy), input_paths(inputs));
    if required_check(required_patterns(strategy), input_paths(inputs)) is Err {
        checked
    } else {
        match input_costs(inputs, index_of(nodes)) {
            Err(_) => checked,
            Ok(table) => cache_after_run(checked, strategy.steps@, table),
        }
    }
}

/// Once a prefix of the required patterns has failed, the whole list
/// fails with the same error, and the cache is looked up no more.
pub proof fn lemma_required_stops(
    before: Seq<Seq<char>>,
    required: Seq<String>,
    paths: Seq<Seq<char>>,
    n: int,
)
    requires
        0 <= n <= required.len(),
    ensures
        required_check(required.take(n), paths) is Err ==> required_check(required, paths)
            == required_check(required.take(n), paths),
        required_check(required.take(n), paths) is Err ==> cache_after_required(
            before,
            required,
            paths,
        ) == cache_after_required(before, required.take(n), paths),
    decreases required.len(),
{
    if n == required.len() {
        assert(required.take(n) =~= required);
    } else {
        lemma_required_stops(before, required.drop_last(), paths, n);
        assert(required.drop_last().take(n) =~= required.take(n));
    }
}

/// Once a prefix of the steps has failed, the whole run fails with the
/// same error, and the cache is looked up no more.
pub proof fn lemma_run_stops(
    before: Seq<Seq<char>>,
    steps: Seq<Step>,
    table: Seq<PathCostView>,
    n: int,
)
    requires
        0 <= n <= steps.len(),
    ensures
        run_steps(steps.take(n), table) is Err ==> run_steps(steps, table) == run_steps(
            steps.take(n),
            table,
        ),
        run_steps(steps.take(n), table) is Err ==> cache_after_run(before, steps, table)
            == cache_after_run(before, steps.take(n), table),
    decreases steps.len(),
{
    if n == steps.len() {
        assert(steps.take(n) =~= steps);
    } else {
        lemma_run_stops(before, steps.drop_last(), table, n);
        assert(steps.drop_last().take(n) =~= steps.take(n));
    }
}

/// The paths of the inputs.
pub fn paths_of_inputs(inputs: &Vec<Input>) -> (r: Vec<String>)
    ensures
        texts(r@) == input_paths(inputs@),
{
    let mut out: Vec<String> = Vec::new();
    let mut i: usize = 0;
    assert(texts(out@) =~= input_paths(inputs@).take(0));
    while i < inputs.len()
        invariant
            0 <= i <= inputs.len(),
            texts(out@) == input_paths(inputs@).take(i as int),
        decreases inputs.len() - i,
    {
        let ghost before = out@;
        out.push(inputs[i].path.clone());
        proof {
            lemma_texts_push(before, out@.last());
            assert(texts(out@) =~= input_paths(inputs@).take(i + 1));
        }
        i = i + 1;
    }
    assert(texts(out@) =~= input_paths(inputs@));
    out
}

impl PricingEngine {
    /// Whether at least one of the paths matches the pattern.
    pub fn matches_any(&mut self, pattern: &str, paths: &Vec<String>) -> (r: Result<
        bool,
        PricingError,
    >)
        ensures
            r is Ok <==> pattern_compiles(pattern@),
            r matches Ok(found) ==> found == some_path_matches(pattern@, texts(paths@)),
            r matches Err(e) ==> e@ == (ErrorView::UnparsablePattern { pattern: pattern@ }),
            final(self).cached_patterns() == cached_after(old(self).cached_patterns(), pattern@),
    {
        let slot = match self.regex_cache.get_regex(pattern) {
            Ok(slot) => slot,
            Err(e) => {
                return Err(e);
            },
        };
        let mut i: usize = 0;
        while i < paths.len()
            invariant
                0 <= i <= paths.len(),
                slot < self.regex_cache.patterns().len(),
                self.regex_cache.patterns()[slot as int] == pattern@,
                pattern_compiles(pattern@),
                self.cached_patterns() == cached_after(old(self).cached_patterns(), pattern@),
                forall|j: int|
                    0 <= j < i ==> !pattern_matches(pattern@, #[trigger] texts(paths@)[j]),
            decreases paths.len() - i,
        {
            if let Some(true) = self.regex_cache.slot_matches(slot, paths[i].as_str()) {
                assert(pattern_matches(pattern@, texts(paths@)[i as int]));
                return Ok(true);
            }
            i = i + 1;
        }
        Ok(false)
    }

    /// Checks that every required pattern of the strategy is matched by at
    /// least one input path.
    pub fn validate_required_inputs(&mut self, strategy: &PricingStrategy, inputs: &Vec<Input>)
        -> (r: Result<(), PricingError>)
        ensures
            match r {
                Ok(()) => required_check(required_patterns(*strategy), input_paths(inputs@))
                    == Ok::<(), ErrorView>(()),
                Err(e) => required_check(required_patterns(*strategy), input_paths(inputs@))
                    == Err::<(), ErrorView>(e@),
            },
            final(self).cached_patterns() == cache_after_required(
                old(self).cached_patterns(),
                required_patterns(*strategy),
                input_paths(inputs@),
            ),
    {
        let required = match &strategy.required_inputs {
            Some(list) => list,
            None => {
                return Ok(());
            },
        };
        let paths = paths_of_inputs(inputs);
        let mut i: usize = 0;
        while i < required.len()
            invariant
                0 <= i <= required.len(),
                texts(paths@) == input_paths(inputs@),
                required_patterns(*strategy) == required@,
                required_check(required@.take(i as int), input_paths(inputs@)) == Ok::<
                    (),
                    ErrorView,
                >(()),
                self.cached_patterns() == cache_after_required(
                    old(self).cached_patterns(),
                    required@.take(i as int),
                    input_paths(inputs@),
                ),
            decreases required.len() - i,
        {
            proof {
                let upto = required@.take(i + 1);
                assert(upto.last() == required@[i as int]);
                assert(upto.drop_last() =~= required@.take(i as int));
                lemma_required_stops(
                    old(self).cached_patterns(),
                    required@,
                    input_paths(inputs@),
                    i + 1,
                );
            }
            match self.matches_any(required[i].as_str(), &paths) {
                Err(e) => {
                    return Err(e);
                },
                Ok(found) => {
                    if !found {
                        return Err(
                            PricingError::MissingRequiredInput {
                                pattern: required[i].clone(),
                                provided: paths,
                            },
                        );
                    }
                },
            }
            i = i + 1;
        }
        assert(required@.take(required.len() as int) =~= required@);
        Ok(())
    }

    /// Runs the steps in the order of the list, and gathers each step's
    /// result under its id and each step's record.
    pub fn run_strategy(&mut self, steps: &Vec<Step>, table: &Vec<PathCost>) -> (r: Result<
        (HashMap<i32, Value>, Vec<BreakdownEntry>),
        PricingError,
    >)
        ensures
            match r {
                Ok((values, breakdown)) => run_steps(steps@, cost_views(table@)) == Ok::<
                    RunView,
                    ErrorView,
                >(RunView { values: values@, breakdown: breakdown_views(breakdown@) }),
                Err(e) => run_steps(steps@, cost_views(table@)) == Err::<RunView, ErrorView>(e@),
            },
            final(self).cached_patterns() == cache_after_run(
                old(self).cached_patterns(),
                steps@,
                cost_views(table@),
            ),
    {
        let mut step_values: HashMap<i32, Value> = HashMap::new();
        let mut breakdown: Vec<BreakdownEntry> = Vec::new();
        let mut i: usize = 0;
        assert(breakdown_views(breakdown@) =~= Seq::<BreakdownView>::empty());
        while i < steps.len()
            invariant
                0 <= i <= steps.len(),
                run_steps(steps@.take(i as int), cost_views(table@)) == Ok::<RunView, ErrorView>(
                    RunView { values: step_values@, breakdown: breakdown_views(breakdown@) },
                ),
                self.cached_patterns() == cache_after_run(
                    old(self).cached_patterns(),
                    steps@.take(i as int),
                    cost_views(table@),
                ),
            decreases steps.len() - i,
        {
            let step = &steps[i];
            let ghost before = breakdown_views(breakdown@);
            proof {
                let upto = steps@.take(i + 1);
                assert(upto.last() == *step);
                assert(upto.drop_last() =~= steps@.take(i as int));
                lemma_run_stops(old(self).cached_patterns(), steps@, cost_views(table@), i + 1);
            }
            match self.process_step(step, &step_values, table) {
                Ok((value, entry)) => {
                    step_values.insert(step.id(), value);
                    breakdown.push(entry);
                    assert(breakdown_views(breakdown@) =~= before.push(entry@));
                },
                Err(e) => {
                    return Err(e);
                },
            }
            i = i + 1;
        }
        assert(steps@.take(steps.len() as int) =~= steps@);
        Ok((step_values, breakdown))
    }

    /// Works out the price that the strategy gives the inputs, over the
    /// catalog `pricing_nodes`. The outcome depends on the three arguments
    /// alone, never on what the engine has cached.
    pub fn calculate(
        &mut self,
        pricing_nodes: Vec<PricingNode>,
        pricing_strategy: PricingStrategy,
        inputs: Vec<Input>,
    ) -> (r: Result<CalculationResult, PricingError>)
        ensures
            content(r) == calculation(pricing_nodes@, pricing_strategy, inputs@),
            final(self).cached_patterns() == cache_after_calculation(
                old(self).cached_patterns(),
                pricing_nodes@,
                pricing_strategy,
                inputs@,
            ),
    {
        let index = index_nodes_by_path(&pricing_nodes);
        match self.validate_required_inputs(&pricing_strategy, &inputs) {
            Ok(()) => {},
            Err(e) => {
                return Err(e);
            },
        }
        let table = match calculate_input_costs(&inputs, &index) {
            Ok(table) => table,
            Err(e) => {
                return Err(e);
            },
        };
        let (step_values, breakdown) = match self.run_strategy(&pricing_strategy.steps, &table) {
            Ok(run) => run,
            Err(e) => {
                return Err(e);
            },
        };
        let count = pricing_strategy.steps.len();
        let final_price = if count == 0 {
            Value::zero()
        } else {
            match step_values.get(&pricing_strategy.steps[count - 1].id()) {
                Some(v) => *v,
                None => Value::zero(),
            }
        };
        Ok(CalculationResult { final_price, breakdown })
    }
}

} // verus!
