use crate::breakdown::{BreakdownView, CalculationResult, ResultView};
use crate::calculate::{
    cache_after_calculation, cache_after_required, cache_after_run, calculation, content,
    input_paths, lemma_required_stops, required_check, required_patterns, run_steps,
    some_path_matches,
};
use crate::error::{ErrorView, Operation, PricingError};
use crate::input::{
    cost_at, input_cost, input_costs, lemma_costs_stop, table_paths, Input, PathCostView,
};
use crate::node::{
    index_of, is_label, label_cost, numeric_cost, IndexView, NodeKind, PricingNode,
};
use crate::operators::{clamped, comparison, lemma_quotient_stops, quotient_of};
use crate::outcome::{
    add_outcome, arity_error, clamp_outcome, divide_outcome, if_outcome, max_outcome, min_outcome,
    multiply_outcome, subtract_outcome,
};
use crate::pattern::{cached_after, pattern_compiles};
use crate::process::{cache_after_clamp, cache_after_if, cache_after_step};
use crate::resolve::{
    cache_after_inputs, cache_after_reference, resolved_first, resolved_inputs,
};
use crate::scalar::Scalar;
use crate::strategy::{PricingStrategy, Step};
use crate::value::{in_range, product, Value, SCALE};
use vstd::prelude::*;

verus! {

/// A calculation is determined by its catalog, its strategy and its
/// inputs: whatever two calls on the same three return, the final price,
/// the breakdown, or the error, are the same. Wildcard matches come in the
/// order of the inputs, so the breakdown is the same too.
pub proof fn law_calculation_is_determined(
    nodes: Seq<PricingNode>,
    strategy: PricingStrategy,
    inputs: Seq<Input>,
    first: Result<CalculationResult, PricingError>,
    second: Result<CalculationResult, PricingError>,
)
    requires
        content(first) == calculation(nodes, strategy, inputs),
        content(second) == calculation(nodes, strategy, inputs),
    ensures
        content(first) == content(second),
{
}

/// A required pattern that no provided path matches fails the
/// calculation, whatever the catalog and the steps are: the steps are
/// never reached.
pub proof fn law_missing_required_input_fails(
    nodes: Seq<PricingNode>,
    strategy: PricingStrategy,
    inputs: Seq<Input>,
    k: int,
)
    requires
        0 <= k < required_patterns(strategy).len(),
        !some_path_matches(required_patterns(strategy)[k]@, input_paths(inputs)),
    ensures
        calculation(nodes, strategy, inputs) is Err,
        calculation(nodes, strategy, inputs)->Err_0 == required_check(
            required_patterns(strategy),
            input_paths(inputs),
        )->Err_0,
{
    let required = required_patterns(strategy);
    let paths = input_paths(inputs);
    assert(required.take(k + 1).drop_last() =~= required.take(k));
    assert(required.take(k + 1).last() == required[k]);
    lemma_required_stops(Seq::empty(), required, paths, k + 1);
}

/// Where every required pattern before the `k`-th compiles and is
/// matched, and the `k`-th compiles and is matched by no provided path,
/// the calculation fails with `MissingRequiredInput` for that pattern.
pub proof fn law_required_input_gate(
    nodes: Seq<PricingNode>,
    strategy: PricingStrategy,
    inputs: Seq<Input>,
    k: int,
)
    requires
        0 <= k < required_patterns(strategy).len(),
        forall|j: int|
            0 <= j < k ==> pattern_compiles(#[trigger] required_patterns(strategy)[j]@)
                && some_path_matches(required_patterns(strategy)[j]@, input_paths(inputs)),
        pattern_compiles(required_patterns(strategy)[k]@),
        !some_path_matches(required_patterns(strategy)[k]@, input_paths(inputs)),
    ensures
        calculation(nodes, strategy, inputs) == Err::<ResultView, ErrorView>(
            ErrorView::MissingRequiredInput {
                pattern: required_patterns(strategy)[k]@,
                provided: input_paths(inputs),
            },
        ),
{
    let required = required_patterns(strategy);
    let paths = input_paths(inputs);
    lemma_required_prefix_passes(required, paths, k);
    assert(required.take(k + 1).drop_last() =~= required.take(k));
    assert(required.take(k + 1).last() == required[k]);
    lemma_required_stops(Seq::empty(), required, paths, k + 1);
}

proof fn lemma_required_prefix_passes(required: Seq<String>, paths: Seq<Seq<char>>, k: int)
    requires
        0 <= k <= required.len(),
        forall|j: int|
            0 <= j < k ==> pattern_compiles(#[trigger] required[j]@) && some_path_matches(
                required[j]@,
                paths,
            ),
    ensures
        required_check(required.take(k), paths) == Ok::<(), ErrorView>(()),
    decreases k,
{
    if k > 0 {
        lemma_required_prefix_passes(required, paths, k - 1);
        assert(required.take(k).drop_last() =~= required.take(k - 1));
        assert(required.take(k).last() == required[k - 1]);
    }
}

/// An input whose value has a label node contributes that node's flat
/// cost, whether or not the path also has a numeric node and the value is
/// a number.
pub proof fn law_label_input_cost(input: Input, index: IndexView, cost: Value)
    requires
        label_cost(index.labels, input.path@, input.value.text()) == Some(cost),
    ensures
        input_cost(input, index) == Ok::<Value, ErrorView>(cost),
{
}

/// A numeric input at a path with a numeric node, and no label node for
/// its value, contributes the node's cost times the input.
pub proof fn law_numeric_input_cost(
    input: Input,
    index: IndexView,
    quantity: Value,
    unit_cost: Value,
)
    requires
        input.value == Scalar::Number(quantity),
        label_cost(index.labels, input.path@, input.value.text()) is None,
        numeric_cost(index.numerics, input.path@) == Some(unit_cost),
        in_range(product(quantity@, unit_cost@)),
    ensures
        input_cost(input, index) is Ok,
        input_cost(input, index)->Ok_0@ == product(quantity@, unit_cost@),
{
}

/// The product of two amounts is the exact product rounded to the nearest
/// micro-unit: it is off by half a micro-unit at most, and is exact where
/// the exact product is a whole number of micro-units.
pub proof fn law_product_is_nearest(a: int, b: int)
    ensures
        -SCALE <= 2 * (product(a, b) * SCALE - a * b) <= SCALE,
        (a * b) % (SCALE as int) == 0 ==> product(a, b) * SCALE == a * b,
{
    let n = a * b;
    let d = SCALE as int;
    if n >= 0 {
        vstd::arithmetic::div_mod::lemma_fundamental_div_mod(n, d);
        vstd::arithmetic::div_mod::lemma_mod_bound(n, d);
        assert(d * (n / d) == (n / d) * d) by (nonlinear_arith);
        assert((n / d + 1) * d == (n / d) * d + d) by (nonlinear_arith);
    } else {
        vstd::arithmetic::div_mod::lemma_fundamental_div_mod(-n, d);
        vstd::arithmetic::div_mod::lemma_mod_bound(-n, d);
        assert(d * ((-n) / d) == ((-n) / d) * d) by (nonlinear_arith);
        assert(((-n) / d + 1) * d == ((-n) / d) * d + d) by (nonlinear_arith);
        assert((-((-n) / d)) * d == -(((-n) / d) * d)) by (nonlinear_arith);
        assert((-((-n) / d + 1)) * d == -(((-n) / d + 1) * d)) by (nonlinear_arith);
        if (a * b) % d == 0 {
            vstd::arithmetic::div_mod::lemma_fundamental_div_mod(n, d);
            assert((-n) % d == 0) by {
                vstd::arithmetic::div_mod::lemma_mod_multiples_basic(-(n / d), d);
                assert(-n == (-(n / d)) * d) by (nonlinear_arith)
                    requires
                        n == d * (n / d) + n % d,
                        n % d == 0,
                ;
            }
        }
    }
}

/// A numeric node that no later numeric node shadows is the one the index
/// finds at its path.
pub proof fn law_index_finds_numeric_node(nodes: Seq<PricingNode>, i: int)
    requires
        0 <= i < nodes.len(),
        nodes[i].kind == NodeKind::Numeric,
        forall|j: int|
            i < j < nodes.len() && nodes[j].kind == NodeKind::Numeric ==> nodes[j].path@
                != nodes[i].path@,
    ensures
        numeric_cost(index_of(nodes).numerics, nodes[i].path@) == Some(nodes[i].cost),
    decreases nodes.len(),
{
    if i < nodes.len() - 1 {
        law_index_finds_numeric_node(nodes.drop_last(), i);
        let last = nodes.last();
        if last.kind == NodeKind::Numeric {
            assert(index_of(nodes).numerics.drop_last() =~= index_of(nodes.drop_last()).numerics);
        }
    } else {
        assert(index_of(nodes).numerics.last().path == nodes[i].path@);
    }
}

/// A label node that no later label node with the same path and value
/// shadows is the one the index finds for that path and value.
pub proof fn law_index_finds_label_node(nodes: Seq<PricingNode>, i: int)
    requires
        0 <= i < nodes.len(),
        is_label(nodes[i]),
        forall|j: int|
            i < j < nodes.len() && is_label(nodes[j]) ==> !(nodes[j].path@ == nodes[i].path@
                && nodes[j].value->Some_0.text() == nodes[i].value->Some_0.text()),
    ensures
        label_cost(index_of(nodes).labels, nodes[i].path@, nodes[i].value->Some_0.text()) == Some(
            nodes[i].cost,
        ),
    decreases nodes.len(),
{
    if i < nodes.len() - 1 {
        law_index_finds_label_node(nodes.drop_last(), i);
        let last = nodes.last();
        if is_label(last) {
            assert(index_of(nodes).labels.drop_last() =~= index_of(nodes.drop_last()).labels);
        }
    } else {
        assert(index_of(nodes).labels.last().path == nodes[i].path@);
    }
}

/// Two inputs that share a path fail the cost table.
pub proof fn law_duplicate_path_fails(inputs: Seq<Input>, index: IndexView, i: int, j: int)
    requires
        0 <= i < j < inputs.len(),
        inputs[i].path@ == inputs[j].path@,
    ensures
        input_costs(inputs, index) is Err,
        input_costs(inputs.take(j), index) is Ok ==> input_costs(inputs, index) == Err::<
            Seq<PathCostView>,
            ErrorView,
        >(ErrorView::DuplicateInputPath { path: inputs[j].path@ }),
{
    let upto = inputs.take(j + 1);
    assert(upto.drop_last() =~= inputs.take(j));
    assert(upto.last() == inputs[j]);
    lemma_costs_stop(inputs, index, j);
    lemma_costs_stop(inputs, index, j + 1);
    if input_costs(inputs.take(j), index) is Ok {
        lemma_table_holds_inputs(inputs.take(j), index, i);
    }
}

/// A cost table that was built holds the path of every input.
proof fn lemma_table_holds_inputs(inputs: Seq<Input>, index: IndexView, i: int)
    requires
        0 <= i < inputs.len(),
        input_costs(inputs, index) is Ok,
    ensures
        cost_at(input_costs(inputs, index)->Ok_0, inputs[i].path@) is Some,
    decreases inputs.len(),
{
    let table = input_costs(inputs.drop_last(), index)->Ok_0;
    let whole = input_costs(inputs, index)->Ok_0;
    assert(whole.drop_last() =~= table);
    if i < inputs.len() - 1 {
        lemma_table_holds_inputs(inputs.drop_last(), index, i);
    }
}

/// A cost table that was built has one entry for each input, in the order
/// of the inputs: the entry holds the input's path and what the input
/// contributes. No path occurs in it twice.
pub proof fn law_cost_table_follows_inputs(inputs: Seq<Input>, index: IndexView)
    requires
        input_costs(inputs, index) is Ok,
    ensures
        input_costs(inputs, index)->Ok_0.len() == inputs.len(),
        forall|i: int|
            0 <= i < inputs.len() ==> (#[trigger] input_costs(inputs, index)->Ok_0[i]).path
                == inputs[i].path@ && input_cost(inputs[i], index) == Ok::<Value, ErrorView>(
                input_costs(inputs, index)->Ok_0[i].cost,
            ),
        table_paths(input_costs(inputs, index)->Ok_0).no_duplicates(),
    decreases inputs.len(),
{
    if inputs.len() > 0 {
        let earlier = input_costs(inputs.drop_last(), index)->Ok_0;
        let table = input_costs(inputs, index)->Ok_0;
        law_cost_table_follows_inputs(inputs.drop_last(), index);
        assert(table.drop_last() =~= earlier);
        lemma_absent_path(earlier, inputs.last().path@);
        assert forall|i: int, j: int|
            0 <= i < table.len() && 0 <= j < table.len() && i != j implies table_paths(table)[i]
            != table_paths(table)[j] by {
            if i < earlier.len() {
                assert(table_paths(earlier)[i] == table[i].path);
            }
            if j < earlier.len() {
                assert(table_paths(earlier)[j] == table[j].path);
            }
        }
    }
}

/// A path for which a table holds no cost is none of the table's paths.
proof fn lemma_absent_path(table: Seq<PathCostView>, path: Seq<char>)
    requires
        cost_at(table, path) is None,
    ensures
        forall|i: int| 0 <= i < table.len() ==> (#[trigger] table[i]).path != path,
    decreases table.len(),
{
    if table.len() > 0 {
        lemma_absent_path(table.drop_last(), path);
        assert forall|i: int| 0 <= i < table.len() implies (#[trigger] table[i]).path != path by {
            if i < table.len() - 1 {
                assert(table.drop_last()[i] == table[i]);
            }
        }
    }
}

/// Addition, subtraction, multiplication, minimum and maximum refuse an
/// empty list of operands.
pub proof fn law_no_operands_is_an_error(id: i32, name: Seq<char>)
    ensures
        add_outcome(id, name, Seq::empty()) == arity_error(name, Operation::Add, 0),
        subtract_outcome(id, name, Seq::empty()) == arity_error(name, Operation::Subtract, 0),
        multiply_outcome(id, name, Seq::empty()) == arity_error(name, Operation::Multiply, 0),
        min_outcome(id, name, Seq::empty()) == arity_error(name, Operation::Min, 0),
        max_outcome(id, name, Seq::empty()) == arity_error(name, Operation::Max, 0),
{
}

/// Division refuses fewer than two operands.
pub proof fn law_division_needs_two_operands(id: i32, name: Seq<char>, values: Seq<Value>)
    requires
        values.len() < 2,
    ensures
        divide_outcome(id, name, values) == arity_error(name, Operation::Divide, values.len()),
{
}

/// A division with a zero divisor fails; it fails with `DivisionByZero`
/// where the divisions before that divisor stayed in range.
pub proof fn law_zero_divisor_fails(id: i32, name: Seq<char>, values: Seq<Value>, k: int)
    requires
        1 <= k < values.len(),
        values[k]@ == 0,
    ensures
        divide_outcome(id, name, values) is Err,
        quotient_of(values.take(k)) is Ok ==> divide_outcome(id, name, values) == Err::<
            (Value, BreakdownView),
            ErrorView,
        >(ErrorView::DivisionByZero { step: name }),
{
    let upto = values.take(k + 1);
    assert(upto.drop_last() =~= values.take(k));
    assert(upto.last() == values[k]);
    lemma_quotient_stops(values, k + 1);
    lemma_quotient_stops(values, k);
}

/// A clamp with `min <= max` gives a result between the two, and leaves a
/// value that lies between them as it is.
pub proof fn law_clamp_stays_in_range(
    id: i32,
    name: Seq<char>,
    value: Value,
    min: Value,
    max: Value,
)
    requires
        min@ <= max@,
    ensures
        clamp_outcome(id, name, value, min, max) is Ok,
        min@ <= clamp_outcome(id, name, value, min, max)->Ok_0.0@ <= max@,
        min@ <= value@ <= max@ ==> clamp_outcome(id, name, value, min, max)->Ok_0.0 == value,
        clamp_outcome(id, name, value, min, max)->Ok_0.0 == clamped(value, min, max),
{
}

/// A conditional gives its `then` value where the comparison holds and
/// its `else` value where it does not; where the two differ, the result
/// is the `then` value exactly when the comparison holds.
pub proof fn law_if_follows_comparison(
    id: i32,
    name: Seq<char>,
    left: Value,
    operator: Seq<char>,
    right: Value,
    then_value: Value,
    else_value: Value,
)
    requires
        comparison(operator, left, right) is Some,
    ensures
        if_outcome(id, name, left, operator, right, then_value, else_value) is Ok,
        comparison(operator, left, right) == Some(true) ==> if_outcome(
            id,
            name,
            left,
            operator,
            right,
            then_value,
            else_value,
        )->Ok_0.0 == then_value,
        comparison(operator, left, right) == Some(false) ==> if_outcome(
            id,
            name,
            left,
            operator,
            right,
            then_value,
            else_value,
        )->Ok_0.0 == else_value,
        then_value != else_value ==> (if_outcome(
            id,
            name,
            left,
            operator,
            right,
            then_value,
            else_value,
        )->Ok_0.0 == then_value <==> comparison(operator, left, right) == Some(true)),
{
}

/// Asking a cache for the same pattern a second time changes nothing: the
/// matcher is there already. A cache never loses a pattern, and it holds
/// every pattern that it was asked for and that compiles.
pub proof fn law_cache_is_idempotent(before: Seq<Seq<char>>, pattern: Seq<char>)
    ensures
        cached_after(cached_after(before, pattern), pattern) == cached_after(before, pattern),
        before.is_prefix_of(cached_after(before, pattern)),
        pattern_compiles(pattern) ==> cached_after(before, pattern).contains(pattern),
{
    if !before.contains(pattern) && pattern_compiles(pattern) {
        assert(before.push(pattern).last() == pattern);
    }
}

/// Whether a cache that held `before` and now holds `after` has only
/// grown: it kept what it had, in the same order, and it took no pattern
/// in twice.
pub open spec fn grown(before: Seq<Seq<char>>, after: Seq<Seq<char>>) -> bool {
    &&& before.is_prefix_of(after)
    &&& before.no_duplicates() ==> after.no_duplicates()
}

proof fn lemma_grown_by_one(before: Seq<Seq<char>>, pattern: Seq<char>)
    ensures
        grown(before, cached_after(before, pattern)),
{
}

proof fn lemma_grown_chain(a: Seq<Seq<char>>, b: Seq<Seq<char>>, c: Seq<Seq<char>>)
    requires
        grown(a, b),
        grown(b, c),
    ensures
        grown(a, c),
{
}

proof fn lemma_grown_by_reference(before: Seq<Seq<char>>, reference: Scalar)
    ensures
        grown(before, cache_after_reference(before, reference)),
{
    match reference {
        Scalar::Text(s) => {
            lemma_grown_by_one(before, s@);
        },
        _ => {},
    }
}

proof fn lemma_grown_by_inputs(
    before: Seq<Seq<char>>,
    references: Seq<Scalar>,
    steps: Map<i32, Value>,
    table: Seq<PathCostView>,
)
    ensures
        grown(before, cache_after_inputs(before, references, steps, table)),
    decreases references.len(),
{
    if references.len() > 0 {
        let earlier = cache_after_inputs(before, references.drop_last(), steps, table);
        lemma_grown_by_inputs(before, references.drop_last(), steps, table);
        lemma_grown_by_reference(earlier, references.last());
        lemma_grown_chain(before, earlier, cache_after_reference(earlier, references.last()));
    }
}

proof fn lemma_grown_by_step(
    before: Seq<Seq<char>>,
    step: Step,
    steps: Map<i32, Value>,
    table: Seq<PathCostView>,
)
    ensures
        grown(before, cache_after_step(before, step, steps, table)),
{
    match step {
        Step::Add { inputs, .. } => lemma_grown_by_inputs(before, inputs@, steps, table),
        Step::Subtract { inputs, .. } => lemma_grown_by_inputs(before, inputs@, steps, table),
        Step::Multiply { inputs, .. } => lemma_grown_by_inputs(before, inputs@, steps, table),
        Step::Divide { inputs, .. } => lemma_grown_by_inputs(before, inputs@, steps, table),
        Step::Min { inputs, .. } => lemma_grown_by_inputs(before, inputs@, steps, table),
        Step::Max { inputs, .. } => lemma_grown_by_inputs(before, inputs@, steps, table),
        Step::Percentage { inputs, .. } => lemma_grown_by_inputs(before, inputs@, steps, table),
        Step::Round { inputs, .. } => lemma_grown_by_inputs(before, inputs@, steps, table),
        Step::Clamp { value, min, max, .. } => {
            let first = cache_after_reference(before, value);
            let second = cache_after_reference(first, min);
            let third = cache_after_reference(second, max);
            lemma_grown_by_reference(before, value);
            lemma_grown_by_reference(first, min);
            lemma_grown_by_reference(second, max);
            lemma_grown_chain(before, first, second);
            lemma_grown_chain(before, second, third);
        },
        Step::If { condition, then_, else_, .. } => {
            let first = cache_after_reference(before, condition.left);
            let second = cache_after_reference(first, condition.right);
            let third = cache_after_reference(second, then_);
            lemma_grown_by_reference(before, condition.left);
            lemma_grown_by_reference(first, condition.right);
            lemma_grown_by_reference(second, then_);
            lemma_grown_chain(before, first, second);
            lemma_grown_chain(before, second, third);
            match else_ {
                Some(reference) => {
                    lemma_grown_by_reference(third, reference);
                    lemma_grown_chain(before, third, cache_after_reference(third, reference));
                },
                None => {},
            }
        },
    }
}

proof fn lemma_grown_by_run(before: Seq<Seq<char>>, steps: Seq<Step>, table: Seq<PathCostView>)
    ensures
        grown(before, cache_after_run(before, steps, table)),
    decreases steps.len(),
{
    if steps.len() > 0 {
        let earlier = cache_after_run(before, steps.drop_last(), table);
        lemma_grown_by_run(before, steps.drop_last(), table);
        match run_steps(steps.drop_last(), table) {
            Err(_) => {},
            Ok(run) => {
                lemma_grown_by_step(earlier, steps.last(), run.values, table);
                lemma_grown_chain(
                    before,
                    earlier,
                    cache_after_step(earlier, steps.last(), run.values, table),
                );
            },
        }
    }
}

proof fn lemma_grown_by_required(
    before: Seq<Seq<char>>,
    required: Seq<String>,
    paths: Seq<Seq<char>>,
)
    ensures
        grown(before, cache_after_required(before, required, paths)),
    decreases required.len(),
{
    if required.len() > 0 {
        let earlier = cache_after_required(before, required.drop_last(), paths);
        lemma_grown_by_required(before, required.drop_last(), paths);
        lemma_grown_by_one(earlier, required.last()@);
        lemma_grown_chain(before, earlier, cached_after(earlier, required.last()@));
    }
}

/// The cache of an engine only grows. Whatever a calculation comes to,
/// the engine afterwards holds every matcher it held before, in the same
/// order, and none twice: no pattern is compiled a second time.
pub proof fn law_cache_only_grows(
    before: Seq<Seq<char>>,
    nodes: Seq<PricingNode>,
    strategy: PricingStrategy,
    inputs: Seq<Input>,
)
    ensures
        grown(before, cache_after_calculation(before, nodes, strategy, inputs)),
{
    let checked = cache_after_required(before, required_patterns(strategy), input_paths(inputs));
    lemma_grown_by_required(before, required_patterns(strategy), input_paths(inputs));
    match input_costs(inputs, index_of(nodes)) {
        Err(_) => {},
        Ok(table) => {
            lemma_grown_by_run(checked, strategy.steps@, table);
            lemma_grown_chain(before, checked, cache_after_run(checked, strategy.steps@, table));
        },
    }
}

/// A cache that has grown from the one a pattern was looked up in holds
/// the pattern, if it compiles: looking it up again changes nothing.
proof fn lemma_settled_one(before: Seq<Seq<char>>, pattern: Seq<char>, later: Seq<Seq<char>>)
    requires
        cached_after(before, pattern).is_prefix_of(later),
    ensures
        cached_after(later, pattern) == later,
{
    let mid = cached_after(before, pattern);
    if pattern_compiles(pattern) {
        if !before.contains(pattern) {
            assert(before.push(pattern).last() == pattern);
        }
        assert(mid.contains(pattern));
        let i = choose|i: int| 0 <= i < mid.len() && mid[i] == pattern;
        assert(later.subrange(0, mid.len() as int)[i] == later[i]);
        assert(later[i] == pattern);
    }
}

proof fn lemma_prefix_chain(a: Seq<Seq<char>>, b: Seq<Seq<char>>, c: Seq<Seq<char>>)
    requires
        a.is_prefix_of(b),
        b.is_prefix_of(c),
    ensures
        a.is_prefix_of(c),
{
}

proof fn lemma_settled_reference(before: Seq<Seq<char>>, reference: Scalar, later: Seq<Seq<char>>)
    requires
        cache_after_reference(before, reference).is_prefix_of(later),
    ensures
        cache_after_reference(later, reference) == later,
{
    match reference {
        Scalar::Text(s) => {
            if cache_after_reference(before, reference) == cached_after(before, s@) {
                lemma_settled_one(before, s@, later);
            }
        },
        _ => {},
    }
}

proof fn lemma_settled_inputs(
    before: Seq<Seq<char>>,
    references: Seq<Scalar>,
    steps: Map<i32, Value>,
    table: Seq<PathCostView>,
    later: Seq<Seq<char>>,
)
    requires
        cache_after_inputs(before, references, steps, table).is_prefix_of(later),
    ensures
        cache_after_inputs(later, references, steps, table) == later,
    decreases references.len(),
{
    if references.len() > 0 {
        let earlier = cache_after_inputs(before, references.drop_last(), steps, table);
        lemma_grown_by_reference(earlier, references.last());
        lemma_prefix_chain(earlier, cache_after_inputs(before, references, steps, table), later);
        lemma_settled_inputs(before, references.drop_last(), steps, table, later);
        if resolved_inputs(references.drop_last(), steps, table) is Ok {
            lemma_settled_reference(earlier, references.last(), later);
        }
    }
}

proof fn lemma_settled_step(
    before: Seq<Seq<char>>,
    step: Step,
    steps: Map<i32, Value>,
    table: Seq<PathCostView>,
    later: Seq<Seq<char>>,
)
    requires
        cache_after_step(before, step, steps, table).is_prefix_of(later),
    ensures
        cache_after_step(later, step, steps, table) == later,
{
    match step {
        Step::Add { inputs, .. } => lemma_settled_inputs(before, inputs@, steps, table, later),
        Step::Subtract { inputs, .. } => lemma_settled_inputs(before, inputs@, steps, table, later),
        Step::Multiply { inputs, .. } => lemma_settled_inputs(before, inputs@, steps, table, later),
        Step::Divide { inputs, .. } => lemma_settled_inputs(before, inputs@, steps, table, later),
        Step::Min { inputs, .. } => lemma_settled_inputs(before, inputs@, steps, table, later),
        Step::Max { inputs, .. } => lemma_settled_inputs(before, inputs@, steps, table, later),
        Step::Percentage { inputs, .. } => lemma_settled_inputs(
            before,
            inputs@,
            steps,
            table,
            later,
        ),
        Step::Round { inputs, .. } => lemma_settled_inputs(before, inputs@, steps, table, later),
        Step::Clamp { value, min, max, .. } => {
            let first = cache_after_reference(before, value);
            let second = cache_after_reference(first, min);
            let third = cache_after_reference(second, max);
            lemma_grown_by_reference(first, min);
            lemma_grown_by_reference(second, max);
            if resolved_first(value, steps, table) is Err {
                lemma_settled_reference(before, value, later);
            } else if resolved_first(min, steps, table) is Err {
                lemma_prefix_chain(first, second, later);
                lemma_settled_reference(before, value, later);
                lemma_settled_reference(first, min, later);
            } else {
                lemma_prefix_chain(second, third, later);
                lemma_prefix_chain(first, second, later);
                lemma_settled_reference(before, value, later);
                lemma_settled_reference(first, min, later);
                lemma_settled_reference(second, max, later);
            }
        },
        Step::If { condition, then_, else_, .. } => {
            let first = cache_after_reference(before, condition.left);
            let second = cache_after_reference(first, condition.right);
            let third = cache_after_reference(second, then_);
            lemma_grown_by_reference(first, condition.right);
            lemma_grown_by_reference(second, then_);
            match resolved_first(condition.left, steps, table) {
                Err(_) => {
                    lemma_settled_reference(before, condition.left, later);
                },
                Ok(left) => {
                    match resolved_first(condition.right, steps, table) {
                        Err(_) => {
                            lemma_prefix_chain(first, second, later);
                            lemma_settled_reference(before, condition.left, later);
                            lemma_settled_reference(first, condition.right, later);
                        },
                        Ok(right) => {
                            if comparison(condition.operator@, left, right) is None {
                                lemma_prefix_chain(first, second, later);
                                lemma_settled_reference(before, condition.left, later);
                                lemma_settled_reference(first, condition.right, later);
                            } else {
                                if resolved_first(then_, steps, table) is Ok {
                                    match else_ {
                                        Some(reference) => {
                                            lemma_grown_by_reference(third, reference);
                                            lemma_prefix_chain(
                                                third,
                                                cache_after_reference(third, reference),
                                                later,
                                            );
                                            lemma_settled_reference(third, reference, later);
                                        },
                                        None => {},
                                    }
                                }
                                lemma_prefix_chain(second, third, later);
                                lemma_prefix_chain(first, second, later);
                                lemma_settled_reference(before, condition.left, later);
                                lemma_settled_reference(first, condition.right, later);
                                lemma_settled_reference(second, then_, later);
                            }
                        },
                    }
                },
            }
        },
    }
}

proof fn lemma_settled_run(
    before: Seq<Seq<char>>,
    steps: Seq<Step>,
    table: Seq<PathCostView>,
    later: Seq<Seq<char>>,
)
    requires
        cache_after_run(before, steps, table).is_prefix_of(later),
    ensures
        cache_after_run(later, steps, table) == later,
    decreases steps.len(),
{
    if steps.len() > 0 {
        let earlier = cache_after_run(before, steps.drop_last(), table);
        match run_steps(steps.drop_last(), table) {
            Err(_) => {
                lemma_settled_run(before, steps.drop_last(), table, later);
            },
            Ok(run) => {
                lemma_grown_by_step(earlier, steps.last(), run.values, table);
                lemma_prefix_chain(earlier, cache_after_run(before, steps, table), later);
                lemma_settled_run(before, steps.drop_last(), table, later);
                lemma_settled_step(earlier, steps.last(), run.values, table, later);
            },
        }
    }
}

proof fn lemma_settled_required(
    before: Seq<Seq<char>>,
    required: Seq<String>,
    paths: Seq<Seq<char>>,
    later: Seq<Seq<char>>,
)
    requires
        cache_after_required(before, required, paths).is_prefix_of(later),
    ensures
        cache_after_required(later, required, paths) == later,
    decreases required.len(),
{
    if required.len() > 0 {
        let earlier = cache_after_required(before, required.drop_last(), paths);
        lemma_grown_by_one(earlier, required.last()@);
        lemma_prefix_chain(earlier, cache_after_required(before, required, paths), later);
        lemma_settled_required(before, required.drop_last(), paths, later);
        if required_check(required.drop_last(), paths) is Ok {
            lemma_settled_one(earlier, required.last()@, later);
        }
    }
}

/// A calculation that is repeated on an engine finds every matcher it
/// needs in the cache: the second run leaves the cache as the first run
/// left it.
pub proof fn law_repeated_calculation_reuses_matchers(
    before: Seq<Seq<char>>,
    nodes: Seq<PricingNode>,
    strategy: PricingStrategy,
    inputs: Seq<Input>,
)
    ensures
        cache_after_calculation(
            cache_after_calculation(before, nodes, strategy, inputs),
            nodes,
            strategy,
            inputs,
        ) == cache_after_calculation(before, nodes, strategy, inputs),
{
    let after = cache_after_calculation(before, nodes, strategy, inputs);
    let required = required_patterns(strategy);
    let paths = input_paths(inputs);
    let checked = cache_after_required(before, required, paths);
    if required_check(required, paths) is Err {
        lemma_settled_required(before, required, paths, after);
    } else {
        match input_costs(inputs, index_of(nodes)) {
            Err(_) => {
                lemma_settled_required(before, required, paths, after);
            },
            Ok(table) => {
                lemma_grown_by_run(checked, strategy.steps@, table);
                lemma_settled_required(before, required, paths, after);
                lemma_settled_run(checked, strategy.steps@, table, after);
            },
        }
    }
}

} // verus!
