use crate::error::{ErrorView, PricingError};
use crate::node::{label_cost, label_values, numeric_cost, IndexView, NodeIndex};
use crate::scalar::Scalar;
use crate::text::{contains_text, copy_texts, lemma_texts_push, same_text, texts};
use crate::value::{in_range, product, Value};
use vstd::prelude::*;

verus! {

/// One value supplied by the user, at one path.
#[derive(Clone, Debug, PartialEq, Eq)]
pub struct Input {
    pub path: String,
    pub value: Scalar,
}

/// What one input contributes to the price.
#[derive(Clone, Debug, PartialEq, Eq)]
pub struct PathCost {
    pub path: String,
    pub cost: Value,
}

/// The content of a `PathCost`.
pub struct PathCostView {
    pub path: Seq<char>,
    pub cost: Value,
}

impl View for PathCost {
    type V = PathCostView;

    open spec fn view(&self) -> PathCostView {
        PathCostView { path: self.path@, cost: self.cost }
    }
}

/// The content of a cost table, entry by entry.
pub open spec fn cost_views(table: Seq<PathCost>) -> Seq<PathCostView> {
    Seq::new(table.len(), |i: int| table[i]@)
}

/// The paths of a cost table, in its order.
pub open spec fn table_paths(table: Seq<PathCostView>) -> Seq<Seq<char>> {
    Seq::new(table.len(), |i: int| table[i].path)
}

/// The cost that the table holds for `path`, if it holds one.
pub open spec fn cost_at(table: Seq<PathCostView>, path: Seq<char>) -> Option<Value>
    decreases table.len(),
{
    if table.len() == 0 {
        None
    } else if table.last().path == path {
        Some(table.last().cost)
    } else {
        cost_at(table.drop_last(), path)
    }
}

/// What one input contributes. A label node for the input's value gives its
/// flat cost, whatever the value is. Failing that, a numeric node at the
/// path gives its cost times the input, which must then be a number.
pub open spec fn input_cost(input: Input, index: IndexView) -> Result<Value, ErrorView> {
    let text = input.value.text();
    match label_cost(index.labels, input.path@, text) {
        Some(cost) => Ok(cost),
        None => match numeric_cost(index.numerics, input.path@) {
            Some(unit_cost) => match input.value {
                Scalar::Number(quantity) => if in_range(product(quantity@, unit_cost@)) {
                    Ok(Value { micros: product(quantity@, unit_cost@) as i64 })
                } else {
                    Err(ErrorView::NumericOverflow { context: input.path@ })
                },
                _ => Err(
                    ErrorView::NonNumericInputForNumericNode { path: input.path@, value: text },
                ),
            },
            None => if !index.paths.contains(input.path@) {
                Err(ErrorView::UnknownPath { path: input.path@, known_paths: index.paths })
            } else {
                Err(
                    ErrorView::InvalidValueForPath {
                        path: input.path@,
                        value: text,
                        valid_values: label_values(index.labels, input.path@),
                    },
                )
            },
        },
    }
}

/// The cost table of a list of inputs: one entry for each input, in the
/// order of the list. The first input that repeats a path, or that has no
/// cost, ends the work with its error.
pub open spec fn input_costs(inputs: Seq<Input>, index: IndexView) -> Result<
    Seq<PathCostView>,
    ErrorView,
>
    decreases inputs.len(),
{
    if inputs.len() == 0 {
        Ok(Seq::empty())
    } else {
        match input_costs(inputs.drop_last(), index) {
            Err(e) => Err(e),
            Ok(table) => {
                let input = inputs.last();
                if cost_at(table, input.path@) is Some {
                    Err(ErrorView::DuplicateInputPath { path: input.path@ })
                } else {
                    match input_cost(input, index) {
                        Ok(cost) => Ok(table.push(PathCostView { path: input.path@, cost })),
                        Err(e) => Err(e),
                    }
                }
            },
        }
    }
}

/// Looks a path up in a cost table.
pub fn lookup_cost(table: &Vec<PathCost>, path: &str) -> (r: Option<Value>)
    ensures
        r == cost_at(cost_views(table@), path@),
{
    let mut i: usize = table.len();
    assert(cost_views(table@).take(i as int) =~= cost_views(table@));
    while i > 0
        invariant
            0 <= i <= table.len(),
            cost_at(cost_views(table@), path@) == cost_at(
                cost_views(table@).take(i as int),
                path@,
            ),
        decreases i,
    {
        i = i - 1;
        let entry = &table[i];
        proof {
            let upto = cost_views(table@).take(i + 1);
            assert(upto.last() == entry@);
            assert(upto.drop_last() =~= cost_views(table@).take(i as int));
        }
        if same_text(entry.path.as_str(), path) {
            return Some(entry.cost);
        }
    }
    None
}

/// The paths of a cost table.
pub fn paths_of(table: &Vec<PathCost>) -> (r: Vec<String>)
    ensures
        texts(r@) == table_paths(cost_views(table@)),
{
    let mut out: Vec<String> = Vec::new();
    let mut i: usize = 0;
    assert(texts(out@) =~= table_paths(cost_views(table@)).take(0));
    while i < table.len()
        invariant
            0 <= i <= table.len(),
            texts(out@) == table_paths(cost_views(table@)).take(i as int),
        decreases table.len() - i,
    {
        let ghost before = out@;
        out.push(table[i].path.clone());
        proof {
            lemma_texts_push(before, out@.last());
            assert(texts(out@) =~= table_paths(cost_views(table@)).take(i + 1));
        }
        i = i + 1;
    }
    assert(texts(out@) =~= table_paths(cost_views(table@)));
    out
}

/// Works out what one input contributes.
pub fn resolve_input_cost(input: &Input, index: &NodeIndex) -> (r: Result<Value, PricingError>)
    ensures
        match r {
            Ok(cost) => input_cost(*input, index@) == Ok::<Value, ErrorView>(cost),
            Err(e) => input_cost(*input, index@) == Err::<Value, ErrorView>(e@),
        },
{
    let text = input.value.to_text();
    match index.find_label(input.path.as_str(), text.as_str()) {
        Some(cost) => Ok(cost),
        None => match index.find_numeric(input.path.as_str()) {
            Some(unit_cost) => match &input.value {
                Scalar::Number(quantity) => match quantity.checked_mul(unit_cost) {
                    Some(cost) => Ok(cost),
                    None => Err(PricingError::NumericOverflow { context: input.path.clone() }),
                },
                _ => Err(
                    PricingError::NonNumericInputForNumericNode {
                        path: input.path.clone(),
                        value: text,
                    },
                ),
            },
            None => if !contains_text(&index.paths, input.path.as_str()) {
                Err(
                    PricingError::UnknownPath {
                        path: input.path.clone(),
                        known_paths: copy_texts(&index.paths),
                    },
                )
            } else {
                Err(
                    PricingError::InvalidValueForPath {
                        path: input.path.clone(),
                        value: text,
                        valid_values: index.values_at(input.path.as_str()),
                    },
                )
            },
        },
    }
}

/// Works out the cost table of the inputs, in the order of the list.
pub fn calculate_input_costs(inputs: &Vec<Input>, index: &NodeIndex) -> (r: Result<
    Vec<PathCost>,
    PricingError,
>)
    ensures
        match r {
            Ok(table) => input_costs(inputs@, index@) == Ok::<Seq<PathCostView>, ErrorView>(
                cost_views(table@),
            ),
            Err(e) => input_costs(inputs@, index@) == Err::<Seq<PathCostView>, ErrorView>(e@),
        },
{
    let mut table: Vec<PathCost> = Vec::new();
    let mut i: usize = 0;
    assert(cost_views(table@) =~= Seq::<PathCostView>::empty());
    while i < inputs.len()
        invariant
            0 <= i <= inputs.len(),
            input_costs(inputs@.take(i as int), index@) == Ok::<Seq<PathCostView>, ErrorView>(
                cost_views(table@),
            ),
        decreases inputs.len() - i,
    {
        let input = &inputs[i];
        let ghost before = cost_views(table@);
        proof {
            let upto = inputs@.take(i + 1);
            assert(upto.last() == *input);
            assert(upto.drop_last() =~= inputs@.take(i as int));
            lemma_costs_stop(inputs@, index@, i + 1);
        }
        if lookup_cost(&table, input.path.as_str()).is_some() {
            return Err(PricingError::DuplicateInputPath { path: input.path.clone() });
        }
        match resolve_input_cost(input, index) {
            Ok(cost) => {
                table.push(PathCost { path: input.path.clone(), cost });
                assert(cost_views(table@) =~= before.push(
                    PathCostView { path: input.path@, cost },
                ));
            },
            Err(e) => {
                return Err(e);
            },
        }
        i = i + 1;
    }
    assert(inputs@.take(inputs.len() as int) =~= inputs@);
    Ok(table)
}

/// Once a prefix of the inputs has failed, the whole list fails with the
/// same error.
pub proof fn lemma_costs_stop(inputs: Seq<Input>, index: IndexView, n: int)
    requires
        0 <= n <= inputs.len(),
    ensures
        input_costs(inputs.take(n), index) is Err ==> input_costs(inputs, index) == input_costs(
            inputs.take(n),
            index,
        ),
    decreases inputs.len(),
{
    if n == inputs.len() {
        assert(inputs.take(n) =~= inputs);
    } else {
        lemma_costs_stop(inputs.drop_last(), index, n);
        assert(inputs.drop_last().take(n) =~= inputs.take(n));
    }
}

} // verus!
