use crate::engine::PricingEngine;
use crate::error::{ErrorView, PricingError};
use crate::input::{cost_at, cost_views, lookup_cost, paths_of, table_paths, PathCost, PathCostView};
use crate::pattern::{cached_after, has_wildcard, pattern_compiles, pattern_matches};
use crate::scalar::Scalar;
use crate::value::Value;
use std::collections::HashMap;
use vstd::prelude::*;
use vstd::string::StringExecFns;

verus! {

broadcast use vstd::std_specs::hash::group_hash_axioms;

/// The six characters that open a step reference.
pub open spec fn step_prefix() -> Seq<char> {
    seq!['s', 't', 'e', 'p', '_', '_']
}

/// Whether a text has the shape of a step reference.
pub open spec fn is_step_reference(s: Seq<char>) -> bool {
    s.len() >= 6 && s.take(6) == step_prefix()
}

/// The value of a decimal digit character.
pub open spec fn digit_value(c: char) -> Option<int> {
    if '0' <= c <= '9' {
        Some(c as int - '0' as int)
    } else {
        None
    }
}

/// The number that a run of decimal digits writes; an empty run writes 0.
pub open spec fn digits_value(s: Seq<char>) -> Option<int>
    decreases s.len(),
{
    if s.len() == 0 {
        Some(0)
    } else {
        match (digits_value(s.drop_last()), digit_value(s.last())) {
            (Some(high), Some(low)) => Some(high * 10 + low),
            _ => None,
        }
    }
}

/// The 32-bit integer that a text writes: an optional `+` or `-`, then one
/// or more decimal digits, and nothing else.
pub open spec fn parse_i32(s: Seq<char>) -> Option<i32> {
    if s.len() == 0 {
        None
    } else {
        let negative = s[0] == '-';
        let body = if s[0] == '-' || s[0] == '+' { s.drop_first() } else { s };
        if body.len() == 0 {
            None
        } else {
            match digits_value(body) {
                Some(v) => {
                    let n = if negative { -v } else { v };
                    if i32::MIN <= n <= i32::MAX {
                        Some(n as i32)
                    } else {
                        None
                    }
                },
                None => None,
            }
        }
    }
}

/// The value stored for a step, or zero where none is stored.
pub open spec fn step_value(steps: Map<i32, Value>, id: i32) -> Value {
    if steps.contains_key(id) {
        steps[id]
    } else {
        Value { micros: 0 }
    }
}

/// The costs of the table's paths that match the pattern, in table order.
pub open spec fn matching_costs(pattern: Seq<char>, table: Seq<PathCostView>) -> Seq<Value>
    decreases table.len(),
{
    if table.len() == 0 {
        Seq::empty()
    } else {
        let rest = matching_costs(pattern, table.drop_last());
        if pattern_matches(pattern, table.last().path) {
            rest.push(table.last().cost)
        } else {
            rest
        }
    }
}

/// What a wildcard pattern stands for: the costs of all matching paths, of
/// which there must be at least one.
pub open spec fn wildcard_values(pattern: Seq<char>, table: Seq<PathCostView>) -> Result<
    Seq<Value>,
    ErrorView,
> {
    if !pattern_compiles(pattern) {
        Err(ErrorView::UnparsablePattern { pattern })
    } else if matching_costs(pattern, table).len() == 0 {
        Err(ErrorView::NoWildcardMatch { pattern, known_paths: table_paths(table) })
    } else {
        Ok(matching_costs(pattern, table))
    }
}

/// What a reference stands for. A text of the shape `step__<id>` is the
/// stored value of that step, or zero; a text with a `*` is a wildcard
/// pattern; any other text is a path, and stands for its cost, or zero. A
/// number stands for itself, and anything else for zero.
pub open spec fn resolved(
    reference: Scalar,
    steps: Map<i32, Value>,
    table: Seq<PathCostView>,
) -> Result<Seq<Value>, ErrorView> {
    match reference {
        Scalar::Text(s) => if is_step_reference(s@) {
            match parse_i32(s@.skip(6)) {
                Some(id) => Ok(seq![step_value(steps, id)]),
                None => Err(ErrorView::InvalidStepReference { reference: s@ }),
            }
        } else if s@.contains('*') {
            wildcard_values(s@, table)
        } else {
            Ok(
                seq![
                    match cost_at(table, s@) {
                        Some(cost) => cost,
                        None => Value { micros: 0 },
                    },
                ],
            )
        },
        Scalar::Number(v) => Ok(seq![v]),
        _ => Ok(seq![Value { micros: 0 }]),
    }
}

/// What a list of references stands for: the values of each, one after
/// the other. The first reference that fails ends the work.
pub open spec fn resolved_inputs(
    references: Seq<Scalar>,
    steps: Map<i32, Value>,
    table: Seq<PathCostView>,
) -> Result<Seq<Value>, ErrorView>
    decreases references.len(),
{
    if references.len() == 0 {
        Ok(Seq::empty())
    } else {
        match resolved_inputs(references.drop_last(), steps, table) {
            Err(e) => Err(e),
            Ok(values) => match resolved(references.last(), steps, table) {
                Ok(more) => Ok(values + more),
                Err(e) => Err(e),
            },
        }
    }
}

/// The first value a reference stands for.
pub open spec fn resolved_first(
    reference: Scalar,
    steps: Map<i32, Value>,
    table: Seq<PathCostView>,
) -> Result<Value, ErrorView> {
    match resolved(reference, steps, table) {
        Ok(values) => Ok(values[0]),
        Err(e) => Err(e),
    }
}

/// What the cache holds after a reference was resolved: only a wildcard
/// pattern is looked up in it.
pub open spec fn cache_after_reference(before: Seq<Seq<char>>, reference: Scalar) -> Seq<
    Seq<char>,
> {
    match reference {
        Scalar::Text(s) => if !is_step_reference(s@) && s@.contains('*') {
            cached_after(before, s@)
        } else {
            before
        },
        _ => before,
    }
}

/// What the cache holds after a list of references was resolved, up to
/// the first reference that failed.
pub open spec fn cache_after_inputs(
    before: Seq<Seq<char>>,
    references: Seq<Scalar>,
    steps: Map<i32, Value>,
    table: Seq<PathCostView>,
) -> Seq<Seq<char>>
    decreases references.len(),
{
    if references.len() == 0 {
        before
    } else {
        let earlier = cache_after_inputs(before, references.drop_last(), steps, table);
        if resolved_inputs(references.drop_last(), steps, table) is Err {
            earlier
        } else {
            cache_after_reference(earlier, references.last())
        }
    }
}

/// The characters of a text.
pub(crate) fn to_chars(s: &str) -> (r: Vec<char>)
    ensures
        r@ == s@,
{
    let mut out: Vec<char> = Vec::new();
    for c in it: s.chars()
        invariant
            it.seq() == s@,
            out@ == s@.take(it.index()),
    {
        out.push(c);
        assert(out@ =~= s@.take(it.index() + 1));
    }
    assert(s@.take(s@.len() as int) =~= s@);
    out
}

/// Whether the characters open with `step__`.
pub(crate) fn opens_step_reference(chars: &Vec<char>) -> (r: bool)
    ensures
        r == is_step_reference(chars@),
{
    if chars.len() < 6 {
        return false;
    }
    let r = chars[0] == 's' && chars[1] == 't' && chars[2] == 'e' && chars[3] == 'p' && chars[4]
        == '_' && chars[5] == '_';
    proof {
        if r {
            assert(chars@.take(6) =~= step_prefix());
        } else {
            assert(chars@.take(6)[0] == chars@[0]);
            assert(chars@.take(6)[1] == chars@[1]);
            assert(chars@.take(6)[2] == chars@[2]);
            assert(chars@.take(6)[3] == chars@[3]);
            assert(chars@.take(6)[4] == chars@[4]);
            assert(chars@.take(6)[5] == chars@[5]);
        }
    }
    r
}

proof fn lemma_digits_grow(s: Seq<char>, n: int)
    requires
        0 <= n <= s.len(),
    ensures
        digits_value(s.take(n)) is None ==> digits_value(s) is None,
        digits_value(s) matches Some(v) ==> digits_value(s.take(n)) matches Some(p) && 0 <= p
            <= v,
    decreases s.len(),
{
    if n == s.len() {
        assert(s.take(n) =~= s);
        lemma_digits_nonnegative(s);
    } else {
        lemma_digits_grow(s.drop_last(), n);
        assert(s.drop_last().take(n) =~= s.take(n));
    }
}

proof fn lemma_digits_nonnegative(s: Seq<char>)
    ensures
        digits_value(s) matches Some(v) ==> v >= 0,
    decreases s.len(),
{
    if s.len() > 0 {
        lemma_digits_nonnegative(s.drop_last());
    }
}

/// Reads the characters from `start` on as a 32-bit integer.
#[verifier::loop_isolation(false)]
pub(crate) fn parse_step_id(chars: &Vec<char>, start: usize) -> (r: Option<i32>)
    requires
        start <= chars.len(),
    ensures
        r == parse_i32(chars@.skip(start as int)),
{
    let ghost s = chars@.skip(start as int);
    if start == chars.len() {
        return None;
    }
    let first = chars[start];
    assert(s[0] == first);
    let negative = first == '-';
    let from: usize = if first == '-' || first == '+' { start + 1 } else { start };
    let ghost body = if first == '-' || first == '+' { s.drop_first() } else { s };
    assert(body =~= chars@.skip(from as int));
    if from == chars.len() {
        return None;
    }
    let mut acc: i64 = 0;
    let mut i: usize = from;
    assert(body.take(0) =~= Seq::<char>::empty());
    while i < chars.len()
        invariant
            from <= i <= chars.len(),
            body == chars@.skip(from as int),
            digits_value(body.take(i - from)) == Some(acc as int),
            0 <= acc <= 0x8000_0000,
        decreases chars.len() - i,
    {
        let c = chars[i];
        proof {
            let upto = body.take(i - from + 1);
            assert(upto.last() == c);
            assert(upto.drop_last() =~= body.take(i - from));
            lemma_digits_grow(body, i - from + 1);
        }
        if c < '0' || c > '9' {
            return None;
        }
        let d: i64 = (c as u32 - '0' as u32) as i64;
        acc = acc * 10 + d;
        if acc > 0x8000_0000 {
            return None;
        }
        i = i + 1;
    }
    assert(body.take(body.len() as int) =~= body);
    if negative {
        Some((-acc) as i32)
    } else if acc > 0x7fff_ffff {
        None
    } else {
        Some(acc as i32)
    }
}

/// Reads a text as a 32-bit integer.
pub fn parse_id(text: &str) -> (r: Option<i32>)
    ensures
        r == parse_i32(text@),
{
    let chars = to_chars(text);
    assert(chars@.skip(0) =~= text@);
    parse_step_id(&chars, 0)
}

/// Whether a text has the shape of a step reference.
pub fn names_step(text: &str) -> (r: bool)
    ensures
        r == is_step_reference(text@),
{
    let chars = to_chars(text);
    opens_step_reference(&chars)
}

/// The list that holds one value.
fn single(value: Value) -> (r: Vec<Value>)
    ensures
        r@ == seq![value],
{
    let mut out: Vec<Value> = Vec::new();
    out.push(value);
    assert(out@ =~= seq![value]);
    out
}

impl PricingEngine {
    /// Resolves a wildcard pattern to the costs of all the paths it
    /// matches, in the order of the cost table.
    pub fn resolve_wildcard_pattern(&mut self, pattern: &str, table: &Vec<PathCost>) -> (r: Result<
        Vec<Value>,
        PricingError,
    >)
        ensures
            match r {
                Ok(values) => wildcard_values(pattern@, cost_views(table@)) == Ok::<
                    Seq<Value>,
                    ErrorView,
                >(values@),
                Err(e) => wildcard_values(pattern@, cost_views(table@)) == Err::<
                    Seq<Value>,
                    ErrorView,
                >(e@),
            },
            final(self).cached_patterns() == cached_after(old(self).cached_patterns(), pattern@),
    {
        let slot = match self.regex_cache.get_regex(pattern) {
            Ok(slot) => slot,
            Err(e) => {
                return Err(e);
            },
        };
        let mut values: Vec<Value> = Vec::new();
        let mut i: usize = 0;
        assert(values@ =~= matching_costs(pattern@, cost_views(table@).take(0)));
        while i < table.len()
            invariant
                0 <= i <= table.len(),
                slot < self.regex_cache.patterns().len(),
                self.regex_cache.patterns()[slot as int] == pattern@,
                values@ == matching_costs(pattern@, cost_views(table@).take(i as int)),
            decreases table.len() - i,
        {
            let entry = &table[i];
            proof {
                let upto = cost_views(table@).take(i + 1);
                assert(upto.last() == entry@);
                assert(upto.drop_last() =~= cost_views(table@).take(i as int));
            }
            if let Some(true) = self.regex_cache.slot_matches(slot, entry.path.as_str()) {
                values.push(entry.cost);
            }
            i = i + 1;
        }
        assert(cost_views(table@).take(table.len() as int) =~= cost_views(table@));
        if values.len() == 0 {
            Err(
                PricingError::NoWildcardMatch {
                    pattern: String::from_str(pattern),
                    known_paths: paths_of(table),
                },
            )
        } else {
            Ok(values)
        }
    }

    /// Resolves one reference to the values it stands for.
    pub fn resolve_value(
        &mut self,
        reference: &Scalar,
        step_values: &HashMap<i32, Value>,
        table: &Vec<PathCost>,
    ) -> (r: Result<Vec<Value>, PricingError>)
        ensures
            match r {
                Ok(values) => resolved(*reference, step_values@, cost_views(table@)) == Ok::<
                    Seq<Value>,
                    ErrorView,
                >(values@),
                Err(e) => resolved(*reference, step_values@, cost_views(table@)) == Err::<
                    Seq<Value>,
                    ErrorView,
                >(e@),
            },
            r matches Ok(values) ==> values@.len() >= 1,
            final(self).cached_patterns() == cache_after_reference(
                old(self).cached_patterns(),
                *reference,
            ),
    {
        match reference {
            Scalar::Text(s) => {
                let chars = to_chars(s.as_str());
                if opens_step_reference(&chars) {
                    match parse_step_id(&chars, 6) {
                        Some(id) => {
                            let value = match step_values.get(&id) {
                                Some(v) => *v,
                                None => Value::zero(),
                            };
                            Ok(single(value))
                        },
                        None => Err(PricingError::InvalidStepReference { reference: s.clone() }),
                    }
                } else if has_wildcard(s.as_str()) {
                    self.resolve_wildcard_pattern(s.as_str(), table)
                } else {
                    let value = match lookup_cost(table, s.as_str()) {
                        Some(cost) => cost,
                        None => Value::zero(),
                    };
                    Ok(single(value))
                }
            },
            Scalar::Number(v) => Ok(single(*v)),
            _ => Ok(single(Value::zero())),
        }
    }

    /// Resolves a list of references to the values they stand for, one
    /// after the other.
    pub fn resolve_inputs(
        &mut self,
        references: &Vec<Scalar>,
        step_values: &HashMap<i32, Value>,
        table: &Vec<PathCost>,
    ) -> (r: Result<Vec<Value>, PricingError>)
        ensures
            match r {
                Ok(values) => resolved_inputs(references@, step_values@, cost_views(table@))
                    == Ok::<Seq<Value>, ErrorView>(values@),
                Err(e) => resolved_inputs(references@, step_values@, cost_views(table@)) == Err::<
                    Seq<Value>,
                    ErrorView,
                >(e@),
            },
            final(self).cached_patterns() == cache_after_inputs(
                old(self).cached_patterns(),
                references@,
                step_values@,
                cost_views(table@),
            ),
    {
        let mut values: Vec<Value> = Vec::new();
        let mut i: usize = 0;
        while i < references.len()
            invariant
                0 <= i <= references.len(),
                resolved_inputs(references@.take(i as int), step_values@, cost_views(table@))
                    == Ok::<Seq<Value>, ErrorView>(values@),
                self.cached_patterns() == cache_after_inputs(
                    old(self).cached_patterns(),
                    references@.take(i as int),
                    step_values@,
                    cost_views(table@),
                ),
            decreases references.len() - i,
        {
            proof {
                let upto = references@.take(i + 1);
                assert(upto.last() == references@[i as int]);
                assert(upto.drop_last() =~= references@.take(i as int));
                lemma_inputs_stop(
                    old(self).cached_patterns(),
                    references@,
                    step_values@,
                    cost_views(table@),
                    i + 1,
                );
            }
            match self.resolve_value(&references[i], step_values, table) {
                Ok(more) => {
                    let mut more = more;
                    values.append(&mut more);
                },
                Err(e) => {
                    return Err(e);
                },
            }
            i = i + 1;
        }
        assert(references@.take(references.len() as int) =~= references@);
        Ok(values)
    }

    /// Resolves one reference and keeps the first of its values.
    pub fn resolve_first(
        &mut self,
        reference: &Scalar,
        step_values: &HashMap<i32, Value>,
        table: &Vec<PathCost>,
    ) -> (r: Result<Value, PricingError>)
        ensures
            match r {
                Ok(value) => resolved_first(*reference, step_values@, cost_views(table@)) == Ok::<
                    Value,
                    ErrorView,
                >(value),
                Err(e) => resolved_first(*reference, step_values@, cost_views(table@)) == Err::<
                    Value,
                    ErrorView,
                >(e@),
            },
            final(self).cached_patterns() == cache_after_reference(
                old(self).cached_patterns(),
                *reference,
            ),
    {
        match self.resolve_value(reference, step_values, table) {
            Ok(values) => Ok(values[0]),
            Err(e) => Err(e),
        }
    }
}

/// Once a prefix of the references has failed, the whole list fails with
/// the same error, and the cache is looked up no more.
pub proof fn lemma_inputs_stop(
    before: Seq<Seq<char>>,
    references: Seq<Scalar>,
    steps: Map<i32, Value>,
    table: Seq<PathCostView>,
    n: int,
)
    requires
        0 <= n <= references.len(),
    ensures
        resolved_inputs(references.take(n), steps, table) is Err ==> resolved_inputs(
            references,
            steps,
            table,
        ) == resolved_inputs(references.take(n), steps, table),
        resolved_inputs(references.take(n), steps, table) is Err ==> cache_after_inputs(
            before,
            references,
            steps,
            table,
        ) == cache_after_inputs(before, references.take(n), steps, table),
    decreases references.len(),
{
    if n == references.len() {
        assert(references.take(n) =~= references);
    } else {
        lemma_inputs_stop(before, references.drop_last(), steps, table, n);
        assert(references.drop_last().take(n) =~= references.take(n));
    }
}

} // verus!
