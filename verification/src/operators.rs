use crate::value::{in_range, product, quotient, Value, SCALE};
use vstd::prelude::*;

verus! {

/// The amount of `x` micro-units, where a `Value` can hold it.
pub open spec fn held(x: int) -> Option<Value> {
    if in_range(x) {
        Some(Value { micros: x as i64 })
    } else {
        None
    }
}

/// The exact sum of the values, in micro-units.
pub open spec fn total(values: Seq<Value>) -> int
    decreases values.len(),
{
    if values.len() == 0 {
        0
    } else {
        total(values.drop_last()) + values.last()@
    }
}

/// The first value less the sum of the others, in micro-units.
pub open spec fn difference(values: Seq<Value>) -> int {
    values[0]@ - total(values.skip(1))
}

/// The values multiplied one after the other, starting from one. Each
/// product is rounded to the micro-unit; `None` where one is out of range.
pub open spec fn product_of(values: Seq<Value>) -> Option<Value>
    decreases values.len(),
{
    if values.len() == 0 {
        Some(Value { micros: SCALE })
    } else {
        match product_of(values.drop_last()) {
            Some(acc) => held(product(acc@, values.last()@)),
            None => None,
        }
    }
}

/// Why a chain of divisions stopped.
#[derive(Clone, Copy, Debug, PartialEq, Eq, Structural)]
pub enum DivisionFault {
    ZeroDivisor,
    OutOfRange,
}

/// The first value divided by each of the others in turn. Each quotient
/// is rounded to the micro-unit. The first divisor that is zero, or the
/// first quotient out of range, stops the chain.
pub open spec fn quotient_of(values: Seq<Value>) -> Result<Value, DivisionFault>
    decreases values.len(),
{
    if values.len() <= 1 {
        Ok(values[0])
    } else {
        match quotient_of(values.drop_last()) {
            Err(fault) => Err(fault),
            Ok(acc) => if values.last()@ == 0 {
                Err(DivisionFault::ZeroDivisor)
            } else {
                match held(quotient(acc@, values.last()@)) {
                    Some(v) => Ok(v),
                    None => Err(DivisionFault::OutOfRange),
                }
            },
        }
    }
}

/// The least of the values (of which there is at least one).
pub open spec fn least(values: Seq<Value>) -> Value
    decreases values.len(),
{
    if values.len() <= 1 {
        values[0]
    } else {
        let rest = least(values.drop_last());
        if values.last()@ < rest@ {
            values.last()
        } else {
            rest
        }
    }
}

/// The greatest of the values (of which there is at least one).
pub open spec fn greatest(values: Seq<Value>) -> Value
    decreases values.len(),
{
    if values.len() <= 1 {
        values[0]
    } else {
        let rest = greatest(values.drop_last());
        if values.last()@ > rest@ {
            values.last()
        } else {
            rest
        }
    }
}

/// `value` brought into the range from `min` to `max`.
pub open spec fn clamped(value: Value, min: Value, max: Value) -> Value {
    if value@ < min@ {
        min
    } else if value@ > max@ {
        max
    } else {
        value
    }
}

/// What a comparison operator says of two values; `None` for a text that
/// is none of the six operators.
pub open spec fn comparison(operator: Seq<char>, left: Value, right: Value) -> Option<bool> {
    if operator == ">"@ {
        Some(left@ > right@)
    } else if operator == "<"@ {
        Some(left@ < right@)
    } else if operator == ">="@ {
        Some(left@ >= right@)
    } else if operator == "<="@ {
        Some(left@ <= right@)
    } else if operator == "=="@ {
        Some(left@ == right@)
    } else if operator == "!="@ {
        Some(left@ != right@)
    } else {
        None
    }
}

proof fn lemma_total_bounds(values: Seq<Value>)
    ensures
        -(values.len() * 0x8000_0000_0000_0000) <= total(values) <= values.len()
            * 0x8000_0000_0000_0000,
    decreases values.len(),
{
    if values.len() > 0 {
        lemma_total_bounds(values.drop_last());
    }
}

proof fn lemma_total_step(values: Seq<Value>, i: int)
    requires
        0 <= i < values.len(),
    ensures
        total(values.take(i + 1)) == total(values.take(i)) + values[i]@,
        total(values.subrange(1, i + 1)) == if i == 0 {
            0
        } else {
            total(values.subrange(1, i)) + values[i]@
        },
{
    assert(values.take(i + 1).drop_last() =~= values.take(i));
    if i > 0 {
        assert(values.subrange(1, i + 1).drop_last() =~= values.subrange(1, i));
    }
}

/// The exact sum of the values, unless it is out of range.
pub(crate) fn sum_values(values: &Vec<Value>) -> (r: Option<Value>)
    ensures
        r == held(total(values@)),
{
    let mut acc: i128 = 0;
    let mut i: usize = 0;
    while i < values.len()
        invariant
            0 <= i <= values.len(),
            acc == total(values@.take(i as int)),
        decreases values.len() - i,
    {
        proof {
            lemma_total_bounds(values@.take(i as int));
            lemma_total_step(values@, i as int);
            assert(i * 0x8000_0000_0000_0000 <= 0xffff_ffff_ffff_ffff * 0x8000_0000_0000_0000)
                by (nonlinear_arith)
                requires
                    0 <= i <= 0xffff_ffff_ffff_ffff,
            ;
        }
        acc = acc + values[i].micros as i128;
        i = i + 1;
    }
    assert(values@.take(values.len() as int) =~= values@);
    Value::from_wide(acc)
}

/// The first value less the sum of the others, unless the result is out
/// of range.
pub(crate) fn subtract_values(values: &Vec<Value>) -> (r: Option<Value>)
    requires
        values.len() >= 1,
    ensures
        r == held(difference(values@)),
{
    let mut acc: i128 = values[0].micros as i128;
    let mut i: usize = 1;
    assert(values@.subrange(1, 1) =~= Seq::<Value>::empty());
    while i < values.len()
        invariant
            1 <= i <= values.len(),
            acc == values[0]@ - total(values@.subrange(1, i as int)),
        decreases values.len() - i,
    {
        proof {
            lemma_total_bounds(values@.subrange(1, i as int));
            lemma_total_step(values@, i as int);
            assert(i * 0x8000_0000_0000_0000 <= 0xffff_ffff_ffff_ffff * 0x8000_0000_0000_0000)
                by (nonlinear_arith)
                requires
                    0 <= i <= 0xffff_ffff_ffff_ffff,
            ;
        }
        acc = acc - values[i].micros as i128;
        i = i + 1;
    }
    assert(values@.subrange(1, values.len() as int) =~= values@.skip(1));
    Value::from_wide(acc)
}

/// The values multiplied one after the other, unless a product is out of
/// range.
pub(crate) fn multiply_values(values: &Vec<Value>) -> (r: Option<Value>)
    ensures
        r == product_of(values@),
{
    let mut acc: Value = Value { micros: SCALE };
    let mut i: usize = 0;
    assert(values@.take(0) =~= Seq::<Value>::empty());
    while i < values.len()
        invariant
            0 <= i <= values.len(),
            product_of(values@.take(i as int)) == Some(acc),
        decreases values.len() - i,
    {
        proof {
            assert(values@.take(i + 1).drop_last() =~= values@.take(i as int));
            lemma_product_stops(values@, i + 1);
        }
        match acc.checked_mul(values[i]) {
            Some(next) => {
                acc = next;
            },
            None => {
                return None;
            },
        }
        i = i + 1;
    }
    assert(values@.take(values.len() as int) =~= values@);
    Some(acc)
}

proof fn lemma_product_stops(values: Seq<Value>, n: int)
    requires
        0 <= n <= values.len(),
    ensures
        product_of(values.take(n)) is None ==> product_of(values) is None,
    decreases values.len(),
{
    if n == values.len() {
        assert(values.take(n) =~= values);
    } else {
        lemma_product_stops(values.drop_last(), n);
        assert(values.drop_last().take(n) =~= values.take(n));
    }
}

/// Once a prefix of a chain of divisions has failed, the whole chain fails
/// in the same way.
pub proof fn lemma_quotient_stops(values: Seq<Value>, n: int)
    requires
        1 <= n <= values.len(),
    ensures
        quotient_of(values.take(n)) is Err ==> quotient_of(values) == quotient_of(values.take(n)),
    decreases values.len(),
{
    if n == values.len() {
        assert(values.take(n) =~= values);
    } else {
        lemma_quotient_stops(values.drop_last(), n);
        assert(values.drop_last().take(n) =~= values.take(n));
    }
}

/// The first value divided by each of the others in turn.
pub(crate) fn divide_values(values: &Vec<Value>) -> (r: Result<Value, DivisionFault>)
    requires
        values.len() >= 1,
    ensures
        r == quotient_of(values@),
{
    let mut acc: Value = values[0];
    let mut i: usize = 1;
    while i < values.len()
        invariant
            1 <= i <= values.len(),
            quotient_of(values@.take(i as int)) == Ok::<Value, DivisionFault>(acc),
        decreases values.len() - i,
    {
        proof {
            assert(values@.take(i + 1).drop_last() =~= values@.take(i as int));
            lemma_quotient_stops(values@, i + 1);
        }
        let divisor = values[i];
        if divisor.micros == 0 {
            return Err(DivisionFault::ZeroDivisor);
        }
        match acc.checked_div(divisor) {
            Some(next) => {
                acc = next;
            },
            None => {
                return Err(DivisionFault::OutOfRange);
            },
        }
        i = i + 1;
    }
    assert(values@.take(values.len() as int) =~= values@);
    Ok(acc)
}

/// The least of the values.
pub(crate) fn min_value(values: &Vec<Value>) -> (r: Value)
    requires
        values.len() >= 1,
    ensures
        r == least(values@),
{
    let mut acc: Value = values[0];
    let mut i: usize = 1;
    while i < values.len()
        invariant
            1 <= i <= values.len(),
            acc == least(values@.take(i as int)),
        decreases values.len() - i,
    {
        assert(values@.take(i + 1).drop_last() =~= values@.take(i as int));
        if values[i].micros < acc.micros {
            acc = values[i];
        }
        i = i + 1;
    }
    assert(values@.take(values.len() as int) =~= values@);
    acc
}

/// The greatest of the values.
pub(crate) fn max_value(values: &Vec<Value>) -> (r: Value)
    requires
        values.len() >= 1,
    ensures
        r == greatest(values@),
{
    let mut acc: Value = values[0];
    let mut i: usize = 1;
    while i < values.len()
        invariant
            1 <= i <= values.len(),
            acc == greatest(values@.take(i as int)),
        decreases values.len() - i,
    {
        assert(values@.take(i + 1).drop_last() =~= values@.take(i as int));
        if values[i].micros > acc.micros {
            acc = values[i];
        }
        i = i + 1;
    }
    assert(values@.take(values.len() as int) =~= values@);
    acc
}

/// Brings `value` into the range from `min` to `max`.
pub fn clamp_value(value: Value, min: Value, max: Value) -> (r: Value)
    ensures
        r == clamped(value, min, max),
        min@ <= max@ ==> min@ <= r@ <= max@,
        min@ <= value@ <= max@ ==> r == value,
{
    if value.micros < min.micros {
        min
    } else if value.micros > max.micros {
        max
    } else {
        value
    }
}

} // verus!
