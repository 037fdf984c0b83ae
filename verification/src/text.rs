use crate::value::{round_div, Value, SCALE};
use vstd::prelude::*;
use vstd::string::StringExecFns;

verus! {

/// The character of the decimal digit `d` (for `0 <= d <= 9`).
pub open spec fn digit(d: int) -> char {
    if d == 0 {
        '0'
    } else if d == 1 {
        '1'
    } else if d == 2 {
        '2'
    } else if d == 3 {
        '3'
    } else if d == 4 {
        '4'
    } else if d == 5 {
        '5'
    } else if d == 6 {
        '6'
    } else if d == 7 {
        '7'
    } else if d == 8 {
        '8'
    } else {
        '9'
    }
}

/// The decimal digits of `n`, without leading zeros.
pub open spec fn nat_text(n: nat) -> Seq<char>
    decreases n,
{
    if n < 10 {
        seq![digit(n as int)]
    } else {
        nat_text(n / 10).push(digit((n % 10) as int))
    }
}

/// The decimal text of `i`, with a minus sign where it is negative.
pub open spec fn int_text(i: int) -> Seq<char> {
    if i < 0 {
        seq!['-'] + nat_text((-i) as nat)
    } else {
        nat_text(i as nat)
    }
}

/// The last `width` decimal digits of `n`, with leading zeros.
pub open spec fn padded(n: nat, width: nat) -> Seq<char>
    decreases width,
{
    if width == 0 {
        Seq::empty()
    } else {
        padded(n / 10, (width - 1) as nat).push(digit((n % 10) as int))
    }
}

/// The digits of a fraction of `width` places, without its trailing zeros.
pub open spec fn fraction_text(f: nat, width: nat) -> Seq<char>
    decreases width,
{
    if width == 0 || f == 0 {
        Seq::empty()
    } else if f % 10 == 0 {
        fraction_text(f / 10, (width - 1) as nat)
    } else {
        padded(f, width)
    }
}

/// The shortest decimal text of an amount of `v` micro-units: `2`, `-0.5`,
/// `3.141593`.
pub open spec fn plain_text(v: int) -> Seq<char> {
    let m = if v < 0 { -v } else { v };
    let sign = if v < 0 { seq!['-'] } else { Seq::<char>::empty() };
    let whole = nat_text((m / (SCALE as int)) as nat);
    let fraction = (m % (SCALE as int)) as nat;
    if fraction == 0 {
        sign + whole
    } else {
        sign + whole + seq!['.'] + fraction_text(fraction, 6)
    }
}

/// The text of an amount of `v` micro-units rounded to two decimal places,
/// halves away from zero: `20.00`, `-0.13`.
pub open spec fn fixed2_text(v: int) -> Seq<char> {
    let cents = round_div(v, 10_000);
    let m = if cents < 0 { -cents } else { cents };
    let sign = if cents < 0 { seq!['-'] } else { Seq::<char>::empty() };
    sign + nat_text((m / 100) as nat) + seq!['.'] + padded((m % 100) as nat, 2)
}

/// The two-decimal texts of `values`, with `sep` between neighbours.
pub open spec fn joined_fixed2(values: Seq<Value>, sep: Seq<char>) -> Seq<char>
    decreases values.len(),
{
    if values.len() == 0 {
        Seq::empty()
    } else if values.len() == 1 {
        fixed2_text(values[0]@)
    } else {
        joined_fixed2(values.drop_last(), sep) + sep + fixed2_text(values.last()@)
    }
}

/// The texts held by a list of strings, in order.
pub open spec fn texts(list: Seq<String>) -> Seq<Seq<char>> {
    Seq::new(list.len(), |i: int| list[i]@)
}

/// `String::push`: the text grows by the one character.
#[verifier::external_body]
pub(crate) fn push_char(s: &mut String, c: char)
    ensures
        final(s)@ == old(s)@.push(c),
{
    s.push(c)
}

/// `==` on `str`: whether the two texts hold the same characters.
#[verifier::external_body]
pub(crate) fn same_text(a: &str, b: &str) -> (r: bool)
    ensures
        r == (a@ == b@),
{
    a == b
}

/// The texts of a list that grew by one string.
pub proof fn lemma_texts_push(list: Seq<String>, s: String)
    ensures
        texts(list.push(s)) == texts(list).push(s@),
{
    assert(texts(list.push(s)) =~= texts(list).push(s@));
}

/// Whether `list` holds the text `t`.
pub fn contains_text(list: &Vec<String>, t: &str) -> (r: bool)
    ensures
        r == texts(list@).contains(t@),
{
    let mut i: usize = 0;
    while i < list.len()
        invariant
            0 <= i <= list.len(),
            forall|j: int| 0 <= j < i ==> texts(list@)[j] != t@,
        decreases list.len() - i,
    {
        if same_text(list[i].as_str(), t) {
            assert(texts(list@)[i as int] == t@);
            return true;
        }
        i = i + 1;
    }
    false
}

/// A copy of a list of texts.
pub fn copy_texts(list: &Vec<String>) -> (r: Vec<String>)
    ensures
        texts(r@) == texts(list@),
{
    let mut out: Vec<String> = Vec::new();
    let mut i: usize = 0;
    while i < list.len()
        invariant
            0 <= i <= list.len(),
            texts(out@) == texts(list@.take(i as int)),
        decreases list.len() - i,
    {
        let ghost before = out@;
        out.push(list[i].clone());
        proof {
            lemma_texts_push(before, out@.last());
            lemma_texts_push(list@.take(i as int), list@[i as int]);
            assert(list@.take(i + 1) =~= list@.take(i as int).push(list@[i as int]));
        }
        i = i + 1;
    }
    assert(list@.take(list.len() as int) =~= list@);
    out
}

fn digit_of(d: u8) -> (c: char)
    requires
        d < 10,
    ensures
        c == digit(d as int),
{
    if d == 0 {
        '0'
    } else if d == 1 {
        '1'
    } else if d == 2 {
        '2'
    } else if d == 3 {
        '3'
    } else if d == 4 {
        '4'
    } else if d == 5 {
        '5'
    } else if d == 6 {
        '6'
    } else if d == 7 {
        '7'
    } else if d == 8 {
        '8'
    } else {
        '9'
    }
}

/// Appends the decimal digits of `n`.
pub(crate) fn append_nat(s: &mut String, n: u128)
    ensures
        final(s)@ == old(s)@ + nat_text(n as nat),
    decreases n,
{
    if n >= 10 {
        append_nat(s, n / 10);
    }
    push_char(s, digit_of((n % 10) as u8));
    assert(s@ =~= old(s)@ + nat_text(n as nat));
}

/// Appends the last `width` digits of `n`, with leading zeros.
fn append_padded(s: &mut String, n: u128, width: u8)
    ensures
        final(s)@ == old(s)@ + padded(n as nat, width as nat),
    decreases width,
{
    if width > 0 {
        append_padded(s, n / 10, width - 1);
        push_char(s, digit_of((n % 10) as u8));
        assert(s@ =~= old(s)@ + padded(n as nat, width as nat));
    } else {
        assert(s@ =~= old(s)@ + padded(n as nat, width as nat));
    }
}

/// Appends a fraction of `width` places without its trailing zeros.
fn append_fraction(s: &mut String, f: u128, width: u8)
    ensures
        final(s)@ == old(s)@ + fraction_text(f as nat, width as nat),
    decreases width,
{
    if width == 0 || f == 0 {
        assert(s@ =~= old(s)@ + fraction_text(f as nat, width as nat));
    } else if f % 10 == 0 {
        append_fraction(s, f / 10, width - 1);
    } else {
        append_padded(s, f, width);
    }
}

/// Appends the decimal text of `i`.
pub(crate) fn append_int(s: &mut String, i: i64)
    ensures
        final(s)@ == old(s)@ + int_text(i as int),
{
    if i < 0 {
        push_char(s, '-');
        let m: u128 = (-(i as i128)) as u128;
        append_nat(s, m);
        assert(s@ =~= old(s)@ + int_text(i as int));
    } else {
        append_nat(s, i as u128);
    }
}

/// Appends the shortest decimal text of `v`.
pub(crate) fn append_plain(s: &mut String, v: Value)
    ensures
        final(s)@ == old(s)@ + plain_text(v@),
{
    let wide: i128 = v.micros as i128;
    let m: u128 = if wide < 0 { (-wide) as u128 } else { wide as u128 };
    if wide < 0 {
        push_char(s, '-');
    }
    append_nat(s, m / 1_000_000);
    let fraction: u128 = m % 1_000_000;
    if fraction != 0 {
        push_char(s, '.');
        append_fraction(s, fraction, 6);
    }
    assert(s@ =~= old(s)@ + plain_text(v@));
}

/// Appends the two-decimal text of `v`.
pub(crate) fn append_fixed2(s: &mut String, v: Value)
    ensures
        final(s)@ == old(s)@ + fixed2_text(v@),
{
    let wide: i128 = v.micros as i128;
    let m: u128 = if wide < 0 { (-wide) as u128 } else { wide as u128 };
    let q: u128 = m / 10_000;
    let cents: u128 = if 2 * (m % 10_000) >= 10_000 { q + 1 } else { q };
    assert(cents == if wide < 0 { -round_div(v@, 10_000) } else { round_div(v@, 10_000) });
    if wide < 0 && cents > 0 {
        push_char(s, '-');
    }
    append_nat(s, cents / 100);
    push_char(s, '.');
    append_padded(s, cents % 100, 2);
    assert(s@ =~= old(s)@ + fixed2_text(v@));
}

/// Appends the two-decimal texts of `values`, with `sep` between neighbours.
pub(crate) fn append_joined_fixed2(s: &mut String, values: &Vec<Value>, sep: &str)
    ensures
        final(s)@ == old(s)@ + joined_fixed2(values@, sep@),
{
    let mut i: usize = 0;
    assert(s@ =~= old(s)@ + joined_fixed2(values@.take(0), sep@));
    while i < values.len()
        invariant
            0 <= i <= values.len(),
            s@ == old(s)@ + joined_fixed2(values@.take(i as int), sep@),
        decreases values.len() - i,
    {
        if i > 0 {
            s.append(sep);
        }
        append_fixed2(s, values[i]);
        proof {
            let next = values@.take(i + 1);
            assert(next.drop_last() =~= values@.take(i as int));
            assert(next.last() == values@[i as int]);
            assert(s@ =~= old(s)@ + joined_fixed2(next, sep@));
        }
        i = i + 1;
    }
    assert(values@.take(values.len() as int) =~= values@);
}

impl Value {
    /// The shortest decimal text of this amount.
    pub fn to_text(&self) -> (r: String)
        ensures
            r@ == plain_text(self@),
    {
        let mut s = String::new();
        append_plain(&mut s, *self);
        assert(s@ =~= plain_text(self@));
        s
    }

    /// The text of this amount with two decimal places.
    pub fn to_fixed2(&self) -> (r: String)
        ensures
            r@ == fixed2_text(self@),
    {
        let mut s = String::new();
        append_fixed2(&mut s, *self);
        assert(s@ =~= fixed2_text(self@));
        s
    }
}

} // verus!
