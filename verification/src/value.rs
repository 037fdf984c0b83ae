use vstd::prelude::*;

verus! {

/// Number of micro-units in one unit: amounts carry six decimal places.
pub const SCALE: i64 = 1_000_000;

/// An exact decimal amount, held as a whole number of micro-units.
///
/// The view of a `Value` is that number of micro-units, so the amount `1.5`
/// has the view `1_500_000`. Sums and differences are exact; products and
/// quotients are rounded to the nearest micro-unit, halves away from zero.
#[derive(Clone, Copy, Debug, PartialEq, Eq, Structural)]
pub struct Value {
    pub micros: i64,
}

impl View for Value {
    type V = int;

    open spec fn view(&self) -> int {
        self.micros as int
    }
}

/// Whether `x` micro-units can be held by a `Value`.
pub open spec fn in_range(x: int) -> bool {
    i64::MIN <= x <= i64::MAX
}

/// `n / d` rounded to the nearest integer, halves away from zero (for `d > 0`).
pub open spec fn round_div(n: int, d: int) -> int {
    if n >= 0 {
        n / d + if 2 * (n % d) >= d { 1int } else { 0int }
    } else {
        -((-n) / d + if 2 * ((-n) % d) >= d { 1int } else { 0int })
    }
}

/// The product of two amounts, in micro-units.
pub open spec fn product(a: int, b: int) -> int {
    round_div(a * b, SCALE as int)
}

/// The quotient of two amounts, in micro-units (for `b != 0`).
pub open spec fn quotient(a: int, b: int) -> int {
    if b > 0 {
        round_div(a * SCALE, b)
    } else {
        round_div(-(a * SCALE), -b)
    }
}

/// `percent` per cent of the amount `a`, in micro-units.
pub open spec fn percent_share(a: int, percent: int) -> int {
    round_div(a * percent, 100 * SCALE)
}

/// Ten to the power `e`.
pub open spec fn pow10(e: nat) -> int
    decreases e,
{
    if e == 0 {
        1
    } else {
        10 * pow10((e - 1) as nat)
    }
}

/// The amount `v` rounded to `decimals` decimal places, halves away from zero.
/// Six or more places leave an amount unchanged; a negative count rounds to
/// tens, hundreds and so on.
pub open spec fn rounded(v: int, decimals: int) -> int {
    if decimals >= 6 {
        v
    } else {
        round_div(v, pow10((6 - decimals) as nat)) * pow10((6 - decimals) as nat)
    }
}

/// The whole part of the amount `v`, the fraction cut off toward zero,
/// limited to what an `i32` holds.
pub open spec fn truncated(v: int) -> int {
    let whole = if v >= 0 { v / (SCALE as int) } else { -((-v) / (SCALE as int)) };
    if whole > i32::MAX {
        i32::MAX as int
    } else if whole < i32::MIN {
        i32::MIN as int
    } else {
        whole
    }
}

proof fn lemma_pow10_grows(a: nat, b: nat)
    requires
        a <= b,
    ensures
        0 < pow10(a) <= pow10(b),
    decreases b,
{
    if b == 0 {
    } else if a == b {
        lemma_pow10_grows((a - 1) as nat, (b - 1) as nat);
    } else {
        lemma_pow10_grows(a, (b - 1) as nat);
    }
}

proof fn lemma_pow10_values()
    ensures
        pow10(19) == 10_000_000_000_000_000_000,
        pow10(20) == 100_000_000_000_000_000_000,
{
    assert(pow10(0) == 1);
    assert(pow10(1) == 10);
    assert(pow10(2) == 100);
    assert(pow10(3) == 1_000);
    assert(pow10(4) == 10_000);
    assert(pow10(5) == 100_000);
    assert(pow10(6) == 1_000_000);
    assert(pow10(7) == 10_000_000);
    assert(pow10(8) == 100_000_000);
    assert(pow10(9) == 1_000_000_000);
    assert(pow10(10) == 10_000_000_000);
    assert(pow10(11) == 100_000_000_000);
    assert(pow10(12) == 1_000_000_000_000);
    assert(pow10(13) == 10_000_000_000_000);
    assert(pow10(14) == 100_000_000_000_000);
    assert(pow10(15) == 1_000_000_000_000_000);
    assert(pow10(16) == 10_000_000_000_000_000);
    assert(pow10(17) == 100_000_000_000_000_000);
    assert(pow10(18) == 1_000_000_000_000_000_000);
    assert(pow10(19) == 10_000_000_000_000_000_000);
    assert(pow10(20) == 100_000_000_000_000_000_000);
}

proof fn lemma_round_div_bounds(n: int, d: int)
    requires
        d > 0,
    ensures
        n >= 0 ==> 0 <= round_div(n, d) <= n / d + 1,
        n < 0 ==> -((-n) / d) - 1 <= round_div(n, d) <= 0,
        2 * n < d && 2 * -n < d ==> round_div(n, d) == 0,
{
    if n >= 0 {
        vstd::arithmetic::div_mod::lemma_div_pos_is_pos(n, d);
        if 2 * n < d {
            vstd::arithmetic::div_mod::lemma_small_mod(n as nat, d as nat);
            vstd::arithmetic::div_mod::lemma_basic_div(n, d);
        }
    } else {
        vstd::arithmetic::div_mod::lemma_div_pos_is_pos(-n, d);
        if 2 * -n < d {
            vstd::arithmetic::div_mod::lemma_small_mod((-n) as nat, d as nat);
            vstd::arithmetic::div_mod::lemma_basic_div(-n, d);
        }
    }
}

/// `n / d` rounded half away from zero, for a numerator given by its sign
/// and its magnitude.
fn round_div_exec(negative: bool, magnitude: u128, d: u128) -> (r: i128)
    requires
        d > 0,
        magnitude <= 0x4000_0000_0000_0000_0000_0000_0000_0000,
        d <= 0x2000_0000_0000_0000_0000_0000_0000_0000,
    ensures
        r == round_div(if negative { -(magnitude as int) } else { magnitude as int }, d as int),
{
    let q: u128 = magnitude / d;
    let rem: u128 = magnitude % d;
    proof {
        vstd::arithmetic::div_mod::lemma_div_pos_is_pos(magnitude as int, d as int);
        vstd::arithmetic::div_mod::lemma_div_is_ordered_by_denominator(
            magnitude as int,
            1,
            d as int,
        );
        vstd::arithmetic::div_mod::lemma_div_basics(magnitude as int);
    }
    let up: u128 = if 2 * rem >= d { 1 } else { 0 };
    let m: u128 = q + up;
    proof {
        if magnitude == 0 {
            vstd::arithmetic::div_mod::lemma_basic_div(0, d as int);
            vstd::arithmetic::div_mod::lemma_small_mod(0, d as nat);
        }
    }
    if negative {
        -(m as i128)
    } else {
        m as i128
    }
}

impl Value {
    /// The amount of `micros` micro-units.
    pub fn from_micros(micros: i64) -> (r: Value)
        ensures
            r@ == micros,
    {
        Value { micros }
    }

    /// The whole amount `units`.
    pub fn from_int(units: i32) -> (r: Value)
        ensures
            r@ == units * SCALE,
    {
        let wide: i64 = units as i64;
        Value { micros: wide * SCALE }
    }

    /// The amount zero.
    pub fn zero() -> (r: Value)
        ensures
            r@ == 0,
    {
        Value { micros: 0 }
    }

    /// This amount in micro-units.
    pub fn to_micros(self) -> (m: i64)
        ensures
            m == self@,
    {
        self.micros
    }

    /// The amount of `wide` micro-units, if a `Value` can hold it.
    pub fn from_wide(wide: i128) -> (r: Option<Value>)
        ensures
            r is Some <==> in_range(wide as int),
            r matches Some(v) ==> v@ == wide,
    {
        if wide < i64::MIN as i128 || wide > i64::MAX as i128 {
            None
        } else {
            Some(Value { micros: wide as i64 })
        }
    }

    /// The product rounded to the nearest micro-unit, unless it is out of range.
    pub fn checked_mul(self, other: Value) -> (r: Option<Value>)
        ensures
            r is Some <==> in_range(product(self@, other@)),
            r matches Some(v) ==> v@ == product(self@, other@),
    {
        let a: i128 = self.micros as i128;
        let b: i128 = other.micros as i128;
        assert(-0x4000_0000_0000_0000_0000_0000_0000_0000 <= a * b
            <= 0x4000_0000_0000_0000_0000_0000_0000_0000) by (nonlinear_arith)
            requires
                -0x8000_0000_0000_0000 <= a <= 0x8000_0000_0000_0000,
                -0x8000_0000_0000_0000 <= b <= 0x8000_0000_0000_0000,
        ;
        let n: i128 = a * b;
        let negative: bool = n < 0;
        let magnitude: u128 = if negative { (-n) as u128 } else { n as u128 };
        Value::from_wide(round_div_exec(negative, magnitude, SCALE as u128))
    }

    /// The quotient rounded to the nearest micro-unit, unless the divisor
    /// is zero or the quotient is out of range.
    pub fn checked_div(self, other: Value) -> (r: Option<Value>)
        ensures
            r is Some <==> other@ != 0 && in_range(quotient(self@, other@)),
            r matches Some(v) ==> v@ == quotient(self@, other@),
    {
        if other.micros == 0 {
            return None;
        }
        let a: i128 = self.micros as i128;
        let b: i128 = other.micros as i128;
        let scaled: i128 = a * 1_000_000;
        let n: i128 = if b > 0 { scaled } else { -scaled };
        let d: i128 = if b > 0 { b } else { -b };
        let negative: bool = n < 0;
        let magnitude: u128 = if negative { (-n) as u128 } else { n as u128 };
        Value::from_wide(round_div_exec(negative, magnitude, d as u128))
    }

    /// `percent` per cent of this amount, unless it is out of range.
    pub fn checked_percent(self, percent: Value) -> (r: Option<Value>)
        ensures
            r is Some <==> in_range(percent_share(self@, percent@)),
            r matches Some(v) ==> v@ == percent_share(self@, percent@),
    {
        let a: i128 = self.micros as i128;
        let b: i128 = percent.micros as i128;
        assert(-0x4000_0000_0000_0000_0000_0000_0000_0000 <= a * b
            <= 0x4000_0000_0000_0000_0000_0000_0000_0000) by (nonlinear_arith)
            requires
                -0x8000_0000_0000_0000 <= a <= 0x8000_0000_0000_0000,
                -0x8000_0000_0000_0000 <= b <= 0x8000_0000_0000_0000,
        ;
        let n: i128 = a * b;
        let negative: bool = n < 0;
        let magnitude: u128 = if negative { (-n) as u128 } else { n as u128 };
        Value::from_wide(round_div_exec(negative, magnitude, 100_000_000u128))
    }

    /// This amount rounded to `decimals` decimal places, unless the result
    /// is out of range.
    pub fn checked_round(self, decimals: i32) -> (r: Option<Value>)
        ensures
            r is Some <==> in_range(rounded(self@, decimals as int)),
            r matches Some(v) ==> v@ == rounded(self@, decimals as int),
    {
        if decimals >= 6 {
            return Some(self);
        }
        let places: i64 = 6 - decimals as i64;
        if places >= 20 {
            proof {
                let unit = pow10(places as nat);
                lemma_pow10_values();
                lemma_pow10_grows(20, places as nat);
                lemma_round_div_bounds(self@, unit);
                assert(round_div(self@, unit) == 0);
                assert(round_div(self@, unit) * unit == 0) by (nonlinear_arith)
                    requires
                        round_div(self@, unit) == 0,
                ;
            }
            return Some(Value { micros: 0 });
        }
        proof {
            lemma_pow10_values();
            lemma_pow10_grows(places as nat, 19);
        }
        let mut unit: u128 = 1;
        let mut k: i64 = 0;
        while k < places
            invariant
                0 <= k <= places < 20,
                unit == pow10(k as nat),
                unit <= pow10(places as nat),
                pow10(places as nat) <= 10_000_000_000_000_000_000,
            decreases places - k,
        {
            proof {
                lemma_pow10_grows((k + 1) as nat, places as nat);
                assert(pow10((k + 1) as nat) == 10 * pow10(k as nat));
            }
            unit = unit * 10;
            k = k + 1;
        }
        let v: i128 = self.micros as i128;
        let negative: bool = v < 0;
        let magnitude: u128 = if negative { (-v) as u128 } else { v as u128 };
        let q: i128 = round_div_exec(negative, magnitude, unit);
        proof {
            lemma_round_div_bounds(self@, unit as int);
            vstd::arithmetic::div_mod::lemma_div_is_ordered_by_denominator(
                magnitude as int,
                1,
                unit as int,
            );
            vstd::arithmetic::div_mod::lemma_div_basics(magnitude as int);
            assert(-0x8000_0000_0000_0001 <= q <= 0x8000_0000_0000_0001);
            assert(-0x7000_0000_0000_0000_0000_0000_0000_0000 <= q * (unit as i128)
                <= 0x7000_0000_0000_0000_0000_0000_0000_0000) by (nonlinear_arith)
                requires
                    -0x8000_0000_0000_0001 <= q <= 0x8000_0000_0000_0001,
                    0 < unit <= 10_000_000_000_000_000_000,
            ;
        }
        Value::from_wide(q * (unit as i128))
    }

    /// The whole part of this amount, cut off toward zero and limited to the
    /// range of `i32`.
    pub fn truncate(self) -> (r: i32)
        ensures
            r == truncated(self@),
    {
        let v: i128 = self.micros as i128;
        let whole: i128 = if v >= 0 {
            ((v as u128) / (SCALE as u128)) as i128
        } else {
            -((((-v) as u128) / (SCALE as u128)) as i128)
        };
        if whole > i32::MAX as i128 {
            i32::MAX
        } else if whole < i32::MIN as i128 {
            i32::MIN
        } else {
            whole as i32
        }
    }
}

} // verus!
