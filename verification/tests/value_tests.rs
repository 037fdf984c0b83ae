use pricing_engine::Value;

#[test]
fn whole_amounts_are_scaled_to_micro_units() {
    assert_eq!(Value::from_int(2).to_micros(), 2_000_000);
    assert_eq!(Value::from_int(-7).to_micros(), -7_000_000);
    assert_eq!(Value::zero().to_micros(), 0);
    assert_eq!(Value::from_micros(1_500_000).to_micros(), 1_500_000);
}

#[test]
fn products_are_rounded_to_the_micro_unit() {
    let half = Value::from_micros(500_000);
    assert_eq!(
        Value::from_micros(2_500_000).checked_mul(Value::from_int(10)),
        Some(Value::from_int(25))
    );
    // 0.000001 * 0.5 is half a micro-unit: away from zero.
    assert_eq!(Value::from_micros(1).checked_mul(half), Some(Value::from_micros(1)));
    assert_eq!(Value::from_micros(-1).checked_mul(half), Some(Value::from_micros(-1)));
    // 0.000003 * 0.1 is 0.3 micro-units: down.
    assert_eq!(
        Value::from_micros(3).checked_mul(Value::from_micros(100_000)),
        Some(Value::zero())
    );
    assert_eq!(Value::from_micros(i64::MAX).checked_mul(Value::from_int(2)), None);
    assert_eq!(
        Value::from_micros(i64::MIN).checked_mul(Value::from_micros(i64::MIN)),
        None
    );
}

#[test]
fn quotients_are_rounded_to_the_micro_unit() {
    assert_eq!(
        Value::from_int(10).checked_div(Value::from_int(3)),
        Some(Value::from_micros(3_333_333))
    );
    assert_eq!(
        Value::from_int(2).checked_div(Value::from_int(3)),
        Some(Value::from_micros(666_667))
    );
    assert_eq!(
        Value::from_int(-2).checked_div(Value::from_int(3)),
        Some(Value::from_micros(-666_667))
    );
    assert_eq!(
        Value::from_int(1).checked_div(Value::from_int(-3)),
        Some(Value::from_micros(-333_333))
    );
    assert_eq!(
        Value::from_int(10).checked_div(Value::from_int(4)),
        Some(Value::from_micros(2_500_000))
    );
    assert_eq!(Value::from_micros(i64::MAX).checked_div(Value::from_micros(1)), None);
    assert_eq!(Value::from_int(1).checked_div(Value::zero()), None);
    assert_eq!(Value::zero().checked_div(Value::zero()), None);
}

#[test]
fn percentages_are_taken_in_one_rounding() {
    assert_eq!(
        Value::from_int(300).checked_percent(Value::from_int(15)),
        Some(Value::from_int(45))
    );
    assert_eq!(
        Value::from_micros(1).checked_percent(Value::from_int(50)),
        Some(Value::from_micros(1))
    );
    assert_eq!(
        Value::from_int(-200).checked_percent(Value::from_micros(12_500_000)),
        Some(Value::from_int(-25))
    );
}

#[test]
fn rounding_goes_half_away_from_zero() {
    let v = Value::from_micros(2_345_000);
    assert_eq!(v.checked_round(2), Some(Value::from_micros(2_350_000)));
    assert_eq!(v.checked_round(1), Some(Value::from_micros(2_300_000)));
    assert_eq!(v.checked_round(0), Some(Value::from_int(2)));
    assert_eq!(Value::from_micros(2_500_000).checked_round(0), Some(Value::from_int(3)));
    assert_eq!(Value::from_micros(-2_500_000).checked_round(0), Some(Value::from_int(-3)));
    assert_eq!(
        Value::from_micros(-2_345_000).checked_round(2),
        Some(Value::from_micros(-2_350_000))
    );
}

#[test]
fn rounding_to_six_or_more_places_changes_nothing() {
    let v = Value::from_micros(1_234_567);
    assert_eq!(v.checked_round(6), Some(v));
    assert_eq!(v.checked_round(9), Some(v));
    assert_eq!(v.checked_round(i32::MAX), Some(v));
}

#[test]
fn rounding_to_negative_places_rounds_to_tens_and_hundreds() {
    let v = Value::from_micros(1_250_000_000);
    assert_eq!(v.checked_round(-2), Some(Value::from_int(1300)));
    assert_eq!(v.checked_round(-1), Some(Value::from_int(1250)));
    assert_eq!(Value::from_int(1249).checked_round(-2), Some(Value::from_int(1200)));
    assert_eq!(v.checked_round(-20), Some(Value::zero()));
    assert_eq!(v.checked_round(i32::MIN), Some(Value::zero()));
    // 9.2e12 units rounded to 1e13: out of range.
    assert_eq!(Value::from_micros(i64::MAX).checked_round(-13), None);
    assert_eq!(Value::from_micros(i64::MAX).checked_round(-14), Some(Value::zero()));
}

#[test]
fn truncation_cuts_toward_zero() {
    assert_eq!(Value::from_micros(2_900_000).truncate(), 2);
    assert_eq!(Value::from_micros(-2_900_000).truncate(), -2);
    assert_eq!(Value::from_micros(999_999).truncate(), 0);
    assert_eq!(Value::from_micros(i64::MAX).truncate(), i32::MAX);
    assert_eq!(Value::from_micros(i64::MIN).truncate(), i32::MIN);
}

#[test]
fn plain_text_is_the_shortest_decimal() {
    assert_eq!(Value::from_int(2).to_text(), "2");
    assert_eq!(Value::zero().to_text(), "0");
    assert_eq!(Value::from_micros(-500_000).to_text(), "-0.5");
    assert_eq!(Value::from_micros(3_141_593).to_text(), "3.141593");
    assert_eq!(Value::from_micros(100_250_000).to_text(), "100.25");
    assert_eq!(Value::from_micros(1_000_001).to_text(), "1.000001");
    assert_eq!(Value::from_micros(10_100_000).to_text(), "10.1");
    assert_eq!(Value::from_micros(i64::MIN).to_text(), "-9223372036854.775808");
}

#[test]
fn fixed_text_has_two_decimals() {
    assert_eq!(Value::from_int(20).to_fixed2(), "20.00");
    assert_eq!(Value::from_micros(1_234_500_000).to_fixed2(), "1234.50");
    assert_eq!(Value::from_micros(-125_000).to_fixed2(), "-0.13");
    assert_eq!(Value::from_micros(125_000).to_fixed2(), "0.13");
    assert_eq!(Value::from_micros(124_999).to_fixed2(), "0.12");
    assert_eq!(Value::from_micros(-4_000).to_fixed2(), "0.00");
    assert_eq!(Value::from_micros(1_005_000).to_fixed2(), "1.01");
    assert_eq!(Value::from_micros(9_999_999).to_fixed2(), "10.00");
}
