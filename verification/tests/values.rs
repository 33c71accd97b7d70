use fabula::model::{FromValue, IntoValue, Value, ValueError, ValueKind};
use fabula::num::{count_from_number, number_is_positive};

#[test]
fn string_round_trip() {
    let v = String::from("hello").into_value();
    assert_eq!(v, Value::StringValue(String::from("hello")));
    let back = String::from_value(v);
    assert_eq!(back, Ok(String::from("hello")));
}

#[test]
fn number_round_trip() {
    let bits = 1.5f32.to_bits();
    let v = bits.into_value();
    assert_eq!(v, Value::NumberValue(bits));
    let back = u32::from_value(v);
    assert_eq!(back, Ok(bits));
    assert_eq!(f32::from_bits(back.unwrap()), 1.5f32);
}

#[test]
fn bool_round_trip() {
    let v = true.into_value();
    assert_eq!(v, Value::BoolValue(true));
    assert_eq!(bool::from_value(v), Ok(true));
    assert_eq!(bool::from_value(false.into_value()), Ok(false));
}

#[test]
fn number_coerces_to_string() {
    let v = Value::NumberValue(1.5f32.to_bits());
    assert_eq!(String::from_value(v), Ok(String::from("1.5")));
}

#[test]
fn whole_number_coerces_without_fraction() {
    let v = Value::NumberValue(7.0f32.to_bits());
    assert_eq!(String::from_value(v), Ok(String::from("7")));
}

#[test]
fn bool_coerces_to_string() {
    assert_eq!(
        String::from_value(Value::BoolValue(true)),
        Ok(String::from("true"))
    );
    assert_eq!(
        String::from_value(Value::BoolValue(false)),
        Ok(String::from("false"))
    );
}

#[test]
fn string_does_not_coerce_to_number() {
    let v = Value::StringValue(String::from("1.5"));
    match u32::from_value(v) {
        Err(ValueError::UnexpectedType(kind, offending)) => {
            assert_eq!(kind, ValueKind::Number);
            assert_eq!(offending, Value::StringValue(String::from("1.5")));
        }
        other => panic!("expected a type error, got {:?}", other),
    }
}

#[test]
fn string_does_not_coerce_to_bool() {
    let v = Value::StringValue(String::from("true"));
    assert!(matches!(
        bool::from_value(v),
        Err(ValueError::UnexpectedType(ValueKind::Boolean, _))
    ));
}

#[test]
fn count_truncates_toward_zero() {
    assert_eq!(count_from_number(2.0f32.to_bits()), 2);
    assert_eq!(count_from_number(2.9f32.to_bits()), 2);
    assert_eq!(count_from_number(0.5f32.to_bits()), 0);
    assert_eq!(count_from_number(0.0f32.to_bits()), 0);
    assert_eq!(count_from_number((-3.5f32).to_bits()), 0);
    assert_eq!(count_from_number(16777215.0f32.to_bits()), 16777215);
    assert_eq!(count_from_number(f32::NAN.to_bits()), 0);
    assert_eq!(count_from_number(f32::INFINITY.to_bits()), usize::MAX);
    assert_eq!(count_from_number(f32::NEG_INFINITY.to_bits()), 0);
}

#[test]
fn count_matches_native_casts() {
    for x in [1.0f32, 100.25, 3e7, 1e20, 2.5e9, 123456.75] {
        assert_eq!(count_from_number(x.to_bits()), x as usize);
    }
}

#[test]
fn positivity_matches_native_comparison() {
    for x in [0.0f32, -0.0, 1.0, -1.0, 0.0001, f32::NAN, f32::INFINITY, f32::NEG_INFINITY] {
        assert_eq!(number_is_positive(x.to_bits()), x > 0.0);
    }
}
