use emit_web::num::{dec_string_signed, dec_string_unsigned, SAFE_MAGNITUDE};
use emit_web::ser::serialize;
use emit_web::value::{DynamicValue, Value};

#[test]
fn safe_integer_is_plain_number() {
    match serialize(&Value::Signed(SAFE_MAGNITUDE)) {
        Ok(DynamicValue::Number(n)) => assert_eq!(n, 9007199254740991),
        _ => panic!("expected a plain number"),
    }
    match serialize(&Value::Signed(-SAFE_MAGNITUDE)) {
        Ok(DynamicValue::Number(n)) => assert_eq!(n, -9007199254740991),
        _ => panic!("expected a plain number"),
    }
    match serialize(&Value::Unsigned(SAFE_MAGNITUDE as u128)) {
        Ok(DynamicValue::Number(n)) => assert_eq!(n, 9007199254740991),
        _ => panic!("expected a plain number"),
    }
}

#[test]
fn above_threshold_is_big_number() {
    match serialize(&Value::Signed(SAFE_MAGNITUDE + 1)) {
        Ok(DynamicValue::BigNumber(s)) => assert_eq!(s, "9007199254740992"),
        _ => panic!("expected a big number"),
    }
    match serialize(&Value::Signed(-SAFE_MAGNITUDE - 1)) {
        Ok(DynamicValue::BigNumber(s)) => assert_eq!(s, "-9007199254740992"),
        _ => panic!("expected a big number"),
    }
    match serialize(&Value::Unsigned(SAFE_MAGNITUDE as u128 + 1)) {
        Ok(DynamicValue::BigNumber(s)) => assert_eq!(s, "9007199254740992"),
        _ => panic!("expected a big number"),
    }
}

#[test]
fn extreme_signed_big_number() {
    match serialize(&Value::Signed(i128::MIN)) {
        Ok(DynamicValue::BigNumber(s)) => {
            assert_eq!(s, "-170141183460469231731687303715884105728")
        }
        _ => panic!("expected a big number"),
    }
    match serialize(&Value::Signed(i128::MAX)) {
        Ok(DynamicValue::BigNumber(s)) => {
            assert_eq!(s, "170141183460469231731687303715884105727")
        }
        _ => panic!("expected a big number"),
    }
    match serialize(&Value::Unsigned(u128::MAX)) {
        Ok(DynamicValue::BigNumber(s)) => {
            assert_eq!(s, "340282366920938463463374607431768211455")
        }
        _ => panic!("expected a big number"),
    }
}

#[test]
fn zero_and_small_numbers() {
    match serialize(&Value::Signed(0)) {
        Ok(DynamicValue::Number(n)) => assert_eq!(n, 0),
        _ => panic!("expected zero"),
    }
    match serialize(&Value::Unsigned(255)) {
        Ok(DynamicValue::Number(n)) => assert_eq!(n, 255),
        _ => panic!("expected a plain number"),
    }
    match serialize(&Value::Signed(-1)) {
        Ok(DynamicValue::Number(n)) => assert_eq!(n, -1),
        _ => panic!("expected a plain number"),
    }
}

#[test]
fn decimal_strings_exact() {
    assert_eq!(dec_string_unsigned(0), "0");
    assert_eq!(dec_string_unsigned(10), "10");
    assert_eq!(dec_string_unsigned(1000000), "1000000");
    assert_eq!(dec_string_unsigned(18446744073709551616), "18446744073709551616");
    assert_eq!(dec_string_signed(-305), "-305");
    assert_eq!(dec_string_signed(7), "7");
    assert_eq!(dec_string_signed(-10), "-10");
}
