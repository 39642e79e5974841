use emit_web::builder::{coerce_key, wrap_variant, ArrayBuilder, ObjectBuilder};
use emit_web::error::SerializeError;
use emit_web::ser::serialize;
use emit_web::value::{DynamicValue, Value};

#[test]
fn value_without_key_fails() {
    let mut builder = ObjectBuilder::new();
    match builder.supply_value(DynamicValue::Bool(true)) {
        Err(SerializeError::MissingKey) => {}
        _ => panic!("expected the missing-key error"),
    }
}

#[test]
fn finalize_with_pending_key_fails() {
    let mut builder = ObjectBuilder::new();
    builder.supply_key(String::from("dangling"));
    match builder.finish() {
        Err(SerializeError::PendingKey) => {}
        _ => panic!("expected the pending-key error"),
    }
}

#[test]
fn alternating_keys_and_values_build_an_object() {
    let mut builder = ObjectBuilder::new();
    builder.supply_key(String::from("a"));
    builder.supply_value(DynamicValue::Number(1)).unwrap();
    builder.supply_key(String::from("b"));
    builder.supply_value(DynamicValue::Number(2)).unwrap();
    match builder.finish() {
        Ok(DynamicValue::Object(entries)) => {
            assert_eq!(entries.len(), 2);
            assert_eq!(entries[0].0, "a");
            assert!(matches!(entries[0].1, DynamicValue::Number(1)));
            assert_eq!(entries[1].0, "b");
            assert!(matches!(entries[1].1, DynamicValue::Number(2)));
        }
        _ => panic!("expected an object"),
    }
}

#[test]
fn last_key_wins_overwrite() {
    let mut builder = ObjectBuilder::new();
    builder.supply_key(String::from("dropped"));
    builder.supply_key(String::from("kept"));
    builder.supply_value(DynamicValue::Null).unwrap();
    match builder.finish() {
        Ok(DynamicValue::Object(entries)) => {
            assert_eq!(entries.len(), 1);
            assert_eq!(entries[0].0, "kept");
        }
        _ => panic!("expected an object"),
    }
}

#[test]
fn builder_array_accumulates() {
    let mut builder = ArrayBuilder::new();
    builder.push(DynamicValue::Null);
    builder.push(DynamicValue::Bool(false));
    match builder.finish() {
        DynamicValue::Array(items) => {
            assert_eq!(items.len(), 2);
            assert!(matches!(items[0], DynamicValue::Null));
            assert!(matches!(items[1], DynamicValue::Bool(false)));
        }
        _ => panic!("expected an array"),
    }
}

#[test]
fn wrap_variant_single_key() {
    match wrap_variant(String::from("Case"), DynamicValue::Number(5)) {
        DynamicValue::Object(entries) => {
            assert_eq!(entries.len(), 1);
            assert_eq!(entries[0].0, "Case");
            assert!(matches!(entries[0].1, DynamicValue::Number(5)));
        }
        _ => panic!("expected a single-key object"),
    }
}

#[test]
fn map_keys_coerced_to_strings() {
    let v = Value::Mapping(vec![
        (Value::Signed(1), Value::Bool(true)),
        (Value::Bool(true), Value::Signed(2)),
        (Value::Unit, Value::Signed(3)),
        (Value::Character('k'), Value::Signed(4)),
        (Value::Unsigned(9007199254740993), Value::Signed(5)),
    ]);
    match serialize(&v) {
        Ok(DynamicValue::Object(entries)) => {
            assert_eq!(entries.len(), 5);
            assert_eq!(entries[0].0, "1");
            assert_eq!(entries[1].0, "true");
            assert_eq!(entries[2].0, "null");
            assert_eq!(entries[3].0, "k");
            assert_eq!(entries[4].0, "9007199254740993");
        }
        _ => panic!("expected an object"),
    }
}

#[test]
fn composite_map_key_rejected() {
    let v = Value::Mapping(vec![(
        Value::Sequence(vec![Value::Signed(1)]),
        Value::Bool(true),
    )]);
    match serialize(&v) {
        Err(SerializeError::InvalidKey) => {}
        _ => panic!("expected the invalid-key error"),
    }
    let v = Value::Mapping(vec![(Value::Bytes(vec![1]), Value::Bool(true))]);
    match serialize(&v) {
        Err(SerializeError::InvalidKey) => {}
        _ => panic!("expected the invalid-key error"),
    }
}

#[test]
fn coerce_key_direct() {
    assert_eq!(coerce_key(DynamicValue::Number(-42)).unwrap(), "-42");
    assert_eq!(coerce_key(DynamicValue::Bool(false)).unwrap(), "false");
    assert_eq!(
        coerce_key(DynamicValue::Text(String::from("plain"))).unwrap(),
        "plain"
    );
    assert_eq!(
        coerce_key(DynamicValue::BigNumber(String::from("123456789012345678901"))).unwrap(),
        "123456789012345678901"
    );
    assert!(matches!(
        coerce_key(DynamicValue::Object(Vec::new())),
        Err(SerializeError::InvalidKey)
    ));
}

#[test]
fn optional_and_named_keys_coerced() {
    let v = Value::Mapping(vec![
        (
            Value::Present(Box::new(Value::Text(String::from("wrapped")))),
            Value::Signed(1),
        ),
        (Value::UnitVariant(String::from("Case")), Value::Signed(2)),
        (Value::NamedUnit(String::from("Marker")), Value::Signed(3)),
        (Value::Absent, Value::Signed(4)),
    ]);
    match serialize(&v) {
        Ok(DynamicValue::Object(entries)) => {
            assert_eq!(entries.len(), 4);
            assert_eq!(entries[0].0, "wrapped");
            assert_eq!(entries[1].0, "Case");
            assert_eq!(entries[2].0, "Marker");
            assert_eq!(entries[3].0, "null");
        }
        _ => panic!("expected an object"),
    }
}

#[test]
fn failing_map_key_aborts_whole_map() {
    let v = Value::Mapping(vec![(
        Value::Unserializable(String::from("bad key")),
        Value::Bool(true),
    )]);
    match serialize(&v) {
        Err(SerializeError::Custom(msg)) => assert_eq!(msg, "bad key"),
        _ => panic!("expected the key's failure"),
    }
}
