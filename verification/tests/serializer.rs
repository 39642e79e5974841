use emit_web::error::SerializeError;
use emit_web::ser::serialize;
use emit_web::value::{DynamicValue, Value};

fn text(s: &str) -> Value {
    Value::Text(String::from(s))
}

#[test]
fn bool_and_string_scalars() {
    match serialize(&Value::Bool(true)) {
        Ok(DynamicValue::Bool(b)) => assert!(b),
        _ => panic!("expected a boolean"),
    }
    match serialize(&text("hello")) {
        Ok(DynamicValue::Text(s)) => assert_eq!(s, "hello"),
        _ => panic!("expected a string"),
    }
}

#[test]
fn character_is_one_char_string() {
    match serialize(&Value::Character('x')) {
        Ok(DynamicValue::Text(s)) => assert_eq!(s, "x"),
        _ => panic!("expected a string"),
    }
}

#[test]
fn bytes_are_byte_buffer() {
    match serialize(&Value::Bytes(vec![1, 2, 3])) {
        Ok(DynamicValue::Bytes(b)) => assert_eq!(b, vec![1, 2, 3]),
        _ => panic!("expected a byte buffer"),
    }
}

#[test]
fn named_unit_is_name_string() {
    match serialize(&Value::NamedUnit(String::from("Marker"))) {
        Ok(DynamicValue::Text(s)) => assert_eq!(s, "Marker"),
        _ => panic!("expected the marker name"),
    }
}

#[test]
fn option_collapse_to_null() {
    assert!(matches!(serialize(&Value::Unit), Ok(DynamicValue::Null)));
    assert!(matches!(serialize(&Value::Absent), Ok(DynamicValue::Null)));
}

#[test]
fn present_serializes_as_inner() {
    let wrapped = serialize(&Value::Present(Box::new(Value::Signed(7)))).unwrap();
    let plain = serialize(&Value::Signed(7)).unwrap();
    match (wrapped, plain) {
        (DynamicValue::Number(a), DynamicValue::Number(b)) => assert_eq!(a, b),
        _ => panic!("expected matching numbers"),
    }
}

#[test]
fn sequence_shape_preserved() {
    let v = Value::Sequence(vec![Value::Bool(false), Value::Signed(2), text("three")]);
    match serialize(&v) {
        Ok(DynamicValue::Array(items)) => {
            assert_eq!(items.len(), 3);
            assert!(matches!(items[0], DynamicValue::Bool(false)));
            assert!(matches!(items[1], DynamicValue::Number(2)));
            match &items[2] {
                DynamicValue::Text(s) => assert_eq!(s, "three"),
                _ => panic!("expected a string element"),
            }
        }
        _ => panic!("expected an array"),
    }
}

#[test]
fn empty_sequence_is_empty_array() {
    match serialize(&Value::Sequence(Vec::new())) {
        Ok(DynamicValue::Array(items)) => assert!(items.is_empty()),
        _ => panic!("expected an empty array"),
    }
}

#[test]
fn empty_mapping_is_empty_object() {
    match serialize(&Value::Mapping(Vec::new())) {
        Ok(DynamicValue::Object(entries)) => assert!(entries.is_empty()),
        _ => panic!("expected an empty object"),
    }
}

#[test]
fn record_shape_preserved() {
    let v = Value::Record(vec![
        (String::from("first"), Value::Signed(1)),
        (String::from("second"), Value::Bool(true)),
    ]);
    match serialize(&v) {
        Ok(DynamicValue::Object(entries)) => {
            assert_eq!(entries.len(), 2);
            assert_eq!(entries[0].0, "first");
            assert!(matches!(entries[0].1, DynamicValue::Number(1)));
            assert_eq!(entries[1].0, "second");
            assert!(matches!(entries[1].1, DynamicValue::Bool(true)));
        }
        _ => panic!("expected an object"),
    }
}

#[test]
fn record_with_nested_map_preserves_order() {
    let v = Value::Record(vec![
        (String::from("name"), text("event")),
        (
            String::from("data"),
            Value::Mapping(vec![
                (text("c"), Value::Signed(1)),
                (text("d"), Value::Signed(2)),
            ]),
        ),
    ]);
    match serialize(&v) {
        Ok(DynamicValue::Object(entries)) => {
            assert_eq!(entries.len(), 2);
            assert_eq!(entries[0].0, "name");
            match &entries[0].1 {
                DynamicValue::Text(s) => assert_eq!(s, "event"),
                _ => panic!("expected the event name"),
            }
            assert_eq!(entries[1].0, "data");
            match &entries[1].1 {
                DynamicValue::Object(inner) => {
                    assert_eq!(inner.len(), 2);
                    assert_eq!(inner[0].0, "c");
                    assert!(matches!(inner[0].1, DynamicValue::Number(1)));
                    assert_eq!(inner[1].0, "d");
                    assert!(matches!(inner[1].1, DynamicValue::Number(2)));
                }
                _ => panic!("expected a nested object"),
            }
        }
        _ => panic!("expected an object"),
    }
}

#[test]
fn unit_variant_yields_name_string() {
    match serialize(&Value::UnitVariant(String::from("Foo"))) {
        Ok(DynamicValue::Text(s)) => assert_eq!(s, "Foo"),
        _ => panic!("expected the case name"),
    }
}

#[test]
fn newtype_variant_wraps_single_key() {
    let v = Value::NewtypeVariant(String::from("Bar"), Box::new(Value::Signed(42)));
    match serialize(&v) {
        Ok(DynamicValue::Object(entries)) => {
            assert_eq!(entries.len(), 1);
            assert_eq!(entries[0].0, "Bar");
            assert!(matches!(entries[0].1, DynamicValue::Number(42)));
        }
        _ => panic!("expected a single-key object"),
    }
}

#[test]
fn tuple_variant_wraps_array() {
    let v = Value::TupleVariant(String::from("Baz"), vec![Value::Signed(1), Value::Signed(2)]);
    match serialize(&v) {
        Ok(DynamicValue::Object(entries)) => {
            assert_eq!(entries.len(), 1);
            assert_eq!(entries[0].0, "Baz");
            match &entries[0].1 {
                DynamicValue::Array(items) => {
                    assert_eq!(items.len(), 2);
                    assert!(matches!(items[0], DynamicValue::Number(1)));
                    assert!(matches!(items[1], DynamicValue::Number(2)));
                }
                _ => panic!("expected the payload array"),
            }
        }
        _ => panic!("expected a single-key object"),
    }
}

#[test]
fn struct_variant_wraps_object() {
    let v = Value::StructVariant(
        String::from("Qux"),
        vec![
            (String::from("a"), Value::Signed(1)),
            (String::from("b"), Value::Signed(2)),
        ],
    );
    match serialize(&v) {
        Ok(DynamicValue::Object(entries)) => {
            assert_eq!(entries.len(), 1);
            assert_eq!(entries[0].0, "Qux");
            match &entries[0].1 {
                DynamicValue::Object(inner) => {
                    assert_eq!(inner.len(), 2);
                    assert_eq!(inner[0].0, "a");
                    assert!(matches!(inner[0].1, DynamicValue::Number(1)));
                    assert_eq!(inner[1].0, "b");
                    assert!(matches!(inner[1].1, DynamicValue::Number(2)));
                }
                _ => panic!("expected the payload object"),
            }
        }
        _ => panic!("expected a single-key object"),
    }
}

#[test]
fn failing_child_aborts_whole_sequence() {
    let v = Value::Sequence(vec![
        Value::Signed(1),
        Value::Unserializable(String::from("boom")),
        Value::Signed(3),
    ]);
    match serialize(&v) {
        Err(SerializeError::Custom(msg)) => assert_eq!(msg, "boom"),
        _ => panic!("expected the child's failure"),
    }
}

#[test]
fn failing_field_aborts_whole_record() {
    let v = Value::Record(vec![
        (String::from("ok"), Value::Bool(true)),
        (
            String::from("bad"),
            Value::Unserializable(String::from("nope")),
        ),
    ]);
    match serialize(&v) {
        Err(SerializeError::Custom(msg)) => assert_eq!(msg, "nope"),
        _ => panic!("expected the field's failure"),
    }
}

#[test]
fn error_message_text() {
    let err = serialize(&Value::Unserializable(String::from("details"))).unwrap_err();
    assert_eq!(err.message(), "details");
}
