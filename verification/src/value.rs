//! The structured input values and the dynamic output values of the engine.

use vstd::prelude::*;

verus! {

/// A structured value: the statically shaped input tree that the engine
/// serializes. The shape set is closed, so dispatch is exhaustive.
#[derive(Debug)]
pub enum Value {
    /// A boolean scalar.
    Bool(bool),
    /// A signed integer scalar of any width up to 128 bits, widened.
    Signed(i128),
    /// An unsigned integer scalar of any width up to 128 bits, widened.
    Unsigned(u128),
    /// A single character scalar.
    Character(char),
    /// A string scalar.
    Text(String),
    /// A byte-sequence scalar.
    Bytes(Vec<u8>),
    /// The anonymous unit: "no value".
    Unit,
    /// A named empty marker (a unit struct): encodes to its name as a string.
    NamedUnit(String),
    /// An option holding nothing.
    Absent,
    /// An option holding a value, which serializes as the value alone.
    Present(Box<Value>),
    /// An ordered list of values: a sequence or a fixed-size tuple.
    Sequence(Vec<Value>),
    /// An ordered list of key/value pairs whose keys are themselves values.
    Mapping(Vec<(Value, Value)>),
    /// An ordered list of statically named fields.
    Record(Vec<(String, Value)>),
    /// A tagged-union case with no payload: encodes to the case name.
    UnitVariant(String),
    /// A tagged-union case with one unnamed payload value.
    NewtypeVariant(String, Box<Value>),
    /// A tagged-union case with an ordered list of unnamed payload values.
    TupleVariant(String, Vec<Value>),
    /// A tagged-union case with named payload fields.
    StructVariant(String, Vec<(String, Value)>),
    /// A child value whose own serializer refuses to serialize it, reporting
    /// this message. Serializing it always fails.
    Unserializable(String),
}

/// The mathematical model of a [`Value`]: the same shapes over `Seq` and the
/// unbounded integers.
#[verifier::ext_equal]
pub ghost enum ValueModel {
    /// A boolean scalar.
    Bool(bool),
    /// A signed integer scalar.
    Signed(int),
    /// An unsigned integer scalar.
    Unsigned(int),
    /// A single character scalar.
    Character(char),
    /// A string scalar.
    Text(Seq<char>),
    /// A byte-sequence scalar.
    Bytes(Seq<u8>),
    /// The anonymous unit.
    Unit,
    /// A named empty marker.
    NamedUnit(Seq<char>),
    /// An option holding nothing.
    Absent,
    /// An option holding a value.
    Present(Box<ValueModel>),
    /// An ordered list of values.
    Sequence(Seq<ValueModel>),
    /// An ordered list of key/value pairs.
    Mapping(Seq<(ValueModel, ValueModel)>),
    /// An ordered list of statically named fields.
    Record(Seq<(Seq<char>, ValueModel)>),
    /// A tagged-union case with no payload.
    UnitVariant(Seq<char>),
    /// A tagged-union case with one unnamed payload value.
    NewtypeVariant(Seq<char>, Box<ValueModel>),
    /// A tagged-union case with an ordered list of unnamed payload values.
    TupleVariant(Seq<char>, Seq<ValueModel>),
    /// A tagged-union case with named payload fields.
    StructVariant(Seq<char>, Seq<(Seq<char>, ValueModel)>),
    /// A child value whose own serializer refuses, with its message.
    Unserializable(Seq<char>),
}

/// The model of a structured value.
pub open spec fn value_model(v: Value) -> ValueModel
    decreases v,
{
    match v {
        Value::Bool(b) => ValueModel::Bool(b),
        Value::Signed(n) => ValueModel::Signed(n as int),
        Value::Unsigned(n) => ValueModel::Unsigned(n as int),
        Value::Character(c) => ValueModel::Character(c),
        Value::Text(s) => ValueModel::Text(s@),
        Value::Bytes(b) => ValueModel::Bytes(b@),
        Value::Unit => ValueModel::Unit,
        Value::NamedUnit(name) => ValueModel::NamedUnit(name@),
        Value::Absent => ValueModel::Absent,
        Value::Present(inner) => ValueModel::Present(Box::new(value_model(*inner))),
        Value::Sequence(elems) => ValueModel::Sequence(value_list_model(elems)),
        Value::Mapping(pairs) => ValueModel::Mapping(pair_list_model(pairs)),
        Value::Record(fields) => ValueModel::Record(field_list_model(fields)),
        Value::UnitVariant(name) => ValueModel::UnitVariant(name@),
        Value::NewtypeVariant(name, inner) => ValueModel::NewtypeVariant(
            name@,
            Box::new(value_model(*inner)),
        ),
        Value::TupleVariant(name, elems) => ValueModel::TupleVariant(
            name@,
            value_list_model(elems),
        ),
        Value::StructVariant(name, fields) => ValueModel::StructVariant(
            name@,
            field_list_model(fields),
        ),
        Value::Unserializable(msg) => ValueModel::Unserializable(msg@),
    }
}

/// The model of a list of structured values, element by element.
pub open spec fn value_list_model(elems: Vec<Value>) -> Seq<ValueModel>
    decreases elems,
{
    Seq::new(
        elems@.len(),
        |i: int|
            if 0 <= i < elems@.len() {
                value_model(elems@[i])
            } else {
                ValueModel::Unit
            },
    )
}

/// The model of a list of key/value pairs, pair by pair.
pub open spec fn pair_list_model(pairs: Vec<(Value, Value)>) -> Seq<(ValueModel, ValueModel)>
    decreases pairs,
{
    Seq::new(
        pairs@.len(),
        |i: int|
            if 0 <= i < pairs@.len() {
                (value_model(pairs@[i].0), value_model(pairs@[i].1))
            } else {
                (ValueModel::Unit, ValueModel::Unit)
            },
    )
}

/// The model of a list of named fields, field by field.
pub open spec fn field_list_model(fields: Vec<(String, Value)>) -> Seq<(Seq<char>, ValueModel)>
    decreases fields,
{
    Seq::new(
        fields@.len(),
        |i: int|
            if 0 <= i < fields@.len() {
                (fields@[i].0@, value_model(fields@[i].1))
            } else {
                (Seq::empty(), ValueModel::Unit)
            },
    )
}

impl View for Value {
    type V = ValueModel;

    open spec fn view(&self) -> ValueModel {
        value_model(*self)
    }
}

/// Whether a value model only holds integers that its scalar types can hold.
/// The model of every executable [`Value`] satisfies this, by
/// [`lemma_value_model_wf`].
pub open spec fn model_wf(v: ValueModel) -> bool
    decreases v,
{
    match v {
        ValueModel::Signed(n) => i128::MIN <= n <= i128::MAX,
        ValueModel::Unsigned(n) => 0 <= n <= u128::MAX,
        ValueModel::Present(inner) => model_wf(*inner),
        ValueModel::NewtypeVariant(_, inner) => model_wf(*inner),
        ValueModel::Sequence(elems) => forall|i: int|
            0 <= i < elems.len() ==> model_wf(#[trigger] elems[i]),
        ValueModel::TupleVariant(_, elems) => forall|i: int|
            0 <= i < elems.len() ==> model_wf(#[trigger] elems[i]),
        ValueModel::Mapping(pairs) => forall|i: int|
            0 <= i < pairs.len() ==> model_wf((#[trigger] pairs[i]).0) && model_wf(pairs[i].1),
        ValueModel::Record(fields) => forall|i: int|
            0 <= i < fields.len() ==> model_wf((#[trigger] fields[i]).1),
        ValueModel::StructVariant(_, fields) => forall|i: int|
            0 <= i < fields.len() ==> model_wf((#[trigger] fields[i]).1),
        _ => true,
    }
}

/// The model of an executable value is well formed: its integers lie within
/// the ranges of the machine types they were taken from.
pub proof fn lemma_value_model_wf(v: Value)
    ensures
        model_wf(value_model(v)),
    decreases v,
{
    match v {
        Value::Present(inner) => {
            lemma_value_model_wf(*inner);
        },
        Value::NewtypeVariant(_, inner) => {
            lemma_value_model_wf(*inner);
        },
        Value::Sequence(elems) => {
            let lm = value_list_model(elems);
            assert forall|i: int| 0 <= i < lm.len() implies model_wf(#[trigger] lm[i]) by {
                lemma_value_model_wf(elems@[i]);
            }
        },
        Value::TupleVariant(_, elems) => {
            let lm = value_list_model(elems);
            assert forall|i: int| 0 <= i < lm.len() implies model_wf(#[trigger] lm[i]) by {
                lemma_value_model_wf(elems@[i]);
            }
        },
        Value::Mapping(pairs) => {
            let pm = pair_list_model(pairs);
            assert forall|i: int| 0 <= i < pm.len() implies model_wf((#[trigger] pm[i]).0)
                && model_wf(pm[i].1) by {
                lemma_value_model_wf(pairs@[i].0);
                lemma_value_model_wf(pairs@[i].1);
            }
        },
        Value::Record(fields) => {
            let fm = field_list_model(fields);
            assert forall|i: int| 0 <= i < fm.len() implies model_wf((#[trigger] fm[i]).1) by {
                lemma_value_model_wf(fields@[i].1);
            }
        },
        Value::StructVariant(_, fields) => {
            let fm = field_list_model(fields);
            assert forall|i: int| 0 <= i < fm.len() implies model_wf((#[trigger] fm[i]).1) by {
                lemma_value_model_wf(fields@[i].1);
            }
        },
        _ => {},
    }
}

/// A dynamic value: the untyped output tree, built only from the handful of
/// shapes a host with no static type system understands.
#[derive(Debug)]
pub enum DynamicValue {
    /// The null value.
    Null,
    /// A boolean.
    Bool(bool),
    /// A number. The engine only produces numbers whose magnitude is at most
    /// [`SAFE_MAGNITUDE`](crate::num::SAFE_MAGNITUDE), so every one of them
    /// is exactly representable in an IEEE-754 double.
    Number(i128),
    /// An arbitrary-precision number backed by its decimal string.
    BigNumber(String),
    /// A string.
    Text(String),
    /// A byte buffer.
    Bytes(Vec<u8>),
    /// An ordered array of dynamic values.
    Array(Vec<DynamicValue>),
    /// An ordered object of string keys and dynamic values.
    Object(Vec<(String, DynamicValue)>),
}

/// The mathematical model of a [`DynamicValue`].
#[verifier::ext_equal]
pub ghost enum DynModel {
    /// The null value.
    Null,
    /// A boolean.
    Bool(bool),
    /// A number.
    Number(int),
    /// An arbitrary-precision number backed by its decimal string.
    BigNumber(Seq<char>),
    /// A string.
    Text(Seq<char>),
    /// A byte buffer.
    Bytes(Seq<u8>),
    /// An ordered array of dynamic values.
    Array(Seq<DynModel>),
    /// An ordered object of string keys and dynamic values.
    Object(Seq<(Seq<char>, DynModel)>),
}

/// The model of a dynamic value.
pub open spec fn dynamic_model(d: DynamicValue) -> DynModel
    decreases d,
{
    match d {
        DynamicValue::Null => DynModel::Null,
        DynamicValue::Bool(b) => DynModel::Bool(b),
        DynamicValue::Number(n) => DynModel::Number(n as int),
        DynamicValue::BigNumber(s) => DynModel::BigNumber(s@),
        DynamicValue::Text(s) => DynModel::Text(s@),
        DynamicValue::Bytes(b) => DynModel::Bytes(b@),
        DynamicValue::Array(items) => DynModel::Array(dynamic_list_model(items)),
        DynamicValue::Object(entries) => DynModel::Object(entry_list_model(entries)),
    }
}

/// The model of a list of dynamic values, element by element.
pub open spec fn dynamic_list_model(items: Vec<DynamicValue>) -> Seq<DynModel>
    decreases items,
{
    Seq::new(
        items@.len(),
        |i: int|
            if 0 <= i < items@.len() {
                dynamic_model(items@[i])
            } else {
                DynModel::Null
            },
    )
}

/// The model of a list of object entries, entry by entry.
pub open spec fn entry_list_model(entries: Vec<(String, DynamicValue)>) -> Seq<
    (Seq<char>, DynModel),
>
    decreases entries,
{
    Seq::new(
        entries@.len(),
        |i: int|
            if 0 <= i < entries@.len() {
                (entries@[i].0@, dynamic_model(entries@[i].1))
            } else {
                (Seq::empty(), DynModel::Null)
            },
    )
}

impl View for DynamicValue {
    type V = DynModel;

    open spec fn view(&self) -> DynModel {
        dynamic_model(*self)
    }
}

} // verus!
