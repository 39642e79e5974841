//! The engine's laws, each proved of the serialization function for all
//! inputs: shape preservation, the numeric threshold and the precision of
//! every number in the output, variant wrapping, option collapse, failure
//! propagation, and the exact characterization of the inputs on which
//! serialization succeeds.

use vstd::prelude::*;

use crate::builder::spec_coerce_key;
use crate::error::ErrorModel;
use crate::num::{
    dec_digits, dec_string, lemma_dec_digits_roundtrip, lemma_dec_string_roundtrip,
    parse_dec_digits, parse_dec_string, SAFE_MAGNITUDE,
};
use crate::ser::{
    lemma_serialize_fields_concat, lemma_serialize_list_concat, lemma_serialize_pairs_concat,
    spec_serialize, spec_serialize_fields, spec_serialize_list, spec_serialize_pairs,
};
use crate::value::{lemma_value_model_wf, model_wf, value_model, DynModel, Value, ValueModel};

verus! {

/// A successfully serialized element list has exactly one output element per
/// input element, in the same order.
pub proof fn lemma_serialize_list_elementwise(elems: Seq<ValueModel>)
    requires
        spec_serialize_list(elems) is Ok,
    ensures
        spec_serialize_list(elems)->Ok_0.len() == elems.len(),
        forall|i: int|
            0 <= i < elems.len() ==> #[trigger] spec_serialize(elems[i]) == Result::<
                DynModel,
                ErrorModel,
            >::Ok(spec_serialize_list(elems)->Ok_0[i]),
    decreases elems.len(),
{
    if elems.len() > 0 {
        lemma_serialize_list_elementwise(elems.drop_first());
        let items = spec_serialize_list(elems)->Ok_0;
        let rest = spec_serialize_list(elems.drop_first())->Ok_0;
        assert(items == seq![spec_serialize(elems[0])->Ok_0] + rest);
        assert forall|i: int| 0 <= i < elems.len() implies #[trigger] spec_serialize(elems[i])
            == Result::<DynModel, ErrorModel>::Ok(items[i]) by {
            if i > 0 {
                assert(elems.drop_first()[i - 1] == elems[i]);
                assert(items[i] == rest[i - 1]);
            }
        }
    }
}

/// A successfully serialized field list keeps every declared field name, in
/// declaration order, each bound to its serialized value.
pub proof fn lemma_serialize_fields_elementwise(fields: Seq<(Seq<char>, ValueModel)>)
    requires
        spec_serialize_fields(fields) is Ok,
    ensures
        spec_serialize_fields(fields)->Ok_0.len() == fields.len(),
        forall|i: int|
            0 <= i < fields.len() ==> (#[trigger] spec_serialize_fields(fields)->Ok_0[i]).0
                == fields[i].0,
        forall|i: int|
            0 <= i < fields.len() ==> #[trigger] spec_serialize(fields[i].1) == Result::<
                DynModel,
                ErrorModel,
            >::Ok(spec_serialize_fields(fields)->Ok_0[i].1),
    decreases fields.len(),
{
    if fields.len() > 0 {
        lemma_serialize_fields_elementwise(fields.drop_first());
        let entries = spec_serialize_fields(fields)->Ok_0;
        let rest = spec_serialize_fields(fields.drop_first())->Ok_0;
        assert(entries == seq![(fields[0].0, spec_serialize(fields[0].1)->Ok_0)] + rest);
        assert forall|i: int| 0 <= i < fields.len() implies #[trigger] spec_serialize(fields[i].1)
            == Result::<DynModel, ErrorModel>::Ok(entries[i].1) && entries[i].0 == fields[i].0 by {
            if i > 0 {
                assert(fields.drop_first()[i - 1] == fields[i]);
                assert(entries[i] == rest[i - 1]);
            }
        }
    }
}

/// A successfully serialized pair list has exactly one entry per pair, in
/// order: the serialized key coerced to a property name, bound to the
/// serialized value.
pub proof fn lemma_serialize_pairs_elementwise(pairs: Seq<(ValueModel, ValueModel)>)
    requires
        spec_serialize_pairs(pairs) is Ok,
    ensures
        spec_serialize_pairs(pairs)->Ok_0.len() == pairs.len(),
        forall|i: int|
            0 <= i < pairs.len() ==> #[trigger] spec_serialize(pairs[i].0) is Ok,
        forall|i: int|
            0 <= i < pairs.len() ==> spec_coerce_key(#[trigger] spec_serialize(pairs[i].0)->Ok_0)
                == Result::<Seq<char>, ErrorModel>::Ok(spec_serialize_pairs(pairs)->Ok_0[i].0),
        forall|i: int|
            0 <= i < pairs.len() ==> #[trigger] spec_serialize(pairs[i].1) == Result::<
                DynModel,
                ErrorModel,
            >::Ok(spec_serialize_pairs(pairs)->Ok_0[i].1),
    decreases pairs.len(),
{
    if pairs.len() > 0 {
        lemma_serialize_pairs_elementwise(pairs.drop_first());
        let entries = spec_serialize_pairs(pairs)->Ok_0;
        let rest = spec_serialize_pairs(pairs.drop_first())->Ok_0;
        let k0 = spec_coerce_key(spec_serialize(pairs[0].0)->Ok_0)->Ok_0;
        assert(entries == seq![(k0, spec_serialize(pairs[0].1)->Ok_0)] + rest);
        assert forall|i: int| 0 <= i < pairs.len() implies {
            &&& #[trigger] spec_serialize(pairs[i].0) is Ok
            &&& spec_coerce_key(spec_serialize(pairs[i].0)->Ok_0) == Result::<
                Seq<char>,
                ErrorModel,
            >::Ok(entries[i].0)
            &&& spec_serialize(pairs[i].1) == Result::<DynModel, ErrorModel>::Ok(entries[i].1)
        } by {
            if i > 0 {
                assert(pairs.drop_first()[i - 1] == pairs[i]);
                assert(entries[i] == rest[i - 1]);
            }
        }
    }
}

/// Shape law for sequences: a successfully serialized sequence of N elements
/// is an array of exactly N elements, element i being the serialization of
/// input element i.
pub proof fn lemma_sequence_shape(elems: Seq<ValueModel>)
    requires
        spec_serialize(ValueModel::Sequence(elems)) is Ok,
    ensures
        spec_serialize(ValueModel::Sequence(elems))->Ok_0 is Array,
        spec_serialize(ValueModel::Sequence(elems))->Ok_0->Array_0.len() == elems.len(),
        forall|i: int|
            0 <= i < elems.len() ==> #[trigger] spec_serialize(elems[i]) == Result::<
                DynModel,
                ErrorModel,
            >::Ok(spec_serialize(ValueModel::Sequence(elems))->Ok_0->Array_0[i]),
{
    lemma_serialize_list_elementwise(elems);
}

/// Shape law for records: a successfully serialized record of N fields is an
/// object of exactly N entries whose keys are the field names, in declaration
/// order.
pub proof fn lemma_record_shape(fields: Seq<(Seq<char>, ValueModel)>)
    requires
        spec_serialize(ValueModel::Record(fields)) is Ok,
    ensures
        spec_serialize(ValueModel::Record(fields))->Ok_0 is Object,
        spec_serialize(ValueModel::Record(fields))->Ok_0->Object_0.len() == fields.len(),
        forall|i: int|
            0 <= i < fields.len() ==> (#[trigger] spec_serialize(
                ValueModel::Record(fields),
            )->Ok_0->Object_0[i]).0 == fields[i].0,
        forall|i: int|
            0 <= i < fields.len() ==> #[trigger] spec_serialize(fields[i].1) == Result::<
                DynModel,
                ErrorModel,
            >::Ok(spec_serialize(ValueModel::Record(fields))->Ok_0->Object_0[i].1),
{
    lemma_serialize_fields_elementwise(fields);
}

/// Shape law for maps: a successfully serialized map of N pairs is an object
/// of exactly N entries, in insertion order, each key coerced to a property
/// name and each value serialized.
pub proof fn lemma_mapping_shape(pairs: Seq<(ValueModel, ValueModel)>)
    requires
        spec_serialize(ValueModel::Mapping(pairs)) is Ok,
    ensures
        spec_serialize(ValueModel::Mapping(pairs))->Ok_0 is Object,
        spec_serialize(ValueModel::Mapping(pairs))->Ok_0->Object_0.len() == pairs.len(),
{
    lemma_serialize_pairs_elementwise(pairs);
}

/// Shape law for scalars and units: every scalar maps to the dynamic shape
/// of its row in the data model — booleans stay booleans, strings stay
/// strings, a character becomes its one-character string, bytes stay a byte
/// buffer, the anonymous unit and an absent option become null, and a named
/// unit becomes its name as a string.
pub proof fn lemma_scalar_shapes(b: bool, c: char, s: Seq<char>, bytes: Seq<u8>, name: Seq<char>)
    ensures
        spec_serialize(ValueModel::Bool(b)) == Result::<DynModel, ErrorModel>::Ok(
            DynModel::Bool(b),
        ),
        spec_serialize(ValueModel::Character(c)) == Result::<DynModel, ErrorModel>::Ok(
            DynModel::Text(seq![c]),
        ),
        spec_serialize(ValueModel::Text(s)) == Result::<DynModel, ErrorModel>::Ok(
            DynModel::Text(s),
        ),
        spec_serialize(ValueModel::Bytes(bytes)) == Result::<DynModel, ErrorModel>::Ok(
            DynModel::Bytes(bytes),
        ),
        spec_serialize(ValueModel::Unit) == Result::<DynModel, ErrorModel>::Ok(DynModel::Null),
        spec_serialize(ValueModel::Absent) == Result::<DynModel, ErrorModel>::Ok(DynModel::Null),
        spec_serialize(ValueModel::NamedUnit(name)) == Result::<DynModel, ErrorModel>::Ok(
            DynModel::Text(name),
        ),
{
}

/// Numeric threshold law: an integer of magnitude at most the safe threshold
/// is encoded as a plain number equal to it; one above the threshold is
/// encoded as a big number whose decimal string parses back to it exactly.
pub proof fn lemma_numeric_threshold(n: int, u: int)
    requires
        u >= 0,
    ensures
        -(SAFE_MAGNITUDE as int) <= n <= SAFE_MAGNITUDE as int ==> spec_serialize(
            ValueModel::Signed(n),
        ) == Result::<DynModel, ErrorModel>::Ok(DynModel::Number(n)),
        !(-(SAFE_MAGNITUDE as int) <= n <= SAFE_MAGNITUDE as int) ==> (spec_serialize(
            ValueModel::Signed(n),
        ) matches Result::Ok(d) && d matches DynModel::BigNumber(s) && parse_dec_string(s) == n),
        u <= SAFE_MAGNITUDE as int ==> spec_serialize(ValueModel::Unsigned(u)) == Result::<
            DynModel,
            ErrorModel,
        >::Ok(DynModel::Number(u)),
        u > SAFE_MAGNITUDE as int ==> (spec_serialize(ValueModel::Unsigned(u)) matches Result::Ok(
            d,
        ) && d matches DynModel::BigNumber(s) && parse_dec_digits(s) == u),
{
    lemma_dec_string_roundtrip(n);
    lemma_dec_digits_roundtrip(u as nat);
}

/// Variant wrapping law: a no-payload case is its name as a string; a case
/// with a payload is a single-key object, keyed by the case name, holding the
/// payload serialized on its own — tuple and struct payloads are first
/// serialized as a plain array or object, then wrapped.
pub proof fn lemma_variant_wrapping(
    name: Seq<char>,
    payload: ValueModel,
    elems: Seq<ValueModel>,
    fields: Seq<(Seq<char>, ValueModel)>,
)
    ensures
        spec_serialize(ValueModel::UnitVariant(name)) == Result::<DynModel, ErrorModel>::Ok(
            DynModel::Text(name),
        ),
        spec_serialize(payload) matches Result::Ok(d) ==> spec_serialize(
            ValueModel::NewtypeVariant(name, Box::new(payload)),
        ) == Result::<DynModel, ErrorModel>::Ok(DynModel::Object(seq![(name, d)])),
        spec_serialize(ValueModel::Sequence(elems)) matches Result::Ok(d) ==> spec_serialize(
            ValueModel::TupleVariant(name, elems),
        ) == Result::<DynModel, ErrorModel>::Ok(DynModel::Object(seq![(name, d)])),
        spec_serialize(ValueModel::Record(fields)) matches Result::Ok(d) ==> spec_serialize(
            ValueModel::StructVariant(name, fields),
        ) == Result::<DynModel, ErrorModel>::Ok(DynModel::Object(seq![(name, d)])),
        spec_serialize(payload) matches Result::Err(e) ==> spec_serialize(
            ValueModel::NewtypeVariant(name, Box::new(payload)),
        ) == Result::<DynModel, ErrorModel>::Err(e),
        spec_serialize(ValueModel::Sequence(elems)) matches Result::Err(e) ==> spec_serialize(
            ValueModel::TupleVariant(name, elems),
        ) == Result::<DynModel, ErrorModel>::Err(e),
        spec_serialize(ValueModel::Record(fields)) matches Result::Err(e) ==> spec_serialize(
            ValueModel::StructVariant(name, fields),
        ) == Result::<DynModel, ErrorModel>::Err(e),
{
}

/// Option collapse law: an absent option and the anonymous unit both
/// serialize to null, and a present option serializes exactly as the wrapped
/// value alone.
pub proof fn lemma_option_collapse(v: ValueModel)
    ensures
        spec_serialize(ValueModel::Absent) == Result::<DynModel, ErrorModel>::Ok(DynModel::Null),
        spec_serialize(ValueModel::Unit) == Result::<DynModel, ErrorModel>::Ok(DynModel::Null),
        spec_serialize(ValueModel::Present(Box::new(v))) == spec_serialize(v),
{
}

/// Whether every number in a dynamic tree respects the precision threshold:
/// plain numbers have magnitude at most the safe threshold, and every big
/// number is the decimal string of an integer beyond it.
pub open spec fn precision_safe(d: DynModel) -> bool
    decreases d,
{
    match d {
        DynModel::Number(n) => -(SAFE_MAGNITUDE as int) <= n <= SAFE_MAGNITUDE as int,
        DynModel::BigNumber(s) => {
            let n = parse_dec_string(s);
            &&& s == dec_string(n)
            &&& !(-(SAFE_MAGNITUDE as int) <= n <= SAFE_MAGNITUDE as int)
        },
        DynModel::Array(items) => forall|i: int|
            0 <= i < items.len() ==> precision_safe(#[trigger] items[i]),
        DynModel::Object(entries) => forall|i: int|
            0 <= i < entries.len() ==> precision_safe(#[trigger] entries[i].1),
        _ => true,
    }
}

/// Numeric precision invariant: serializing any well-formed value produces a
/// precision-safe dynamic tree, however deeply its numbers are nested.
pub proof fn lemma_output_precision(v: ValueModel)
    requires
        model_wf(v),
    ensures
        spec_serialize(v) matches Result::Ok(d) ==> precision_safe(d),
    decreases v,
{
    match v {
        ValueModel::Signed(n) => {
            if !(-(SAFE_MAGNITUDE as int) <= n <= SAFE_MAGNITUDE as int) {
                lemma_dec_string_roundtrip(n);
            }

        },
        ValueModel::Unsigned(n) => {
            if n > SAFE_MAGNITUDE as int {
                assert(dec_digits(n as nat) == dec_string(n));
                lemma_dec_string_roundtrip(n);
            }

        },
        ValueModel::Present(inner) => {
            lemma_output_precision(*inner);

        },
        ValueModel::Sequence(elems) => {
            lemma_list_precision(elems);

        },
        ValueModel::Mapping(pairs) => {
            lemma_pairs_precision(pairs);

        },
        ValueModel::Record(fields) => {
            lemma_fields_precision(fields);

        },
        ValueModel::NewtypeVariant(name, inner) => {
            lemma_output_precision(*inner);
            if spec_serialize(*inner) is Ok {
                let payload = spec_serialize(*inner)->Ok_0;
                assert(seq![(name, payload)][0].1 == payload);
            }

        },
        ValueModel::TupleVariant(name, elems) => {
            lemma_list_precision(elems);
            if spec_serialize_list(elems) is Ok {
                let items = spec_serialize_list(elems)->Ok_0;
                assert(precision_safe(DynModel::Array(items)));
                assert(seq![(name, DynModel::Array(items))][0].1 == DynModel::Array(items));
            }

        },
        ValueModel::StructVariant(name, fields) => {
            lemma_fields_precision(fields);
            if spec_serialize_fields(fields) is Ok {
                let entries = spec_serialize_fields(fields)->Ok_0;
                assert(precision_safe(DynModel::Object(entries)));
                assert(seq![(name, DynModel::Object(entries))][0].1 == DynModel::Object(entries));
            }

        },
        _ => {},
    }
}

/// Every element of a successfully serialized element list is precision
/// safe.
pub proof fn lemma_list_precision(elems: Seq<ValueModel>)
    requires
        forall|i: int| 0 <= i < elems.len() ==> model_wf(#[trigger] elems[i]),
    ensures
        spec_serialize_list(elems) matches Result::Ok(items) ==> forall|i: int|
            0 <= i < items.len() ==> precision_safe(#[trigger] items[i]),
    decreases elems,
{
    if elems.len() > 0 {
        lemma_output_precision(elems[0]);
        assert forall|i: int| 0 <= i < elems.drop_first().len() implies model_wf(
            #[trigger] elems.drop_first()[i],
        ) by {
            assert(elems.drop_first()[i] == elems[i + 1]);
        }
        lemma_list_precision(elems.drop_first());
        if spec_serialize_list(elems) is Ok {
            let items = spec_serialize_list(elems)->Ok_0;
            let rest = spec_serialize_list(elems.drop_first())->Ok_0;
            assert forall|i: int| 0 <= i < items.len() implies precision_safe(
                #[trigger] items[i],
            ) by {
                if i > 0 {
                    assert(items[i] == rest[i - 1]);
                }
            }
        }
    }
}

/// Every value of a successfully serialized pair list is precision safe.
pub proof fn lemma_pairs_precision(pairs: Seq<(ValueModel, ValueModel)>)
    requires
        forall|i: int| 0 <= i < pairs.len() ==> model_wf((#[trigger] pairs[i]).1),
    ensures
        spec_serialize_pairs(pairs) matches Result::Ok(entries) ==> forall|i: int|
            0 <= i < entries.len() ==> precision_safe((#[trigger] entries[i]).1),
    decreases pairs,
{
    if pairs.len() > 0 {
        lemma_output_precision(pairs[0].1);
        assert forall|i: int| 0 <= i < pairs.drop_first().len() implies model_wf(
            (#[trigger] pairs.drop_first()[i]).1,
        ) by {
            assert(pairs.drop_first()[i] == pairs[i + 1]);
        }
        lemma_pairs_precision(pairs.drop_first());
        if spec_serialize_pairs(pairs) is Ok {
            let entries = spec_serialize_pairs(pairs)->Ok_0;
            let rest = spec_serialize_pairs(pairs.drop_first())->Ok_0;
            assert forall|i: int| 0 <= i < entries.len() implies precision_safe(
                (#[trigger] entries[i]).1,
            ) by {
                if i > 0 {
                    assert(entries[i] == rest[i - 1]);
                }
            }
        }
    }
}

/// Every value of a successfully serialized field list is precision safe.
pub proof fn lemma_fields_precision(fields: Seq<(Seq<char>, ValueModel)>)
    requires
        forall|i: int| 0 <= i < fields.len() ==> model_wf((#[trigger] fields[i]).1),
    ensures
        spec_serialize_fields(fields) matches Result::Ok(entries) ==> forall|i: int|
            0 <= i < entries.len() ==> precision_safe((#[trigger] entries[i]).1),
    decreases fields,
{
    if fields.len() > 0 {
        lemma_output_precision(fields[0].1);
        assert forall|i: int| 0 <= i < fields.drop_first().len() implies model_wf(
            (#[trigger] fields.drop_first()[i]).1,
        ) by {
            assert(fields.drop_first()[i] == fields[i + 1]);
        }
        lemma_fields_precision(fields.drop_first());
        if spec_serialize_fields(fields) is Ok {
            let entries = spec_serialize_fields(fields)->Ok_0;
            let rest = spec_serialize_fields(fields.drop_first())->Ok_0;
            assert forall|i: int| 0 <= i < entries.len() implies precision_safe(
                (#[trigger] entries[i]).1,
            ) by {
                if i > 0 {
                    assert(entries[i] == rest[i - 1]);
                }
            }
        }
    }
}

/// The executable serializer inherits the precision invariant: the model of
/// any value it is handed is well formed, so whatever dynamic tree comes out
/// is precision safe.
pub proof fn lemma_exec_output_precision(v: Value)
    ensures
        spec_serialize(v@) matches Result::Ok(d) ==> precision_safe(d),
{
    lemma_value_model_wf(v);
    lemma_output_precision(value_model(v));
}

/// Whether a map key serializes to a primitive dynamic value, so that it can
/// be coerced to a property name: any scalar but a byte sequence, a unit, a
/// no-payload variant case, or an option of one of these.
pub open spec fn primitive_key(v: ValueModel) -> bool
    decreases v,
{
    match v {
        ValueModel::Bool(_) => true,
        ValueModel::Signed(_) => true,
        ValueModel::Unsigned(_) => true,
        ValueModel::Character(_) => true,
        ValueModel::Text(_) => true,
        ValueModel::Unit => true,
        ValueModel::NamedUnit(_) => true,
        ValueModel::Absent => true,
        ValueModel::UnitVariant(_) => true,
        ValueModel::Present(inner) => primitive_key(*inner),
        _ => false,
    }
}

/// Whether a structured value serializes successfully: no child anywhere in
/// it refuses to serialize, and every map key serializes to a primitive.
/// Serialization succeeds on exactly these values, by
/// [`lemma_success_iff_serializable`].
pub open spec fn serializable(v: ValueModel) -> bool
    decreases v,
{
    match v {
        ValueModel::Unserializable(_) => false,
        ValueModel::Present(inner) => serializable(*inner),
        ValueModel::NewtypeVariant(_, inner) => serializable(*inner),
        ValueModel::Sequence(elems) => forall|i: int|
            0 <= i < elems.len() ==> serializable(#[trigger] elems[i]),
        ValueModel::TupleVariant(_, elems) => forall|i: int|
            0 <= i < elems.len() ==> serializable(#[trigger] elems[i]),
        ValueModel::Mapping(pairs) => forall|i: int|
            0 <= i < pairs.len() ==> serializable((#[trigger] pairs[i]).0) && primitive_key(
                pairs[i].0,
            ) && serializable(pairs[i].1),
        ValueModel::Record(fields) => forall|i: int|
            0 <= i < fields.len() ==> serializable((#[trigger] fields[i]).1),
        ValueModel::StructVariant(_, fields) => forall|i: int|
            0 <= i < fields.len() ==> serializable((#[trigger] fields[i]).1),
        _ => true,
    }
}

/// A serialized key coerces to a property name exactly when the key is
/// primitive.
pub proof fn lemma_key_coercion(k: ValueModel)
    requires
        spec_serialize(k) is Ok,
    ensures
        spec_coerce_key(spec_serialize(k)->Ok_0) is Ok <==> primitive_key(k),
    decreases k,
{
    match k {
        ValueModel::Present(inner) => {
            lemma_key_coercion(*inner);
        },
        _ => {},
    }
}

/// Success law: serializing a structured value returns a dynamic value
/// exactly when the value is serializable, and an error exactly otherwise.
pub proof fn lemma_success_iff_serializable(v: ValueModel)
    ensures
        spec_serialize(v) is Ok <==> serializable(v),
    decreases v,
{
    match v {
        ValueModel::Present(inner) => {
            lemma_success_iff_serializable(*inner);
        },
        ValueModel::NewtypeVariant(_, inner) => {
            lemma_success_iff_serializable(*inner);
        },
        ValueModel::Sequence(elems) => {
            lemma_list_success(elems);
        },
        ValueModel::TupleVariant(_, elems) => {
            lemma_list_success(elems);
        },
        ValueModel::Mapping(pairs) => {
            lemma_pairs_success(pairs);
        },
        ValueModel::Record(fields) => {
            lemma_fields_success(fields);
        },
        ValueModel::StructVariant(_, fields) => {
            lemma_fields_success(fields);
        },
        _ => {},
    }
}

/// An element list serializes successfully exactly when every element does.
pub proof fn lemma_list_success(elems: Seq<ValueModel>)
    ensures
        spec_serialize_list(elems) is Ok <==> forall|i: int|
            0 <= i < elems.len() ==> serializable(#[trigger] elems[i]),
    decreases elems,
{
    if elems.len() > 0 {
        lemma_success_iff_serializable(elems[0]);
        lemma_list_success(elems.drop_first());
        if spec_serialize_list(elems) is Ok {
            assert forall|i: int| 0 <= i < elems.len() implies serializable(
                #[trigger] elems[i],
            ) by {
                if i > 0 {
                    assert(elems.drop_first()[i - 1] == elems[i]);
                }
            }
        }
        if forall|i: int| 0 <= i < elems.len() ==> serializable(#[trigger] elems[i]) {
            assert(serializable(elems[0]));
            assert forall|i: int| 0 <= i < elems.drop_first().len() implies serializable(
                #[trigger] elems.drop_first()[i],
            ) by {
                assert(elems.drop_first()[i] == elems[i + 1]);
            }
            assert(spec_serialize_list(elems.drop_first()) is Ok);
        }
    }
}

/// A pair list serializes successfully exactly when every key and value
/// does, and every key is primitive.
pub proof fn lemma_pairs_success(pairs: Seq<(ValueModel, ValueModel)>)
    ensures
        spec_serialize_pairs(pairs) is Ok <==> forall|i: int|
            0 <= i < pairs.len() ==> serializable((#[trigger] pairs[i]).0) && primitive_key(
                pairs[i].0,
            ) && serializable(pairs[i].1),
    decreases pairs,
{
    if pairs.len() > 0 {
        lemma_success_iff_serializable(pairs[0].0);
        lemma_success_iff_serializable(pairs[0].1);
        lemma_pairs_success(pairs.drop_first());
        if spec_serialize(pairs[0].0) is Ok {
            lemma_key_coercion(pairs[0].0);
        }
        if spec_serialize_pairs(pairs) is Ok {
            assert forall|i: int| 0 <= i < pairs.len() implies serializable(
                (#[trigger] pairs[i]).0,
            ) && primitive_key(pairs[i].0) && serializable(pairs[i].1) by {
                if i > 0 {
                    assert(pairs.drop_first()[i - 1] == pairs[i]);
                }
            }
        }
        if forall|i: int|
            0 <= i < pairs.len() ==> serializable((#[trigger] pairs[i]).0) && primitive_key(
                pairs[i].0,
            ) && serializable(pairs[i].1) {
            assert(serializable(pairs[0].0) && primitive_key(pairs[0].0) && serializable(
                pairs[0].1,
            ));
            assert forall|i: int| 0 <= i < pairs.drop_first().len() implies serializable(
                (#[trigger] pairs.drop_first()[i]).0,
            ) && primitive_key(pairs.drop_first()[i].0) && serializable(
                pairs.drop_first()[i].1,
            ) by {
                assert(pairs.drop_first()[i] == pairs[i + 1]);
            }
            assert(spec_serialize_pairs(pairs.drop_first()) is Ok);
        }
    }
}

/// A field list serializes successfully exactly when every field value does.
pub proof fn lemma_fields_success(fields: Seq<(Seq<char>, ValueModel)>)
    ensures
        spec_serialize_fields(fields) is Ok <==> forall|i: int|
            0 <= i < fields.len() ==> serializable((#[trigger] fields[i]).1),
    decreases fields,
{
    if fields.len() > 0 {
        lemma_success_iff_serializable(fields[0].1);
        lemma_fields_success(fields.drop_first());
        if spec_serialize_fields(fields) is Ok {
            assert forall|i: int| 0 <= i < fields.len() implies serializable(
                (#[trigger] fields[i]).1,
            ) by {
                if i > 0 {
                    assert(fields.drop_first()[i - 1] == fields[i]);
                }
            }
        }
        if forall|i: int| 0 <= i < fields.len() ==> serializable((#[trigger] fields[i]).1) {
            assert(serializable(fields[0].1));
            assert forall|i: int| 0 <= i < fields.drop_first().len() implies serializable(
                (#[trigger] fields.drop_first()[i]).1,
            ) by {
                assert(fields.drop_first()[i] == fields[i + 1]);
            }
            assert(spec_serialize_fields(fields.drop_first()) is Ok);
        }
    }
}

/// Failure propagation for sequences: if the elements before position i all
/// serialize and element i fails, the whole sequence fails with exactly that
/// error, producing no array at all.
pub proof fn lemma_sequence_failure(elems: Seq<ValueModel>, i: int, e: ErrorModel)
    requires
        0 <= i < elems.len(),
        spec_serialize_list(elems.subrange(0, i)) is Ok,
        spec_serialize(elems[i]) == Result::<DynModel, ErrorModel>::Err(e),
    ensures
        spec_serialize(ValueModel::Sequence(elems)) == Result::<DynModel, ErrorModel>::Err(e),
{
    let pre = elems.subrange(0, i);
    let suf = elems.subrange(i, elems.len() as int);
    assert(elems =~= pre + suf);
    assert(suf[0] == elems[i]);
    lemma_serialize_list_concat(pre, suf);
}

/// Failure propagation for records: if the fields before position i all
/// serialize and the value of field i fails, the whole record fails with
/// exactly that error.
pub proof fn lemma_record_failure(fields: Seq<(Seq<char>, ValueModel)>, i: int, e: ErrorModel)
    requires
        0 <= i < fields.len(),
        spec_serialize_fields(fields.subrange(0, i)) is Ok,
        spec_serialize(fields[i].1) == Result::<DynModel, ErrorModel>::Err(e),
    ensures
        spec_serialize(ValueModel::Record(fields)) == Result::<DynModel, ErrorModel>::Err(e),
{
    let pre = fields.subrange(0, i);
    let suf = fields.subrange(i, fields.len() as int);
    assert(fields =~= pre + suf);
    assert(suf[0] == fields[i]);
    lemma_serialize_fields_concat(pre, suf);
}

/// Failure propagation for maps: if the pairs before position i all
/// serialize and the key of pair i fails to serialize, the whole map fails
/// with exactly that error.
pub proof fn lemma_mapping_failure(pairs: Seq<(ValueModel, ValueModel)>, i: int, e: ErrorModel)
    requires
        0 <= i < pairs.len(),
        spec_serialize_pairs(pairs.subrange(0, i)) is Ok,
        spec_serialize(pairs[i].0) == Result::<DynModel, ErrorModel>::Err(e),
    ensures
        spec_serialize(ValueModel::Mapping(pairs)) == Result::<DynModel, ErrorModel>::Err(e),
{
    let pre = pairs.subrange(0, i);
    let suf = pairs.subrange(i, pairs.len() as int);
    assert(pairs =~= pre + suf);
    assert(suf[0] == pairs[i]);
    lemma_serialize_pairs_concat(pre, suf);
}

} // verus!
