//! The value serializer: one pure function from structured values to dynamic
//! values, with the recursive builders' loops proved against it.

use vstd::prelude::*;

use crate::builder::{coerce_key, spec_coerce_key, wrap_variant, ArrayBuilder, ObjectBuilder};
use crate::error::{ErrorModel, SerializeError};
use crate::num::{encode_signed, encode_unsigned, spec_encode_signed, spec_encode_unsigned};
use crate::value::{
    field_list_model, pair_list_model, value_list_model, DynModel, DynamicValue, Value, ValueModel,
};

verus! {

/// What serializing a structured value returns: exactly one dynamic value
/// for every serializable input, or the first error met in a left-to-right,
/// depth-first walk. Serialization is a pure function of the input.
pub open spec fn spec_serialize(v: ValueModel) -> Result<DynModel, ErrorModel>
    decreases v,
{
    match v {
        ValueModel::Bool(b) => Result::Ok(DynModel::Bool(b)),
        ValueModel::Signed(n) => Result::Ok(spec_encode_signed(n)),
        ValueModel::Unsigned(n) => Result::Ok(spec_encode_unsigned(n)),
        ValueModel::Character(c) => Result::Ok(DynModel::Text(seq![c])),
        ValueModel::Text(s) => Result::Ok(DynModel::Text(s)),
        ValueModel::Bytes(b) => Result::Ok(DynModel::Bytes(b)),
        ValueModel::Unit => Result::Ok(DynModel::Null),
        ValueModel::NamedUnit(name) => Result::Ok(DynModel::Text(name)),
        ValueModel::Absent => Result::Ok(DynModel::Null),
        ValueModel::Present(inner) => spec_serialize(*inner),
        ValueModel::Sequence(elems) => match spec_serialize_list(elems) {
            Result::Ok(items) => Result::Ok(DynModel::Array(items)),
            Result::Err(e) => Result::Err(e),
        },
        ValueModel::Mapping(pairs) => match spec_serialize_pairs(pairs) {
            Result::Ok(entries) => Result::Ok(DynModel::Object(entries)),
            Result::Err(e) => Result::Err(e),
        },
        ValueModel::Record(fields) => match spec_serialize_fields(fields) {
            Result::Ok(entries) => Result::Ok(DynModel::Object(entries)),
            Result::Err(e) => Result::Err(e),
        },
        ValueModel::UnitVariant(name) => Result::Ok(DynModel::Text(name)),
        ValueModel::NewtypeVariant(name, inner) => match spec_serialize(*inner) {
            Result::Ok(payload) => Result::Ok(DynModel::Object(seq![(name, payload)])),
            Result::Err(e) => Result::Err(e),
        },
        ValueModel::TupleVariant(name, elems) => match spec_serialize_list(elems) {
            Result::Ok(items) => Result::Ok(
                DynModel::Object(seq![(name, DynModel::Array(items))]),
            ),
            Result::Err(e) => Result::Err(e),
        },
        ValueModel::StructVariant(name, fields) => match spec_serialize_fields(fields) {
            Result::Ok(entries) => Result::Ok(
                DynModel::Object(seq![(name, DynModel::Object(entries))]),
            ),
            Result::Err(e) => Result::Err(e),
        },
        ValueModel::Unserializable(msg) => Result::Err(ErrorModel::Custom(msg)),
    }
}

/// Serializes the elements of a sequence in order: all of them, or the first
/// error.
pub open spec fn spec_serialize_list(elems: Seq<ValueModel>) -> Result<Seq<DynModel>, ErrorModel>
    decreases elems,
{
    if elems.len() == 0 {
        Result::Ok(Seq::empty())
    } else {
        match spec_serialize(elems[0]) {
            Result::Err(e) => Result::Err(e),
            Result::Ok(d) => match spec_serialize_list(elems.drop_first()) {
                Result::Err(e) => Result::Err(e),
                Result::Ok(rest) => Result::Ok(seq![d] + rest),
            },
        }
    }
}

/// Serializes the pairs of a map in order. For each pair the key is
/// serialized and coerced to a property name, then the value is serialized;
/// the first error aborts the rest.
pub open spec fn spec_serialize_pairs(pairs: Seq<(ValueModel, ValueModel)>) -> Result<
    Seq<(Seq<char>, DynModel)>,
    ErrorModel,
>
    decreases pairs,
{
    if pairs.len() == 0 {
        Result::Ok(Seq::empty())
    } else {
        match spec_serialize(pairs[0].0) {
            Result::Err(e) => Result::Err(e),
            Result::Ok(dk) => match spec_coerce_key(dk) {
                Result::Err(e) => Result::Err(e),
                Result::Ok(k) => match spec_serialize(pairs[0].1) {
                    Result::Err(e) => Result::Err(e),
                    Result::Ok(dv) => match spec_serialize_pairs(pairs.drop_first()) {
                        Result::Err(e) => Result::Err(e),
                        Result::Ok(rest) => Result::Ok(seq![(k, dv)] + rest),
                    },
                },
            },
        }
    }
}

/// Serializes the named fields of a record in order: the declared names are
/// kept as the keys, and the first failing field value aborts the rest.
pub open spec fn spec_serialize_fields(fields: Seq<(Seq<char>, ValueModel)>) -> Result<
    Seq<(Seq<char>, DynModel)>,
    ErrorModel,
>
    decreases fields,
{
    if fields.len() == 0 {
        Result::Ok(Seq::empty())
    } else {
        match spec_serialize(fields[0].1) {
            Result::Err(e) => Result::Err(e),
            Result::Ok(d) => match spec_serialize_fields(fields.drop_first()) {
                Result::Err(e) => Result::Err(e),
                Result::Ok(rest) => Result::Ok(seq![(fields[0].0, d)] + rest),
            },
        }
    }
}

/// Element serialization distributes over concatenation: the front part is
/// serialized first, and only if all of it succeeds is the back part reached.
pub proof fn lemma_serialize_list_concat(a: Seq<ValueModel>, b: Seq<ValueModel>)
    ensures
        spec_serialize_list(a + b) == match spec_serialize_list(a) {
            Result::Err(e) => Result::<Seq<DynModel>, ErrorModel>::Err(e),
            Result::Ok(da) => match spec_serialize_list(b) {
                Result::Err(e) => Result::Err(e),
                Result::Ok(db) => Result::Ok(da + db),
            },
        },
    decreases a.len(),
{
    if a.len() == 0 {
        assert(a + b =~= b);
        if spec_serialize_list(b) is Ok {
            assert(Seq::<DynModel>::empty() + spec_serialize_list(b)->Ok_0 =~= spec_serialize_list(
                b,
            )->Ok_0);
        }
    } else {
        assert((a + b).len() > 0);
        assert((a + b)[0] == a[0]);
        assert((a + b).drop_first() =~= a.drop_first() + b);
        lemma_serialize_list_concat(a.drop_first(), b);
        if spec_serialize(a[0]) is Ok && spec_serialize_list(a.drop_first()) is Ok
            && spec_serialize_list(b) is Ok {
            let d = spec_serialize(a[0])->Ok_0;
            let ra = spec_serialize_list(a.drop_first())->Ok_0;
            let db = spec_serialize_list(b)->Ok_0;
            assert(seq![d] + (ra + db) =~= (seq![d] + ra) + db);
        }
    }
}

/// Pair serialization distributes over concatenation in the same way.
pub proof fn lemma_serialize_pairs_concat(
    a: Seq<(ValueModel, ValueModel)>,
    b: Seq<(ValueModel, ValueModel)>,
)
    ensures
        spec_serialize_pairs(a + b) == match spec_serialize_pairs(a) {
            Result::Err(e) => Result::<Seq<(Seq<char>, DynModel)>, ErrorModel>::Err(e),
            Result::Ok(da) => match spec_serialize_pairs(b) {
                Result::Err(e) => Result::Err(e),
                Result::Ok(db) => Result::Ok(da + db),
            },
        },
    decreases a.len(),
{
    if a.len() == 0 {
        assert(a + b =~= b);
        if spec_serialize_pairs(b) is Ok {
            assert(Seq::<(Seq<char>, DynModel)>::empty() + spec_serialize_pairs(b)->Ok_0
                =~= spec_serialize_pairs(b)->Ok_0);
        }
    } else {
        assert((a + b).len() > 0);
        assert((a + b)[0] == a[0]);
        assert((a + b).drop_first() =~= a.drop_first() + b);
        lemma_serialize_pairs_concat(a.drop_first(), b);
        if spec_serialize(a[0].0) is Ok && spec_coerce_key(spec_serialize(a[0].0)->Ok_0) is Ok
            && spec_serialize(a[0].1) is Ok && spec_serialize_pairs(a.drop_first()) is Ok
            && spec_serialize_pairs(b) is Ok {
            let k = spec_coerce_key(spec_serialize(a[0].0)->Ok_0)->Ok_0;
            let dv = spec_serialize(a[0].1)->Ok_0;
            let ra = spec_serialize_pairs(a.drop_first())->Ok_0;
            let db = spec_serialize_pairs(b)->Ok_0;
            assert(seq![(k, dv)] + (ra + db) =~= (seq![(k, dv)] + ra) + db);
        }
    }
}

/// Field serialization distributes over concatenation in the same way.
pub proof fn lemma_serialize_fields_concat(
    a: Seq<(Seq<char>, ValueModel)>,
    b: Seq<(Seq<char>, ValueModel)>,
)
    ensures
        spec_serialize_fields(a + b) == match spec_serialize_fields(a) {
            Result::Err(e) => Result::<Seq<(Seq<char>, DynModel)>, ErrorModel>::Err(e),
            Result::Ok(da) => match spec_serialize_fields(b) {
                Result::Err(e) => Result::Err(e),
                Result::Ok(db) => Result::Ok(da + db),
            },
        },
    decreases a.len(),
{
    if a.len() == 0 {
        assert(a + b =~= b);
        if spec_serialize_fields(b) is Ok {
            assert(Seq::<(Seq<char>, DynModel)>::empty() + spec_serialize_fields(b)->Ok_0
                =~= spec_serialize_fields(b)->Ok_0);
        }
    } else {
        assert((a + b).len() > 0);
        assert((a + b)[0] == a[0]);
        assert((a + b).drop_first() =~= a.drop_first() + b);
        lemma_serialize_fields_concat(a.drop_first(), b);
        if spec_serialize(a[0].1) is Ok && spec_serialize_fields(a.drop_first()) is Ok
            && spec_serialize_fields(b) is Ok {
            let d = spec_serialize(a[0].1)->Ok_0;
            let ra = spec_serialize_fields(a.drop_first())->Ok_0;
            let db = spec_serialize_fields(b)->Ok_0;
            assert(seq![(a[0].0, d)] + (ra + db) =~= (seq![(a[0].0, d)] + ra) + db);
        }
    }
}

/// The model of an executable serialization result.
pub open spec fn result_model(r: Result<DynamicValue, SerializeError>) -> Result<
    DynModel,
    ErrorModel,
> {
    match r {
        Result::Ok(d) => Result::Ok(d@),
        Result::Err(e) => Result::Err(e@),
    }
}

/// Relies on alloc's string conversion for `char`: the string of a character
/// is that single character.
#[verifier::external_body]
fn char_to_string(c: char) -> (r: String)
    ensures
        r@ == seq![c],
{
    c.to_string()
}

/// Copies a byte buffer.
fn clone_bytes(b: &Vec<u8>) -> (r: Vec<u8>)
    ensures
        r@ == b@,
{
    let r = b.clone();
    proof {
        assert(r@ =~= b@);
    }
    r
}

/// Serializes one structured value into one dynamic value, or reports the
/// first error met in a left-to-right, depth-first walk. On an error no
/// dynamic value is produced at all; partial accumulation is discarded.
pub fn serialize(v: &Value) -> (r: Result<DynamicValue, SerializeError>)
    ensures
        result_model(r) == spec_serialize(v@),
    decreases v,
{
    match v {
        Value::Bool(b) => Result::Ok(DynamicValue::Bool(*b)),
        Value::Signed(n) => Result::Ok(encode_signed(*n)),
        Value::Unsigned(n) => Result::Ok(encode_unsigned(*n)),
        Value::Character(c) => Result::Ok(DynamicValue::Text(char_to_string(*c))),
        Value::Text(s) => Result::Ok(DynamicValue::Text(s.clone())),
        Value::Bytes(b) => Result::Ok(DynamicValue::Bytes(clone_bytes(b))),
        Value::Unit => Result::Ok(DynamicValue::Null),
        Value::NamedUnit(name) => Result::Ok(DynamicValue::Text(name.clone())),
        Value::Absent => Result::Ok(DynamicValue::Null),
        Value::Present(inner) => serialize(&**inner),
        Value::Sequence(elems) => serialize_list(elems),
        Value::Mapping(pairs) => serialize_pairs(pairs),
        Value::Record(fields) => serialize_fields(fields),
        Value::UnitVariant(name) => Result::Ok(DynamicValue::Text(name.clone())),
        Value::NewtypeVariant(name, inner) => match serialize(&**inner) {
            Result::Ok(payload) => Result::Ok(wrap_variant(name.clone(), payload)),
            Result::Err(e) => Result::Err(e),
        },
        Value::TupleVariant(name, elems) => match serialize_list(elems) {
            Result::Ok(items) => Result::Ok(wrap_variant(name.clone(), items)),
            Result::Err(e) => Result::Err(e),
        },
        Value::StructVariant(name, fields) => match serialize_fields(fields) {
            Result::Ok(entries) => Result::Ok(wrap_variant(name.clone(), entries)),
            Result::Err(e) => Result::Err(e),
        },
        Value::Unserializable(msg) => Result::Err(SerializeError::Custom(msg.clone())),
    }
}

/// Serializes a list of values into a dynamic array, element by element in
/// order, aborting on the first failing element.
#[verifier::loop_isolation(false)]
pub fn serialize_list(elems: &Vec<Value>) -> (r: Result<DynamicValue, SerializeError>)
    ensures
        match spec_serialize_list(value_list_model(*elems)) {
            Result::Ok(items) => r matches Ok(d) && d@ == DynModel::Array(items),
            Result::Err(e) => r matches Err(err) && err@ == e,
        },
    decreases elems,
{
    let ghost lm = value_list_model(*elems);
    let mut builder = ArrayBuilder::new();
    let mut i: usize = 0;
    while i < elems.len()
        invariant
            i <= elems.len(),
            spec_serialize_list(lm.subrange(0, i as int)) == Result::<
                Seq<DynModel>,
                ErrorModel,
            >::Ok(builder.items_model()),
        decreases elems.len() - i,
    {
        match serialize(&elems[i]) {
            Result::Ok(d) => {
                proof {
                    let pre = lm.subrange(0, i as int);
                    let single = seq![lm[i as int]];
                    lemma_serialize_list_concat(pre, single);
                    assert(spec_serialize(lm[i as int]) == Result::<DynModel, ErrorModel>::Ok(d@));
                    assert(spec_serialize_list(Seq::<ValueModel>::empty()) == Result::<
                        Seq<DynModel>,
                        ErrorModel,
                    >::Ok(Seq::<DynModel>::empty()));
                    assert(single.drop_first() =~= Seq::<ValueModel>::empty());
                    assert(seq![d@] + Seq::<DynModel>::empty() =~= seq![d@]);
                    assert(spec_serialize_list(single) == Result::<
                        Seq<DynModel>,
                        ErrorModel,
                    >::Ok(seq![d@]));
                    assert(lm.subrange(0, i + 1) =~= pre + single);
                    assert(builder.items_model() + seq![d@] =~= builder.items_model().push(d@));
                }
                builder.push(d);
            },
            Result::Err(e) => {
                proof {
                    let pre = lm.subrange(0, i as int);
                    let suf = lm.subrange(i as int, lm.len() as int);
                    assert(lm =~= pre + suf);
                    assert(suf[0] == lm[i as int]);
                    lemma_serialize_list_concat(pre, suf);
                }
                return Result::Err(e);
            },
        }
        i = i + 1;
    }
    proof {
        assert(lm.subrange(0, elems.len() as int) =~= lm);
    }
    Result::Ok(builder.finish())
}

/// Serializes the pairs of a map into a dynamic object. For each pair the
/// key is serialized and coerced to a property name, then the value is
/// serialized and bound to it; the first error aborts the rest.
#[verifier::loop_isolation(false)]
pub fn serialize_pairs(pairs: &Vec<(Value, Value)>) -> (r: Result<DynamicValue, SerializeError>)
    ensures
        match spec_serialize_pairs(pair_list_model(*pairs)) {
            Result::Ok(entries) => r matches Ok(d) && d@ == DynModel::Object(entries),
            Result::Err(e) => r matches Err(err) && err@ == e,
        },
    decreases pairs,
{
    let ghost pm = pair_list_model(*pairs);
    let mut builder = ObjectBuilder::new();
    let mut i: usize = 0;
    while i < pairs.len()
        invariant
            i <= pairs.len(),
            builder.pending_model() is None,
            spec_serialize_pairs(pm.subrange(0, i as int)) == Result::<
                Seq<(Seq<char>, DynModel)>,
                ErrorModel,
            >::Ok(builder.entries_model()),
        decreases pairs.len() - i,
    {
        proof {
            let pre = pm.subrange(0, i as int);
            let suf = pm.subrange(i as int, pm.len() as int);
            assert(pm =~= pre + suf);
            assert(suf[0] == pm[i as int]);
            lemma_serialize_pairs_concat(pre, suf);
        }
        let pair = &pairs[i];
        let dk = match serialize(&pair.0) {
            Result::Ok(dk) => dk,
            Result::Err(e) => {
                return Result::Err(e);
            },
        };
        let key = match coerce_key(dk) {
            Result::Ok(key) => key,
            Result::Err(e) => {
                return Result::Err(e);
            },
        };
        let dv = match serialize(&pair.1) {
            Result::Ok(dv) => dv,
            Result::Err(e) => {
                return Result::Err(e);
            },
        };
        let ghost prev = builder.entries_model();
        builder.supply_key(key);
        match builder.supply_value(dv) {
            Result::Ok(_) => {},
            Result::Err(e) => {
                return Result::Err(e);
            },
        }
        proof {
            let pre = pm.subrange(0, i as int);
            let single = seq![pm[i as int]];
            lemma_serialize_pairs_concat(pre, single);
            assert(spec_serialize(pm[i as int].0) == Result::<DynModel, ErrorModel>::Ok(dk@));
            assert(spec_coerce_key(dk@) == Result::<Seq<char>, ErrorModel>::Ok(key@));
            assert(spec_serialize(pm[i as int].1) == Result::<DynModel, ErrorModel>::Ok(dv@));
            assert(spec_serialize_pairs(Seq::<(ValueModel, ValueModel)>::empty()) == Result::<
                Seq<(Seq<char>, DynModel)>,
                ErrorModel,
            >::Ok(Seq::<(Seq<char>, DynModel)>::empty()));
            assert(single.drop_first() =~= Seq::<(ValueModel, ValueModel)>::empty());
            assert(seq![(key@, dv@)] + Seq::<(Seq<char>, DynModel)>::empty() =~= seq![(key@, dv@)]);
            assert(spec_serialize_pairs(single) == Result::<
                Seq<(Seq<char>, DynModel)>,
                ErrorModel,
            >::Ok(seq![(key@, dv@)]));
            assert(pm.subrange(0, i + 1) =~= pre + single);
            assert(prev + seq![(key@, dv@)] =~= prev.push((key@, dv@)));
        }
        i = i + 1;
    }
    proof {
        assert(pm.subrange(0, pairs.len() as int) =~= pm);
    }
    builder.finish()
}

/// Serializes the named fields of a record into a dynamic object, keeping
/// the declared names as the keys, aborting on the first failing field.
#[verifier::loop_isolation(false)]
pub fn serialize_fields(fields: &Vec<(String, Value)>) -> (r: Result<DynamicValue, SerializeError>)
    ensures
        match spec_serialize_fields(field_list_model(*fields)) {
            Result::Ok(entries) => r matches Ok(d) && d@ == DynModel::Object(entries),
            Result::Err(e) => r matches Err(err) && err@ == e,
        },
    decreases fields,
{
    let ghost fm = field_list_model(*fields);
    let mut builder = ObjectBuilder::new();
    let mut i: usize = 0;
    while i < fields.len()
        invariant
            i <= fields.len(),
            builder.pending_model() is None,
            spec_serialize_fields(fm.subrange(0, i as int)) == Result::<
                Seq<(Seq<char>, DynModel)>,
                ErrorModel,
            >::Ok(builder.entries_model()),
        decreases fields.len() - i,
    {
        let field = &fields[i];
        let d = match serialize(&field.1) {
            Result::Ok(d) => d,
            Result::Err(e) => {
                proof {
                    let pre = fm.subrange(0, i as int);
                    let suf = fm.subrange(i as int, fm.len() as int);
                    assert(fm =~= pre + suf);
                    assert(suf[0] == fm[i as int]);
                    lemma_serialize_fields_concat(pre, suf);
                }
                return Result::Err(e);
            },
        };
        let ghost prev = builder.entries_model();
        builder.supply_key(field.0.clone());
        match builder.supply_value(d) {
            Result::Ok(_) => {},
            Result::Err(e) => {
                return Result::Err(e);
            },
        }
        proof {
            let pre = fm.subrange(0, i as int);
            let single = seq![fm[i as int]];
            lemma_serialize_fields_concat(pre, single);
            assert(fm[i as int].0 == field.0@);
            assert(spec_serialize(fm[i as int].1) == Result::<DynModel, ErrorModel>::Ok(d@));
            assert(spec_serialize_fields(Seq::<(Seq<char>, ValueModel)>::empty()) == Result::<
                Seq<(Seq<char>, DynModel)>,
                ErrorModel,
            >::Ok(Seq::<(Seq<char>, DynModel)>::empty()));
            assert(single.drop_first() =~= Seq::<(Seq<char>, ValueModel)>::empty());
            assert(seq![(field.0@, d@)] + Seq::<(Seq<char>, DynModel)>::empty() =~= seq![
                (field.0@, d@),
            ]);
            assert(spec_serialize_fields(single) == Result::<
                Seq<(Seq<char>, DynModel)>,
                ErrorModel,
            >::Ok(seq![(field.0@, d@)]));
            assert(fm.subrange(0, i + 1) =~= pre + single);
            assert(prev + seq![(field.0@, d@)] =~= prev.push((field.0@, d@)));
        }
        i = i + 1;
    }
    proof {
        assert(fm.subrange(0, fields.len() as int) =~= fm);
    }
    builder.finish()
}

} // verus!
