//! Shape builders: the stateful accumulators a composite value is built
//! with, and the single-key variant wrapper.
//!
//! Every builder is single-use: finalizing consumes it, so a finalized
//! builder can never be touched again. The object builder enforces strict
//! key/value alternation with an explicit pending-key state.

use vstd::prelude::*;
use vstd::string::StringExecFns;

use crate::error::{ErrorModel, SerializeError};
use crate::num::{dec_string, dec_string_signed};
use crate::value::{dynamic_list_model, entry_list_model, DynModel, DynamicValue};

verus! {

/// An accumulator for an ordered array of dynamic values.
pub struct ArrayBuilder {
    items: Vec<DynamicValue>,
}

impl ArrayBuilder {
    /// The models of the items appended so far, in order.
    pub closed spec fn items_model(&self) -> Seq<DynModel> {
        dynamic_list_model(self.items)
    }

    /// Creates an empty array builder.
    pub fn new() -> (b: ArrayBuilder)
        ensures
            b.items_model() == Seq::<DynModel>::empty(),
    {
        let b = ArrayBuilder { items: Vec::new() };
        proof {
            assert(b.items_model() =~= Seq::<DynModel>::empty());
        }
        b
    }

    /// Appends one already-serialized element. Appending never fails.
    pub fn push(&mut self, item: DynamicValue)
        ensures
            final(self).items_model() == old(self).items_model().push(item@),
    {
        let ghost prev = self.items_model();
        self.items.push(item);
        proof {
            assert(self.items_model() =~= prev.push(item@));
        }
    }

    /// Finalizes the builder into an array, consuming it.
    pub fn finish(self) -> (d: DynamicValue)
        ensures
            d@ == DynModel::Array(self.items_model()),
    {
        DynamicValue::Array(self.items)
    }
}

/// An accumulator for an ordered key/value object, serving maps, records and
/// struct-variant payloads alike.
///
/// Keys and values strictly alternate: a key must be supplied before each
/// value, and a later key supplied while one is pending simply replaces it
/// (last key wins). Finalizing is only valid with no pending key. Entries are
/// kept in insertion order; a repeated key appends a further entry.
pub struct ObjectBuilder {
    entries: Vec<(String, DynamicValue)>,
    pending: Option<String>,
}

impl ObjectBuilder {
    /// The models of the bound key/value entries so far, in order.
    pub closed spec fn entries_model(&self) -> Seq<(Seq<char>, DynModel)> {
        entry_list_model(self.entries)
    }

    /// The model of the pending unmatched key, if one was supplied.
    pub closed spec fn pending_model(&self) -> Option<Seq<char>> {
        match self.pending {
            Option::Some(k) => Option::Some(k@),
            Option::None => Option::None,
        }
    }

    /// Creates an empty object builder, expecting a key.
    pub fn new() -> (b: ObjectBuilder)
        ensures
            b.entries_model() == Seq::<(Seq<char>, DynModel)>::empty(),
            b.pending_model() is None,
    {
        let b = ObjectBuilder { entries: Vec::new(), pending: Option::None };
        proof {
            assert(b.entries_model() =~= Seq::<(Seq<char>, DynModel)>::empty());
        }
        b
    }

    /// Supplies the key for the next value. A key supplied while another is
    /// pending replaces it.
    pub fn supply_key(&mut self, key: String)
        ensures
            final(self).entries_model() == old(self).entries_model(),
            final(self).pending_model() == Option::Some(key@),
    {
        self.pending = Option::Some(key);
    }

    /// Supplies the value bound to the pending key. Fails with the
    /// missing-key error, leaving the builder unchanged, when no key is
    /// pending.
    pub fn supply_value(&mut self, value: DynamicValue) -> (r: Result<(), SerializeError>)
        ensures
            match old(self).pending_model() {
                Option::Some(k) => {
                    &&& r is Ok
                    &&& final(self).entries_model() == old(self).entries_model().push(
                        (k, value@),
                    )
                    &&& final(self).pending_model() is None
                },
                Option::None => {
                    &&& r matches Err(e) && e@ == ErrorModel::MissingKey
                    &&& *final(self) == *old(self)
                },
            },
    {
        let ghost prev = self.entries_model();
        let pending = self.pending.take();
        match pending {
            Option::Some(key) => {
                let ghost k = key@;
                self.entries.push((key, value));
                proof {
                    assert(self.entries_model() =~= prev.push((k, value@)));
                }
                Result::Ok(())
            },
            Option::None => Result::Err(SerializeError::MissingKey),
        }
    }

    /// Finalizes the builder into an object, consuming it. Fails with the
    /// pending-key error when a key was supplied without its value.
    pub fn finish(self) -> (r: Result<DynamicValue, SerializeError>)
        ensures
            match self.pending_model() {
                Option::Some(_) => r matches Err(e) && e@ == ErrorModel::PendingKey,
                Option::None => r matches Ok(d) && d@ == DynModel::Object(self.entries_model()),
            },
    {
        match self.pending {
            Option::Some(_) => Result::Err(SerializeError::PendingKey),
            Option::None => Result::Ok(DynamicValue::Object(self.entries)),
        }
    }
}

/// Wraps an already-serialized variant payload in a single-key object whose
/// key is the case name.
pub fn wrap_variant(name: String, payload: DynamicValue) -> (d: DynamicValue)
    ensures
        d@ == DynModel::Object(seq![(name@, payload@)]),
{
    let ghost n = name@;
    let mut entries: Vec<(String, DynamicValue)> = Vec::new();
    entries.push((name, payload));
    let d = DynamicValue::Object(entries);
    proof {
        assert(d@->Object_0 =~= seq![(n, payload@)]);
    }
    d
}

/// The property name a serialized map key coerces to: a string stays itself,
/// numbers keep their decimal form, booleans and null use their conventional
/// names. A composite or byte-buffer key has no property name.
pub open spec fn spec_coerce_key(d: DynModel) -> Result<Seq<char>, ErrorModel> {
    match d {
        DynModel::Null => Result::Ok("null"@),
        DynModel::Bool(b) => Result::Ok(if b { "true"@ } else { "false"@ }),
        DynModel::Number(n) => Result::Ok(dec_string(n)),
        DynModel::BigNumber(s) => Result::Ok(s),
        DynModel::Text(s) => Result::Ok(s),
        DynModel::Bytes(_) => Result::Err(ErrorModel::InvalidKey),
        DynModel::Array(_) => Result::Err(ErrorModel::InvalidKey),
        DynModel::Object(_) => Result::Err(ErrorModel::InvalidKey),
    }
}

/// Coerces a serialized map key to a property name, per [`spec_coerce_key`].
pub fn coerce_key(d: DynamicValue) -> (r: Result<String, SerializeError>)
    ensures
        match spec_coerce_key(d@) {
            Result::Ok(k) => r matches Ok(s) && s@ == k,
            Result::Err(e) => r matches Err(err) && err@ == e,
        },
{
    match d {
        DynamicValue::Null => Result::Ok(String::from_str("null")),
        DynamicValue::Bool(b) => {
            if b {
                Result::Ok(String::from_str("true"))
            } else {
                Result::Ok(String::from_str("false"))
            }
        },
        DynamicValue::Number(n) => Result::Ok(dec_string_signed(n)),
        DynamicValue::BigNumber(s) => Result::Ok(s),
        DynamicValue::Text(s) => Result::Ok(s),
        DynamicValue::Bytes(_) => Result::Err(SerializeError::InvalidKey),
        DynamicValue::Array(_) => Result::Err(SerializeError::InvalidKey),
        DynamicValue::Object(_) => Result::Err(SerializeError::InvalidKey),
    }
}

} // verus!
