//! Errors reported by the serialization engine.

use vstd::prelude::*;
use vstd::string::StringExecFns;

verus! {

/// The mathematical model of a [`SerializeError`]: the same three kinds, with
/// the custom message abstracted to a sequence of characters.
#[verifier::ext_equal]
pub ghost enum ErrorModel {
    /// A value was supplied to an object builder that had no pending key.
    MissingKey,
    /// An object builder was finalized while a key was still pending.
    PendingKey,
    /// A map key serialized to a composite or byte-buffer value, which cannot
    /// be coerced to a property name.
    InvalidKey,
    /// A child value's own serializer reported a failure with this message.
    Custom(Seq<char>),
}

/// An error produced while serializing a structured value.
///
/// The first three kinds are structural: a builder or a key was used out of
/// its required sequence. `Custom` propagates a failure reported by a child
/// value's own serializer, carrying its human-readable message.
#[derive(Debug)]
pub enum SerializeError {
    /// A value was supplied to an object builder that had no pending key.
    MissingKey,
    /// An object builder was finalized while a key was still pending.
    PendingKey,
    /// A map key serialized to a composite or byte-buffer value, which cannot
    /// be coerced to a property name.
    InvalidKey,
    /// A child value's own serializer reported a failure with this message.
    Custom(String),
}

impl View for SerializeError {
    type V = ErrorModel;

    open spec fn view(&self) -> ErrorModel {
        match self {
            SerializeError::MissingKey => ErrorModel::MissingKey,
            SerializeError::PendingKey => ErrorModel::PendingKey,
            SerializeError::InvalidKey => ErrorModel::InvalidKey,
            SerializeError::Custom(msg) => ErrorModel::Custom(msg@),
        }
    }
}

/// The message that describes an error: a fixed phrase for each structural
/// kind, and the propagated message of a custom failure.
pub open spec fn spec_message(e: ErrorModel) -> Seq<char> {
    match e {
        ErrorModel::MissingKey => "missing key for a value"@,
        ErrorModel::PendingKey => "finalized with a pending key"@,
        ErrorModel::InvalidKey => "key does not serialize to a primitive"@,
        ErrorModel::Custom(msg) => msg,
    }
}

impl SerializeError {
    /// A human-readable description of the error.
    pub fn message(&self) -> (r: String)
        ensures
            r@ == spec_message(self@),
    {
        match self {
            SerializeError::MissingKey => String::from_str("missing key for a value"),
            SerializeError::PendingKey => String::from_str("finalized with a pending key"),
            SerializeError::InvalidKey => String::from_str("key does not serialize to a primitive"),
            SerializeError::Custom(msg) => msg.clone(),
        }
    }
}

} // verus!
