//! Error kinds of the codec.
//!
//! Schema errors (`UnsupportedFieldKind`, `FieldOutOfBounds`) surface at
//! parse time, before any buffer is touched. `TypeMismatch` and
//! `UnsupportedWidth` surface while a row is being coerced and abort the
//! whole call. `MissingKeyField` surfaces before any row is decoded.

use vstd::prelude::*;

use crate::schema::DtypeKind;
use crate::value::{FloatValue, Value};

verus! {

/// The coarse type of a dynamic value, used to name both sides of a
/// type mismatch.
#[derive(Debug, Clone, Copy, PartialEq, Eq, Structural)]
pub enum ValueTag {
    Nil,
    Bool,
    Int,
    Float,
    String,
    Blob,
    GeoJson,
    Hll,
    Infinity,
    Wildcard,
}

/// The coarse type of a value.
pub open spec fn spec_tag_of(v: Value) -> ValueTag {
    match v {
        Value::Nil => ValueTag::Nil,
        Value::Bool(_) => ValueTag::Bool,
        Value::Int(_) => ValueTag::Int,
        Value::Float(_) => ValueTag::Float,
        Value::String(_) => ValueTag::String,
        Value::Blob(_) => ValueTag::Blob,
        Value::GeoJson(_) => ValueTag::GeoJson,
        Value::Hll(_) => ValueTag::Hll,
        Value::Infinity => ValueTag::Infinity,
        Value::Wildcard => ValueTag::Wildcard,
    }
}

/// The coarse type of a value.
pub fn tag_of(v: &Value) -> (r: ValueTag)
    ensures
        r == spec_tag_of(*v),
{
    match v {
        Value::Nil => ValueTag::Nil,
        Value::Bool(_) => ValueTag::Bool,
        Value::Int(_) => ValueTag::Int,
        Value::Float(_) => ValueTag::Float,
        Value::String(_) => ValueTag::String,
        Value::Blob(_) => ValueTag::Blob,
        Value::GeoJson(_) => ValueTag::GeoJson,
        Value::Hll(_) => ValueTag::Hll,
        Value::Infinity => ValueTag::Infinity,
        Value::Wildcard => ValueTag::Wildcard,
    }
}

/// An error of the codec. Every variant names the place it arose at.
#[derive(Debug, Clone, PartialEq)]
pub enum CodecError {
    /// A schema field carries an element-type tag the codec does not
    /// recognize; surfaced at parse time.
    UnsupportedFieldKind { field: String, tag: char },
    /// A schema field's byte range exceeds the row stride (or its base
    /// element would overrun the field's own slot); surfaced at parse time.
    FieldOutOfBounds { field: String, offset: usize, itemsize: usize, row_stride: usize },
    /// A value's type cannot be coerced into the field's kind; surfaced
    /// while encoding, aborting the call.
    TypeMismatch { field: String, value: ValueTag, kind: DtypeKind },
    /// A scalar element width other than 1, 2, 4 or 8 bytes (or, for
    /// floats, 2, 4 or 8); surfaced at the field's first use.
    UnsupportedWidth { field: String, width: usize },
    /// The decoder was asked to use a key field the schema does not hold;
    /// surfaced before any row is read.
    MissingKeyField { key_field: String },
}

} // verus!
