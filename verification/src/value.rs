//! The dynamic value model: tagged values as the store's client hands them
//! over, together with records, keys and batch rows.
//!
//! Floating-point numbers are carried as their IEEE 754 bit patterns
//! (`FloatValue`), tagged with the width they originated from; the codec
//! converts between widths on the bit level (see `float_bits`).

use vstd::prelude::*;

verus! {

/// A floating-point number, stored as raw IEEE 754 bits with its
/// originating width.
#[derive(Debug, Clone, Copy, PartialEq, Eq)]
pub enum FloatValue {
    /// Bits of an IEEE 754 binary32 value.
    F32(u32),
    /// Bits of an IEEE 754 binary64 value.
    F64(u64),
}

/// A dynamically typed value of the store: the tagged union that records
/// carry per bin.
#[derive(Debug, Clone, PartialEq)]
pub enum Value {
    /// Absence of a value; the codec writes nothing for it.
    Nil,
    Bool(bool),
    Int(i64),
    Float(FloatValue),
    String(String),
    Blob(Vec<u8>),
    GeoJson(String),
    Hll(Vec<u8>),
    Infinity,
    Wildcard,
}

/// Whether two values are the same logical value: equal tags, equal
/// contents, with strings and byte blocks compared by their contents.
pub open spec fn value_equiv(a: Value, b: Value) -> bool {
    match (a, b) {
        (Value::Nil, Value::Nil) => true,
        (Value::Bool(x), Value::Bool(y)) => x == y,
        (Value::Int(x), Value::Int(y)) => x == y,
        (Value::Float(x), Value::Float(y)) => x == y,
        (Value::String(x), Value::String(y)) => x@ == y@,
        (Value::Blob(x), Value::Blob(y)) => x@ == y@,
        (Value::GeoJson(x), Value::GeoJson(y)) => x@ == y@,
        (Value::Hll(x), Value::Hll(y)) => x@ == y@,
        (Value::Infinity, Value::Infinity) => true,
        (Value::Wildcard, Value::Wildcard) => true,
        _ => false,
    }
}

/// Copy a value; the copy is the same logical value.
pub fn clone_value(v: &Value) -> (r: Value)
    ensures
        value_equiv(r, *v),
{
    match v {
        Value::Nil => Value::Nil,
        Value::Bool(b) => Value::Bool(*b),
        Value::Int(i) => Value::Int(*i),
        Value::Float(fv) => Value::Float(*fv),
        Value::String(s) => Value::String(s.clone()),
        Value::Blob(b) => Value::Blob(b.clone()),
        Value::GeoJson(s) => Value::GeoJson(s.clone()),
        Value::Hll(b) => Value::Hll(b.clone()),
        Value::Infinity => Value::Infinity,
        Value::Wildcard => Value::Wildcard,
    }
}

/// A record key: namespace, set, the user's logical key value and the
/// server-side digest.
#[derive(Debug, Clone, PartialEq)]
pub struct Key {
    pub namespace: String,
    pub set_name: String,
    pub user_key: Option<Value>,
    pub digest: [u8; 20],
}

/// A named value within a record.
#[derive(Debug, Clone, PartialEq)]
pub struct Bin {
    pub name: String,
    pub value: Value,
}

impl Bin {
    /// Pair a bin name with its value.
    pub fn new(name: String, value: Value) -> (r: Bin)
        ensures
            r.name == name,
            r.value == value,
    {
        Bin { name, value }
    }
}

/// A record as returned by a batch read: its generation counter, its
/// remaining time to live in seconds (`None` meaning it never expires),
/// and its bins in order.
#[derive(Debug, Clone, PartialEq)]
pub struct Record {
    pub generation: u32,
    pub ttl_seconds: Option<u32>,
    pub bins: Vec<Bin>,
}

/// One row of a batch result: the key it was requested under, the server's
/// status code if any, and the record where the read succeeded.
#[derive(Debug, Clone, PartialEq)]
pub struct BatchRecord {
    pub key: Key,
    pub result_code: Option<crate::result_code::ResultCode>,
    pub record: Option<Record>,
}

} // verus!
