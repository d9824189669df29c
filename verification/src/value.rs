//! The dynamically typed value carried by one bus property.
//!
//! Every property of the raw object graph arrives as one of these values.
//! Nothing marks a value as "a path" or "a byte string"; the decoders infer
//! meaning from the property name alone and therefore must tolerate any
//! shape here. The accessors in this module mirror that tolerance: each
//! returns `None` (or a default) instead of failing when the shape is not
//! the expected one, and each looks through any number of nested variant
//! wrappers, as the transport layer does.

use vstd::prelude::*;

verus! {

/// One dynamically typed bus value: a boolean, an unsigned or signed
/// 64-bit integer, a UTF-8 string, an array of further values, or a
/// variant-wrapped inner value.
#[derive(Debug, PartialEq, Eq)]
pub enum Value {
    Bool(bool),
    U64(u64),
    I64(i64),
    Str(String),
    Array(Vec<Value>),
    Variant(Box<Value>),
}

/// The string carried by a value, looking through variant wrappers:
/// `None` when the value is not a string.
pub open spec fn spec_as_str(v: Value) -> Option<Seq<char>>
    decreases v,
{
    match v {
        Value::Str(s) => Some(s@),
        Value::Variant(inner) => spec_as_str(*inner),
        _ => None,
    }
}

/// The unsigned integer carried by a value, looking through variant
/// wrappers. A boolean reads as 0 or 1, matching the wire encoding of
/// bus booleans; anything else that is not an unsigned integer is `None`.
pub open spec fn spec_as_u64(v: Value) -> Option<u64>
    decreases v,
{
    match v {
        Value::U64(u) => Some(u),
        Value::Bool(b) => Some(if b { 1u64 } else { 0u64 }),
        Value::Variant(inner) => spec_as_u64(*inner),
        _ => None,
    }
}

/// The elements of a value iterated as a sequence: the elements of an
/// array, or the single wrapped value of a variant, as the transport
/// layer iterates them. `None` when the value is not a container.
pub open spec fn spec_elems(v: Value) -> Option<Seq<Value>> {
    match v {
        Value::Array(items) => Some(items@),
        Value::Variant(inner) => Some(seq![*inner]),
        _ => None,
    }
}

/// Relies on `std::slice::from_ref`: the returned slice holds exactly
/// the one referenced value.
#[verifier::external_body]
fn slice_from_ref(v: &Value) -> (r: &[Value])
    ensures
        r@.len() == 1,
        r@[0] == *v,
{
    std::slice::from_ref(v)
}

impl Value {
    /// Read this value as a string, looking through variant wrappers.
    pub fn as_str(&self) -> (r: Option<&str>)
        ensures
            r matches Some(s) ==> spec_as_str(*self) == Some(s@),
            r is None ==> spec_as_str(*self) is None,
        decreases *self,
    {
        match self {
            Value::Str(s) => Some(s.as_str()),
            Value::Variant(inner) => inner.as_str(),
            _ => None,
        }
    }

    /// Read this value as an unsigned 64-bit integer, looking through
    /// variant wrappers; booleans read as 0 or 1.
    pub fn as_u64(&self) -> (r: Option<u64>)
        ensures
            r == spec_as_u64(*self),
        decreases *self,
    {
        match self {
            Value::U64(u) => Some(*u),
            Value::Bool(b) => Some(if *b { 1 } else { 0 }),
            Value::Variant(inner) => inner.as_u64(),
            _ => None,
        }
    }

    /// Iterate this value as a sequence: the elements of an array, or
    /// the single wrapped value of a variant.
    pub fn elems(&self) -> (r: Option<&[Value]>)
        ensures
            r matches Some(items) ==> spec_elems(*self) == Some(items@),
            r is None ==> spec_elems(*self) is None,
    {
        match self {
            Value::Array(items) => Some(items.as_slice()),
            Value::Variant(inner) => {
                let r = slice_from_ref(inner);
                proof {
                    assert(r@ =~= seq![*(*inner)]);
                }
                Some(r)
            },
            _ => None,
        }
    }
}

} // verus!
