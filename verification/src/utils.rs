//! Scalar extraction utilities.
//!
//! Each extractor pulls one kind of scalar out of a dynamically typed
//! [`Value`] with an explicit policy for absent or ill-shaped input:
//! a missing or wrongly shaped value decodes to `None`, zero or `false`,
//! never to an error. The empty string and "missing" are deliberately
//! unified: an extractor never hands back an empty string as present.

use vstd::prelude::*;
use vstd::utf8::{decode_utf8, valid_utf8};

use crate::value::{spec_as_str, spec_as_u64, spec_elems, Value};

verus! {

/// The non-empty string carried by a value: `None` when the value is not
/// a string or is the empty string.
pub open spec fn spec_get_string(v: Value) -> Option<Seq<char>> {
    match spec_as_str(v) {
        Some(s) => if s.len() == 0 {
            None
        } else {
            Some(s)
        },
        None => None,
    }
}

/// The unsigned integer carried by a value, or 0 when it cannot be read
/// as one.
pub open spec fn spec_get_u64(v: Value) -> u64 {
    match spec_as_u64(v) {
        Some(u) => u,
        None => 0u64,
    }
}

/// True exactly when the value reads as a nonzero unsigned integer.
pub open spec fn spec_get_bool(v: Value) -> bool {
    spec_get_u64(v) != 0
}

/// The bytes drawn from the first `n` elements of an array value: each
/// element that reads as an unsigned integer contributes its low byte;
/// the rest are skipped.
pub open spec fn spec_bytes_prefix(items: Seq<Value>, n: int) -> Seq<u8>
    decreases n,
{
    if n <= 0 {
        Seq::empty()
    } else {
        let rest = spec_bytes_prefix(items, n - 1);
        match spec_as_u64(items[n - 1]) {
            Some(u) => rest.push(u as u8),
            None => rest,
        }
    }
}

/// The bytes drawn from all elements of an array value.
pub open spec fn spec_bytes_of(items: Seq<Value>) -> Seq<u8> {
    spec_bytes_prefix(items, items.len() as int)
}

/// The byte-array-to-string decoding: collect the bytes, drop one
/// trailing NUL if present, and decode as UTF-8. `None` when the bytes
/// are not valid UTF-8. The trailing NUL is dropped only when the last
/// byte really is zero, so chaining the decoding through two layers
/// cannot corrupt the result.
pub open spec fn spec_atostr(items: Seq<Value>) -> Option<Seq<char>> {
    let bytes = spec_bytes_of(items);
    let trimmed = if bytes.len() > 0 && bytes.last() == 0u8 {
        bytes.drop_last()
    } else {
        bytes
    };
    if valid_utf8(trimmed) {
        Some(decode_utf8(trimmed))
    } else {
        None
    }
}

/// The NUL-terminated byte string carried by a value: `None` when the
/// value is not an array or its bytes are not valid UTF-8.
pub open spec fn spec_get_byte_array(v: Value) -> Option<Seq<char>> {
    match spec_elems(v) {
        Some(items) => spec_atostr(items),
        None => None,
    }
}

/// The non-empty strings among the first `n` elements of an array value.
pub open spec fn spec_strings_prefix(items: Seq<Value>, n: int) -> Seq<Seq<char>>
    decreases n,
{
    if n <= 0 {
        Seq::empty()
    } else {
        let rest = spec_strings_prefix(items, n - 1);
        match spec_get_string(items[n - 1]) {
            Some(s) => rest.push(s),
            None => rest,
        }
    }
}

/// The string list carried by a value: the non-empty strings among its
/// elements, or `None` when the value is not an array or no element
/// decodes to a non-empty string.
pub open spec fn spec_get_string_array(v: Value) -> Option<Seq<Seq<char>>> {
    match spec_elems(v) {
        Some(items) => {
            let strings = spec_strings_prefix(items, items.len() as int);
            if strings.len() == 0 {
                None
            } else {
                Some(strings)
            }
        },
        None => None,
    }
}

/// The byte strings decoded from the first `n` elements of an array
/// value; elements that are not arrays or do not decode are skipped.
pub open spec fn spec_byte_arrays_prefix(items: Seq<Value>, n: int) -> Seq<Seq<char>>
    decreases n,
{
    if n <= 0 {
        Seq::empty()
    } else {
        let rest = spec_byte_arrays_prefix(items, n - 1);
        match spec_elems(items[n - 1]) {
            Some(inner) => match spec_atostr(inner) {
                Some(s) => rest.push(s),
                None => rest,
            },
            None => rest,
        }
    }
}

/// The list of byte strings carried by a value: `None` when the value is
/// not an array or no element decodes.
pub open spec fn spec_get_array_of_byte_arrays(v: Value) -> Option<Seq<Seq<char>>> {
    match spec_elems(v) {
        Some(items) => {
            let strings = spec_byte_arrays_prefix(items, items.len() as int);
            if strings.len() == 0 {
                None
            } else {
                Some(strings)
            }
        },
        None => None,
    }
}

/// The flat string drawn from a doubly nested configuration leaf: unwrap
/// the value to its first element twice, then decode the byte array
/// found there. `None` when any level is missing or empty.
pub open spec fn spec_vva(v: Value) -> Option<Seq<char>> {
    match spec_elems(v) {
        Some(outer) => if outer.len() == 0 {
            None
        } else {
            match spec_elems(outer[0]) {
                Some(mid) => if mid.len() == 0 {
                    None
                } else {
                    match spec_elems(mid[0]) {
                        Some(inner) => spec_atostr(inner),
                        None => None,
                    }
                },
                None => None,
            }
        },
        None => None,
    }
}

/// Compare two string slices by their characters.
pub fn str_eq(a: &str, b: &str) -> (r: bool)
    ensures
        r == (a@ == b@),
{
    let a_owned: String = a.to_owned();
    let b_owned: String = b.to_owned();
    a_owned == b_owned
}

/// Relies on `String::from_utf8`: it returns the string whose characters
/// decode the given bytes when they are valid UTF-8, and an error
/// otherwise, as `vstd::utf8` specifies UTF-8 decoding.
#[verifier::external_body]
fn string_from_utf8(bytes: Vec<u8>) -> (r: Option<String>)
    ensures
        r is Some <==> valid_utf8(bytes@),
        r matches Some(s) ==> s@ == decode_utf8(bytes@),
{
    String::from_utf8(bytes).ok()
}

/// Extract a non-empty string from a value. Absent, wrongly shaped and
/// empty-string values all decode to `None`.
pub fn get_string(arg: &Value) -> (r: Option<String>)
    ensures
        r matches Some(s) ==> spec_get_string(*arg) == Some(s@),
        r is None ==> spec_get_string(*arg) is None,
{
    match arg.as_str() {
        Some(s) => if s.is_empty() {
            None
        } else {
            Some(s.to_owned())
        },
        None => None,
    }
}

/// Extract an unsigned integer from a value; 0 when the value cannot be
/// read as one.
pub fn get_u64(arg: &Value) -> (r: u64)
    ensures
        r == spec_get_u64(*arg),
{
    match arg.as_u64() {
        Some(u) => u,
        None => 0,
    }
}

/// Extract a boolean from a value: true exactly when the value reads as
/// a nonzero unsigned integer, the wire encoding of bus booleans.
pub fn get_bool(arg: &Value) -> (r: bool)
    ensures
        r == spec_get_bool(*arg),
{
    get_u64(arg) != 0
}

/// Extract a list of non-empty strings from an array value; `None` when
/// nothing decodes.
pub fn get_string_array(arg: &Value) -> (r: Option<Vec<String>>)
    ensures
        r matches Some(v) ==> spec_get_string_array(*arg) == Some(v.deep_view()),
        r is None ==> spec_get_string_array(*arg) is None,
{
    match arg.elems() {
        Some(items) => {
            let mut strings: Vec<String> = Vec::new();
            let mut i: usize = 0;
            while i < items.len()
                invariant
                    i <= items.len(),
                    strings.deep_view() == spec_strings_prefix(items@, i as int),
                decreases items.len() - i,
            {
                match get_string(&items[i]) {
                    Some(s) => {
                        strings.push(s);
                    },
                    None => {},
                }
                i = i + 1;
                assert(strings.deep_view() =~= spec_strings_prefix(items@, i as int));
            }
            if strings.len() == 0 {
                None
            } else {
                Some(strings)
            }
        },
        None => None,
    }
}

/// Decode a NUL-terminated byte string: each element's low byte is
/// taken, one trailing NUL byte is dropped if present, and the rest is
/// read as UTF-8.
pub fn atostr(array: Option<&[Value]>) -> (r: Option<String>)
    ensures
        array matches Some(items) ==> {
            &&& (r matches Some(s) ==> spec_atostr(items@) == Some(s@))
            &&& (r is None ==> spec_atostr(items@) is None)
        },
        array is None ==> r is None,
{
    match array {
        Some(items) => {
            let mut bytes: Vec<u8> = Vec::new();
            let mut i: usize = 0;
            while i < items.len()
                invariant
                    i <= items.len(),
                    bytes@ == spec_bytes_prefix(items@, i as int),
                decreases items.len() - i,
            {
                match items[i].as_u64() {
                    Some(u) => {
                        bytes.push(#[verifier::truncate] (u as u8));
                    },
                    None => {},
                }
                i = i + 1;
            }
            if bytes.len() > 0 && bytes[bytes.len() - 1] == 0 {
                bytes.pop();
                assert(bytes@ =~= spec_bytes_of(items@).drop_last());
            }
            string_from_utf8(bytes)
        },
        None => None,
    }
}

/// Extract a byte-array string from a value.
pub fn get_byte_array(arg: &Value) -> (r: Option<String>)
    ensures
        r matches Some(s) ==> spec_get_byte_array(*arg) == Some(s@),
        r is None ==> spec_get_byte_array(*arg) is None,
{
    atostr(arg.elems())
}

/// Extract a list of byte-array strings from a value, one per element
/// that decodes; `None` when no element decodes.
pub fn get_array_of_byte_arrays(arg: &Value) -> (r: Option<Vec<String>>)
    ensures
        r matches Some(v) ==> spec_get_array_of_byte_arrays(*arg) == Some(v.deep_view()),
        r is None ==> spec_get_array_of_byte_arrays(*arg) is None,
{
    match arg.elems() {
        Some(items) => {
            let mut strings: Vec<String> = Vec::new();
            let mut i: usize = 0;
            while i < items.len()
                invariant
                    i <= items.len(),
                    strings.deep_view() == spec_byte_arrays_prefix(items@, i as int),
                decreases items.len() - i,
            {
                match atostr(items[i].elems()) {
                    Some(s) => {
                        strings.push(s);
                    },
                    None => {},
                }
                i = i + 1;
                assert(strings.deep_view() =~= spec_byte_arrays_prefix(items@, i as int));
            }
            if strings.len() == 0 {
                None
            } else {
                Some(strings)
            }
        },
        None => None,
    }
}

/// Walk a variant-of-variant-of-array structure down to its byte-array
/// leaf and decode that as a flat string.
pub fn vva(value: &Value) -> (r: Option<String>)
    ensures
        r matches Some(s) ==> spec_vva(*value) == Some(s@),
        r is None ==> spec_vva(*value) is None,
{
    match value.elems() {
        Some(outer) => if outer.len() == 0 {
            None
        } else {
            match outer[0].elems() {
                Some(mid) => if mid.len() == 0 {
                    None
                } else {
                    match mid[0].elems() {
                        Some(inner) => atostr(Some(inner)),
                        None => None,
                    }
                },
                None => None,
            }
        },
        None => None,
    }
}

/// A non-empty string property, or the empty string when absent.
pub open spec fn spec_string_or_empty(v: Value) -> Seq<char> {
    match spec_get_string(v) {
        Some(s) => s,
        None => Seq::empty(),
    }
}

/// Extract a string property, reverting to the empty string when absent.
pub fn string_or_empty(v: &Value) -> (r: String)
    ensures
        r@ == spec_string_or_empty(*v),
{
    match get_string(v) {
        Some(s) => s,
        None => String::new(),
    }
}

/// A string list property, or the empty list when nothing decodes.
pub open spec fn spec_strings_or_empty(v: Value) -> Seq<Seq<char>> {
    match spec_get_string_array(v) {
        Some(ss) => ss,
        None => Seq::empty(),
    }
}

/// Extract a string list property, reverting to the empty list when
/// nothing decodes.
pub fn strings_or_empty(v: &Value) -> (r: Vec<String>)
    ensures
        r.deep_view() == spec_strings_or_empty(*v),
{
    match get_string_array(v) {
        Some(ss) => ss,
        None => Vec::new(),
    }
}

/// A byte-array string property, or the empty string when absent or
/// undecodable.
pub open spec fn spec_byte_array_or_empty(v: Value) -> Seq<char> {
    match spec_get_byte_array(v) {
        Some(s) => s,
        None => Seq::empty(),
    }
}

/// Extract a byte-array string property, reverting to the empty string
/// when absent or undecodable.
pub fn byte_array_or_empty(v: &Value) -> (r: String)
    ensures
        r@ == spec_byte_array_or_empty(*v),
{
    match get_byte_array(v) {
        Some(s) => s,
        None => String::new(),
    }
}

/// The byte-array string list of a property, or the empty list when
/// nothing decodes.
pub open spec fn spec_byte_arrays_or_empty(v: Value) -> Seq<Seq<char>> {
    match spec_get_array_of_byte_arrays(v) {
        Some(ss) => ss,
        None => Seq::empty(),
    }
}

/// Extract a byte-array string list, reverting to the empty list when
/// nothing decodes.
pub fn byte_arrays_or_empty(v: &Value) -> (r: Vec<String>)
    ensures
        r.deep_view() == spec_byte_arrays_or_empty(*v),
{
    match get_array_of_byte_arrays(v) {
        Some(ss) => ss,
        None => Vec::new(),
    }
}

} // verus!
