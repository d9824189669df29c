//! The raw property graph.
//!
//! The bus returns, per managed object path, a map from interface name to
//! a map from property name to a dynamically typed value. The graph is
//! held here as ordered association lists, which keeps decoding a pure
//! function of the graph: no iteration order is left to chance. Lookup
//! takes the first entry with a matching name.

use vstd::prelude::*;

use crate::utils::str_eq;
use crate::value::Value;

verus! {

/// One named property of one interface.
#[derive(Debug, PartialEq, Eq)]
pub struct Prop {
    pub name: String,
    pub value: Value,
}

/// One interface exposed by a managed object: a named capability group
/// with its properties.
#[derive(Debug, PartialEq, Eq)]
pub struct Interface {
    pub name: String,
    pub props: Vec<Prop>,
}

/// One managed object of the raw graph: an object path with the
/// interfaces it exposes.
#[derive(Debug, PartialEq, Eq)]
pub struct ManagedObject {
    pub path: String,
    pub interfaces: Vec<Interface>,
}

/// The properties of the first interface with the given name, or `None`
/// when no interface bears it.
pub open spec fn spec_find_interface(
    interfaces: Seq<Interface>,
    name: Seq<char>,
) -> Option<Seq<Prop>>
    decreases interfaces.len(),
{
    if interfaces.len() == 0 {
        None
    } else if interfaces[0].name@ == name {
        Some(interfaces[0].props@)
    } else {
        spec_find_interface(interfaces.drop_first(), name)
    }
}

/// Whether some interface bears the given name.
pub open spec fn spec_has_interface(interfaces: Seq<Interface>, name: Seq<char>) -> bool {
    spec_find_interface(interfaces, name) is Some
}

/// The value of the first property with the given name, or `None` when
/// no property bears it.
pub open spec fn spec_find_prop(props: Seq<Prop>, name: Seq<char>) -> Option<Value>
    decreases props.len(),
{
    if props.len() == 0 {
        None
    } else if props[0].name@ == name {
        Some(props[0].value)
    } else {
        spec_find_prop(props.drop_first(), name)
    }
}

/// Look up an interface by name.
pub fn find_interface<'a>(interfaces: &'a Vec<Interface>, name: &str) -> (r: Option<
    &'a Vec<Prop>,
>)
    ensures
        r matches Some(props) ==> spec_find_interface(interfaces@, name@) == Some(props@),
        r is None ==> spec_find_interface(interfaces@, name@) is None,
{
    let mut i: usize = 0;
    assert(interfaces@.skip(0) =~= interfaces@);
    while i < interfaces.len()
        invariant
            i <= interfaces.len(),
            spec_find_interface(interfaces@, name@) == spec_find_interface(
                interfaces@.skip(i as int),
                name@,
            ),
        decreases interfaces.len() - i,
    {
        if str_eq(interfaces[i].name.as_str(), name) {
            return Some(&interfaces[i].props);
        }
        i = i + 1;
        assert(interfaces@.skip(i - 1).drop_first() =~= interfaces@.skip(i as int));
    }
    None
}

/// Whether the object exposes an interface with the given name.
pub fn has_interface(interfaces: &Vec<Interface>, name: &str) -> (r: bool)
    ensures
        r == spec_has_interface(interfaces@, name@),
{
    match find_interface(interfaces, name) {
        Some(_) => true,
        None => false,
    }
}

/// Look up a property by name.
pub fn find_prop<'a>(props: &'a Vec<Prop>, name: &str) -> (r: Option<&'a Value>)
    ensures
        r matches Some(v) ==> spec_find_prop(props@, name@) == Some(*v),
        r is None ==> spec_find_prop(props@, name@) is None,
{
    let mut i: usize = 0;
    assert(props@.skip(0) =~= props@);
    while i < props.len()
        invariant
            i <= props.len(),
            spec_find_prop(props@, name@) == spec_find_prop(props@.skip(i as int), name@),
        decreases props.len() - i,
    {
        if str_eq(props[i].name.as_str(), name) {
            return Some(&props[i].value);
        }
        i = i + 1;
        assert(props@.skip(i - 1).drop_first() =~= props@.skip(i as int));
    }
    None
}

} // verus!
