//! Resolution of type nodes into TypeScript type expressions.
use vstd::prelude::*;
use crate::schema::{SchemaError, TypeDescriptor};
use crate::text::{clean_name, get_simple_name, split_last, str_eq, without_quotes};

verus! {

/// The type that a dotted reference names: its simple name without quotes,
/// or `any` where that is `null`.
pub open spec fn reference_type(exact: Seq<char>) -> Seq<char> {
    let s = without_quotes(split_last(exact, "."@));
    if s == "null"@ {
        "any"@
    } else {
        s
    }
}

/// Resolution of a node by the reference rule.
pub open spec fn object_type(d: TypeDescriptor) -> Option<Seq<char>> {
    match d.exact_type_name {
        Some(n) => Some(reference_type(n@)),
        None => None,
    }
}

/// Resolution of a node by the array rule: an element named `array` goes
/// through the array rule again, any other element through the reference rule.
/// An element without `exactTypeName` (a native type such as `string`, or a
/// bare map) is therefore malformed. This is deliberate: such an element is
/// reported, not rendered as `Array<any>`.
pub open spec fn array_type(d: TypeDescriptor) -> Option<Seq<char>>
    decreases d,
{
    match d.element_type {
        None => None,
        Some(e) => {
            let inner = if e.name@ == "array"@ {
                array_type(*e)
            } else {
                object_type(*e)
            };
            match inner {
                Some(t) => Some("Array<"@ + t + ">"@),
                None => None,
            }
        },
    }
}

/// Resolution of a node without the map rule.
pub open spec fn component_type(d: TypeDescriptor) -> Option<Seq<char>> {
    if d.name@ == "object"@ {
        object_type(d)
    } else if d.name@ == "array"@ {
        array_type(d)
    } else {
        Some(d.name@)
    }
}

/// Resolution of a property's type node; `None` where the node is malformed.
pub open spec fn resolved_type(d: TypeDescriptor) -> Option<Seq<char>> {
    if d.name@ == "Map"@ {
        match (d.key_type, d.value_type) {
            (Some(k), Some(v)) => match (component_type(*k), component_type(*v)) {
                (Some(kt), Some(vt)) => Some("Map<"@ + kt + ", "@ + vt + ">"@),
                _ => None,
            },
            _ => None,
        }
    } else {
        component_type(d)
    }
}

/// The reference rule.
pub fn get_object_type(d: &TypeDescriptor) -> (r: Result<String, SchemaError>)
    ensures
        object_type(*d) is Some <==> r is Ok,
        r is Ok ==> r->Ok_0@ == object_type(*d)->Some_0,
{
    match &d.exact_type_name {
        None => Err(SchemaError::MalformedType),
        Some(exact) => {
            let simple = clean_name(get_simple_name(exact));
            if str_eq(simple.as_str(), "null") {
                Ok(String::from_str("any"))
            } else {
                Ok(simple)
            }
        },
    }
}

/// The array rule. An element that is neither an array nor carries
/// `exactTypeName` is deliberately an error, not `Array<any>`.
pub fn get_array_type(d: &TypeDescriptor) -> (r: Result<String, SchemaError>)
    ensures
        array_type(*d) is Some <==> r is Ok,
        r is Ok ==> r->Ok_0@ == array_type(*d)->Some_0,
    decreases d,
{
    match &d.element_type {
        None => Err(SchemaError::MalformedType),
        Some(e) => {
            let inner = if str_eq(e.name.as_str(), "array") {
                get_array_type(e)
            } else {
                get_object_type(e)
            };
            match inner {
                Err(err) => Err(err),
                Ok(t) => {
                    let mut out = String::from_str("Array<");
                    out.append(t.as_str());
                    out.append(">");
                    Ok(out)
                },
            }
        },
    }
}

/// Resolution without the map rule.
fn get_component_type(d: &TypeDescriptor) -> (r: Result<String, SchemaError>)
    ensures
        component_type(*d) is Some <==> r is Ok,
        r is Ok ==> r->Ok_0@ == component_type(*d)->Some_0,
{
    if str_eq(d.name.as_str(), "object") {
        get_object_type(d)
    } else if str_eq(d.name.as_str(), "array") {
        get_array_type(d)
    } else {
        Ok(d.name.clone())
    }
}

/// The map rule: key and value resolved independently, without the map rule.
pub fn get_map_type(d: &TypeDescriptor) -> (r: Result<String, SchemaError>)
    requires
        d.name@ == "Map"@,
    ensures
        resolved_type(*d) is Some <==> r is Ok,
        r is Ok ==> r->Ok_0@ == resolved_type(*d)->Some_0,
{
    match (&d.key_type, &d.value_type) {
        (Some(k), Some(v)) => {
            let kt = get_component_type(k);
            let vt = get_component_type(v);
            match (kt, vt) {
                (Ok(kt), Ok(vt)) => {
                    let mut out = String::from_str("Map<");
                    out.append(kt.as_str());
                    out.append(", ");
                    out.append(vt.as_str());
                    out.append(">");
                    Ok(out)
                },
                _ => Err(SchemaError::MalformedType),
            }
        },
        _ => Err(SchemaError::MalformedType),
    }
}

/// The TypeScript type expression of a property's type node.
pub fn resolve(d: &TypeDescriptor) -> (r: Result<String, SchemaError>)
    ensures
        resolved_type(*d) is Some <==> r is Ok,
        r is Ok ==> r->Ok_0@ == resolved_type(*d)->Some_0,
{
    if str_eq(d.name.as_str(), "Map") {
        get_map_type(d)
    } else {
        get_component_type(d)
    }
}

proof fn lemma_kinds_distinct()
    ensures
        "object"@ != "array"@,
        "object"@ != "Map"@,
        "array"@ != "Map"@,
{
    reveal_strlit("object");
    reveal_strlit("array");
    reveal_strlit("Map");
    assert("object"@.len() != "array"@.len());
    assert("object"@.len() != "Map"@.len());
    assert("array"@.len() != "Map"@.len());
}

/// A node whose name is none of `object`, `array` and `Map` resolves to its
/// name unchanged.
pub proof fn lemma_primitive_verbatim(d: TypeDescriptor)
    requires
        d.name@ != "object"@,
        d.name@ != "array"@,
        d.name@ != "Map"@,
    ensures
        resolved_type(d) == Some(d.name@),
{
}

/// A reference whose simple name is `null` resolves to `any`.
pub proof fn lemma_null_reference(d: TypeDescriptor)
    requires
        d.name@ == "object"@,
        d.exact_type_name is Some,
        without_quotes(split_last(d.exact_type_name->Some_0@, "."@)) == "null"@,
    ensures
        resolved_type(d) == Some("any"@),
{
    lemma_kinds_distinct();
}

/// An array whose element is a reference or an array resolves to
/// `Array<...>` around the element's own resolution, and is malformed exactly
/// when the element is.
pub proof fn lemma_array_wraps_element(d: TypeDescriptor)
    requires
        d.name@ == "array"@,
        d.element_type is Some,
        d.element_type->Some_0.name@ == "object"@ || d.element_type->Some_0.name@ == "array"@,
    ensures
        resolved_type(d) is Some <==> resolved_type(*d.element_type->Some_0) is Some,
        resolved_type(d) is Some ==> resolved_type(d)->Some_0 == "Array<"@ + resolved_type(
            *d.element_type->Some_0,
        )->Some_0 + ">"@,
{
    lemma_kinds_distinct();
}

/// Two nested arrays of a reference resolve to `Array<Array<T>>`.
pub proof fn lemma_nested_array(d: TypeDescriptor)
    requires
        d.name@ == "array"@,
        d.element_type is Some,
        d.element_type->Some_0.name@ == "array"@,
        d.element_type->Some_0.element_type is Some,
        d.element_type->Some_0.element_type->Some_0.name@ == "object"@,
        d.element_type->Some_0.element_type->Some_0.exact_type_name is Some,
    ensures
        resolved_type(d) == Some(
            "Array<"@ + "Array<"@ + reference_type(
                d.element_type->Some_0.element_type->Some_0.exact_type_name->Some_0@,
            ) + ">"@ + ">"@,
        ),
{
    lemma_kinds_distinct();
    lemma_array_wraps_element(d);
    lemma_array_wraps_element(*d.element_type->Some_0);
}

/// A map resolves to `Map<K, V>`, with key and value resolved independently,
/// where neither of them is itself a map.
pub proof fn lemma_map_resolves_parts(d: TypeDescriptor)
    requires
        d.name@ == "Map"@,
        d.key_type is Some,
        d.value_type is Some,
        d.key_type->Some_0.name@ != "Map"@,
        d.value_type->Some_0.name@ != "Map"@,
    ensures
        resolved_type(d) is Some <==> (resolved_type(*d.key_type->Some_0) is Some && resolved_type(
            *d.value_type->Some_0,
        ) is Some),
        resolved_type(d) is Some ==> resolved_type(d)->Some_0 == "Map<"@ + resolved_type(
            *d.key_type->Some_0,
        )->Some_0 + ", "@ + resolved_type(*d.value_type->Some_0)->Some_0 + ">"@,
{
}

/// An array element named `Map` goes through the reference rule, not the map
/// rule.
pub proof fn lemma_map_element_is_reference(d: TypeDescriptor)
    requires
        d.name@ == "array"@,
        d.element_type is Some,
        d.element_type->Some_0.name@ == "Map"@,
    ensures
        resolved_type(d) == match object_type(*d.element_type->Some_0) {
            Some(t) => Some("Array<"@ + t + ">"@),
            None => None,
        },
{
    lemma_kinds_distinct();
}

} // verus!
