//! The JSON document model, as serde_json provides it.
//!
//! Values and objects are opaque here: the library moves them between text and
//! the aggregate document, and states what it does in terms of the names below.
use vstd::prelude::*;

use serde_json::Value;

verus! {

#[verifier::external_type_specification]
#[verifier::external_body]
pub struct ExValue(Value);

#[verifier::external_type_specification]
#[verifier::external_body]
#[verifier::reject_recursive_types(K)]
#[verifier::reject_recursive_types(V)]
pub struct ExMap<K, V>(serde_json::Map<K, V>);

#[verifier::external_type_specification]
#[verifier::external_body]
pub struct ExJsonError(serde_json::Error);

/// The text is one JSON value.
pub uninterp spec fn is_json(text: Seq<char>) -> bool;

/// The value that JSON text stands for.
pub uninterp spec fn value_of(text: Seq<char>) -> Value;

/// The members of a value that is an object.
pub uninterp spec fn object_members(v: Value) -> Option<Map<Seq<char>, Value>>;

/// The members of a JSON object, by name.
pub uninterp spec fn members(m: serde_json::Map<String, Value>) -> Map<Seq<char>, Value>;

/// The object value with these members.
pub uninterp spec fn object_of(m: Map<Seq<char>, Value>) -> Value;

/// Compact JSON text of a value.
pub uninterp spec fn compact_of(v: Value) -> Seq<char>;

/// JSON text of a value, each level indented by `indent`.
pub uninterp spec fn indented_of(v: Value, indent: Seq<u8>) -> Seq<char>;

/// An object without members.
pub open spec fn empty_document() -> Map<Seq<char>, Value> {
    Map::empty()
}

/// The members of the JSON object that the text holds, where it holds one.
pub open spec fn object_in(text: Seq<char>) -> Option<Map<Seq<char>, Value>> {
    if is_json(text) {
        object_members(value_of(text))
    } else {
        None
    }
}

/// The text is one JSON object.
pub open spec fn is_json_object(text: Seq<char>) -> bool {
    object_in(text) is Some
}

/// Relies on serde_json::from_str into a `Value`: it succeeds exactly on JSON text.
#[verifier::external_body]
pub fn parse_value(text: &str) -> (r: Result<Value, serde_json::Error>)
    ensures
        r is Ok <==> is_json(text@),
        r is Ok ==> r->Ok_0 == value_of(text@),
{
    serde_json::from_str::<Value>(text)
}

/// Relies on the variant `Value::Object`: the members of an object, and nothing for other values.
#[verifier::external_body]
pub fn into_object(v: Value) -> (r: Option<serde_json::Map<String, Value>>)
    ensures
        r is Some <==> object_members(v) is Some,
        r is Some ==> members(r->0) == object_members(v)->0,
{
    match v {
        Value::Object(m) => Some(m),
        _ => None,
    }
}

/// Relies on serde_json::to_string: compact JSON text; a `Value` always serialises.
#[verifier::external_body]
pub fn compact_text(v: &Value) -> (r: Result<String, serde_json::Error>)
    ensures
        r is Ok,
        r is Ok ==> r->Ok_0@ == compact_of(*v),
{
    serde_json::to_string(v)
}

/// Relies on serde_json's `PrettyFormatter::with_indent`: JSON text indented by `indent`
/// per level; a `Value` always serialises into a `Vec`.
#[verifier::external_body]
pub fn indented_text(v: &Value, indent: &Vec<u8>) -> (r: Result<String, serde_json::Error>)
    ensures
        r is Ok,
        r is Ok ==> r->Ok_0@ == indented_of(*v, indent@),
{
    let mut out: std::vec::Vec<u8> = std::vec::Vec::new();
    let formatter = serde_json::ser::PrettyFormatter::with_indent(indent.as_slice());
    let mut ser = serde_json::Serializer::with_formatter(&mut out, formatter);
    serde::Serialize::serialize(v, &mut ser)?;
    Ok(String::from_utf8_lossy(&out).into_owned())
}

/// Relies on `Value::Object`: an object as a value.
#[verifier::external_body]
pub fn object_value(m: serde_json::Map<String, Value>) -> (r: Value)
    ensures
        r == object_of(members(m)),
        object_members(r) == Some(members(m)),
{
    Value::Object(m)
}

/// Relies on serde_json::Map::new: an object without members.
#[verifier::external_body]
pub fn new_object() -> (r: serde_json::Map<String, Value>)
    ensures
        members(r) == empty_document(),
{
    serde_json::Map::new()
}

/// Relies on serde_json::Map::get: the member of that name.
#[verifier::external_body]
pub fn object_get<'a>(m: &'a serde_json::Map<String, Value>, name: &str) -> (r: Option<&'a Value>)
    ensures
        r is Some <==> members(*m).contains_key(name@),
        r is Some ==> *r->0 == members(*m)[name@],
{
    m.get(name)
}

/// Relies on serde_json::Map::insert: sets the member of that name.
#[verifier::external_body]
pub fn object_insert(m: &mut serde_json::Map<String, Value>, name: String, v: Value)
    ensures
        members(*final(m)) == members(*old(m)).insert(name@, v),
{
    m.insert(name, v);
}

/// Relies on serde_json::Map::remove: takes out the member of that name.
#[verifier::external_body]
pub fn object_remove(m: &mut serde_json::Map<String, Value>, name: &str) -> (r: Option<Value>)
    ensures
        r is Some <==> members(*old(m)).contains_key(name@),
        r is Some ==> r->0 == members(*old(m))[name@],
        members(*final(m)) == members(*old(m)).remove(name@),
{
    m.remove(name)
}

/// Relies on serde_json::Map's `IntoIterator`: each member once, as a pair.
#[verifier::external_body]
pub fn object_members_of(m: serde_json::Map<String, Value>) -> (r: Vec<(String, Value)>)
    ensures
        forall|i: int|
            0 <= i < r@.len() ==> members(m).contains_key(#[trigger] r@[i].0@) && members(m)[r@[i].0@]
                == r@[i].1,
        forall|k: Seq<char>|
            #[trigger] members(m).contains_key(k) ==> exists|i: int| 0 <= i < r@.len() && #[trigger] r@[i].0@ == k,
{
    m.into_iter().collect()
}

} // verus!
