//! JSON values as `serde_json` holds them.
//!
//! `serde_json::Value` and `serde_json::Map` stay opaque; [`json_node`] and [`object_members`]
//! say what they hold, and the functions below are the only ones that read or build them.
use serde_json::Value;
use vstd::prelude::*;

verus! {

/// A JSON object: an unordered collection of members with distinct keys.
pub type JsonObject = serde_json::Map<String, Value>;

/// The members of a JSON object, by key.
pub type JsonMembers = Map<Seq<char>, Value>;

/// Declares `serde_json::Value`, a JSON value of any kind.
#[verifier::external_type_specification]
#[verifier::external_body]
pub struct ExJsonValue(serde_json::Value);

/// Declares `serde_json::Map`, the collection behind a JSON object.
#[verifier::external_type_specification]
#[verifier::external_body]
#[verifier::reject_recursive_types(K)]
#[verifier::reject_recursive_types(V)]
pub struct ExJsonMap<K, V>(serde_json::Map<K, V>);

/// Declares `serde_json::Error`, which is only ever discarded.
#[verifier::external_type_specification]
#[verifier::external_body]
pub struct ExJsonError(serde_json::Error);

/// The outermost layer of a JSON value.
pub enum JsonNode {
    Text(Seq<char>),
    Object(JsonMembers),
    /// `null`, a boolean, a number or an array.
    Other,
}

/// The outermost layer of `value`.
pub uninterp spec fn json_node(value: serde_json::Value) -> JsonNode;

/// The members of `object`, by key.
pub uninterp spec fn object_members(object: serde_json::Map<String, serde_json::Value>) -> Map<Seq<char>, serde_json::Value>;

/// The value that `serde_json::from_str` reads from `text`; `None` where it reports an error.
pub uninterp spec fn json_document(text: Seq<char>) -> Option<serde_json::Value>;

/// The JSON string that holds `text`. It lets contracts build the value; what it holds is read by
/// [`json_node`].
pub uninterp spec fn json_string(text: Seq<char>) -> serde_json::Value;

/// The JSON object that holds `members`. There is one for each set of members as long as
/// `serde_json` keeps them sorted by key, that is, unless its feature `preserve_order` is on.
pub uninterp spec fn json_object(members: Map<Seq<char>, serde_json::Value>) -> serde_json::Value;

/// Whether the JSON string that holds `text` reads as that text.
pub open spec fn string_reads_back(text: Seq<char>) -> bool {
    json_node(json_string(text)) == JsonNode::Text(text)
}

/// Whether the JSON object that holds `members` reads as an object with those members.
pub open spec fn object_reads_back(members: JsonMembers) -> bool {
    json_node(json_object(members)) == JsonNode::Object(members)
}

/// Calls `serde_json::from_str::<Value>`: reads a whole text as one JSON value. What comes back
/// depends on the text alone.
#[verifier::external_body]
pub(crate) fn parse_document(text: &str) -> (result: Result<Value, serde_json::Error>)
    ensures
        match result {
            Ok(value) => json_document(text@) == Some(value),
            Err(_) => json_document(text@) is None,
        },
{
    serde_json::from_str::<Value>(text)
}

/// Calls `Value::get` with a string index: the member under `key` where `value` is an object that
/// has one, and nothing otherwise.
#[verifier::external_body]
pub(crate) fn value_get<'a>(value: &'a Value, key: &str) -> (member: Option<&'a Value>)
    ensures
        match member {
            Some(found) => json_node(*value) matches JsonNode::Object(members)
                && members.contains_key(key@) && members[key@] == *found,
            None => !(json_node(*value) matches JsonNode::Object(members) && members.contains_key(
                key@,
            )),
        },
{
    value.get(key)
}

/// Calls `Value::as_str`: the text where `value` is a string, and nothing otherwise.
#[verifier::external_body]
pub(crate) fn value_as_str(value: &Value) -> (text: Option<&str>)
    ensures
        match text {
            Some(found) => json_node(*value) == JsonNode::Text(found@),
            None => !(json_node(*value) is Text),
        },
{
    value.as_str()
}

/// Calls `Value::as_object`: the members where `value` is an object, and nothing otherwise.
#[verifier::external_body]
pub(crate) fn value_as_object(value: &Value) -> (object: Option<&JsonObject>)
    ensures
        match object {
            Some(found) => json_node(*value) == JsonNode::Object(object_members(*found)),
            None => !(json_node(*value) is Object),
        },
{
    value.as_object()
}

/// Calls `Value`'s derived `Clone::clone`: an equal value.
#[verifier::external_body]
pub(crate) fn value_clone(value: &Value) -> (copy: Value)
    ensures
        copy == *value,
{
    value.clone()
}

/// Calls `Value::from` on a `String`: the JSON string with that text.
#[verifier::external_body]
pub(crate) fn string_value(text: String) -> (value: Value)
    ensures
        value == json_string(text@),
        json_node(value) == JsonNode::Text(text@),
{
    Value::from(text)
}

/// Calls `Value::from` on a `Map`: the JSON object with those members.
#[verifier::external_body]
pub(crate) fn object_value(object: JsonObject) -> (value: Value)
    ensures
        value == json_object(object_members(object)),
        json_node(value) == JsonNode::Object(object_members(object)),
{
    Value::from(object)
}

/// Calls `serde_json::Map::new`: an object without members.
#[verifier::external_body]
pub(crate) fn object_new() -> (object: JsonObject)
    ensures
        object_members(object) == JsonMembers::empty(),
{
    serde_json::Map::new()
}

/// Calls `serde_json::Map::insert`: sets the member under `key` and keeps the others.
#[verifier::external_body]
pub(crate) fn object_insert(object: &mut JsonObject, key: String, value: Value)
    ensures
        object_members(*final(object)) == object_members(*old(object)).insert(key@, value),
{
    object.insert(key, value);
}

/// Calls `serde_json::Map`'s `Clone::clone`: an object with the same members.
#[verifier::external_body]
pub(crate) fn object_clone(object: &JsonObject) -> (copy: JsonObject)
    ensures
        object_members(copy) == object_members(*object),
{
    object.clone()
}

} // verus!
