//! JSON values, parsed and written by `serde_json`.

use vstd::prelude::*;

verus! {

/// A JSON value as contracts speak of it.
pub enum JsonV {
    /// `null`.
    Null,
    /// `true` or `false`.
    Bool(bool),
    /// A number, by its written form.
    Number(Seq<char>),
    /// A string.
    Text(Seq<char>),
    /// An array.
    Array(Seq<JsonV>),
    /// An object.
    Object(Map<Seq<char>, JsonV>),
}

/// `serde_json::Value`, carried through as an opaque value.
#[verifier::external_type_specification]
#[verifier::external_body]
pub struct ExValue(serde_json::Value);

/// `serde_json::Map`, carried through as an opaque value.
#[verifier::external_type_specification]
#[verifier::external_body]
#[verifier::reject_recursive_types(K)]
#[verifier::reject_recursive_types(V)]
pub struct ExObject<K, V>(serde_json::Map<K, V>);

/// What a JSON value holds.
pub uninterp spec fn json_of(value: serde_json::Value) -> JsonV;

/// The members that a JSON object holds.
pub uninterp spec fn members(object: serde_json::Map<String, serde_json::Value>) -> Map<
    Seq<char>,
    JsonV,
>;

/// What `serde_json::from_str` makes of a text: the value it is the JSON of, or
/// nothing where it is no JSON.
pub uninterp spec fn parsed(text: Seq<char>) -> Option<JsonV>;

/// What `serde_json::Value::to_string` makes of a value: its compact JSON.
pub uninterp spec fn written(value: JsonV) -> Seq<char>;

/// `serde_json::from_str`: the value that `text` is the JSON of.
#[verifier::external_body]
pub(crate) fn parse_json(text: &str) -> (value: Option<serde_json::Value>)
    ensures
        match value {
            Some(value) => parsed(text@) == Some(json_of(value)),
            None => parsed(text@) is None,
        },
{
    serde_json::from_str::<serde_json::Value>(text).ok()
}

/// `serde_json::Value::to_string`: the compact JSON of a value.
#[verifier::external_body]
pub(crate) fn write_json(value: &serde_json::Value) -> (text: String)
    ensures
        text@ == written(json_of(*value)),
{
    value.to_string()
}

/// `serde_json::Value::from(String)`: the string as a value.
#[verifier::external_body]
pub(crate) fn text_value(text: String) -> (value: serde_json::Value)
    ensures
        json_of(value) == JsonV::Text(text@),
{
    serde_json::Value::from(text)
}

/// `serde_json::Value::from(Map)`: the object as a value.
#[verifier::external_body]
pub(crate) fn object_value(object: serde_json::Map<String, serde_json::Value>) -> (value:
    serde_json::Value)
    ensures
        json_of(value) == JsonV::Object(members(object)),
{
    serde_json::Value::from(object)
}

/// `serde_json::Value::as_object`: the object, where the value is one.
pub assume_specification[ serde_json::Value::as_object ](value: &serde_json::Value) -> (object:
    Option<&serde_json::Map<String, serde_json::Value>>)
    ensures
        match json_of(*value) {
            JsonV::Object(held) => object matches Some(object) && members(*object) == held,
            _ => object is None,
        },
;

/// `serde_json::Value::as_str`: the string, where the value is one.
pub assume_specification[ serde_json::Value::as_str ](value: &serde_json::Value) -> (text: Option<
    &str,
>)
    ensures
        match json_of(*value) {
            JsonV::Text(held) => text matches Some(text) && text@ == held,
            _ => text is None,
        },
;

/// `serde_json::Value::as_array`: the items, where the value is an array.
pub assume_specification[ serde_json::Value::as_array ](value: &serde_json::Value) -> (items:
    Option<&Vec<serde_json::Value>>)
    ensures
        match json_of(*value) {
            JsonV::Array(held) => {
                &&& items matches Some(items)
                &&& held == items@.map_values(|item: serde_json::Value| json_of(item))
            },
            _ => items is None,
        },
;

/// `serde_json::Value::is_null`: whether the value is `null`.
pub assume_specification[ serde_json::Value::is_null ](value: &serde_json::Value) -> (null: bool)
    ensures
        null == (json_of(*value) is Null),
;

/// What an object without members holds.
pub open spec fn no_members() -> Map<Seq<char>, JsonV> {
    Map::empty()
}

/// `serde_json::Map::new`: an object without members.
#[verifier::external_body]
pub(crate) fn empty_object() -> (object: serde_json::Map<String, serde_json::Value>)
    ensures
        members(object) == no_members(),
{
    serde_json::Map::new()
}

/// `serde_json::Map::clone`: an object with the same members.
pub assume_specification[ <serde_json::Map<String, serde_json::Value> as Clone>::clone ](
    object: &serde_json::Map<String, serde_json::Value>,
) -> (copy: serde_json::Map<String, serde_json::Value>)
    ensures
        members(copy) == members(*object),
;

/// `serde_json::Map::get`: the member under `key`.
#[verifier::external_body]
pub(crate) fn member<'a>(
    object: &'a serde_json::Map<String, serde_json::Value>,
    key: &str,
) -> (value: Option<&'a serde_json::Value>)
    ensures
        match value {
            Some(value) => {
                &&& members(*object).contains_key(key@)
                &&& members(*object)[key@] == json_of(*value)
            },
            None => !members(*object).contains_key(key@),
        },
{
    object.get(key)
}

/// The member of an object under `key`, where it is a string.
pub open spec fn text_member(held: Map<Seq<char>, JsonV>, key: Seq<char>) -> Option<Seq<char>> {
    if held.contains_key(key) {
        match held[key] {
            JsonV::Text(text) => Some(text),
            _ => None,
        }
    } else {
        None
    }
}

/// The member of an object under `key`, where it is a string.
pub fn text_at<'a>(
    object: &'a serde_json::Map<String, serde_json::Value>,
    key: &str,
) -> (text: Option<&'a str>)
    ensures
        match text_member(members(*object), key@) {
            Some(held) => text matches Some(text) && text@ == held,
            None => text is None,
        },
{
    match member(object, key) {
        Some(value) => value.as_str(),
        None => None,
    }
}

} // verus!
