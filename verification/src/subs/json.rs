//! JSON documents as the tool reads them.

use vstd::prelude::*;

verus! {

/// `serde_json::Value`.
#[verifier::external_type_specification]
#[verifier::external_body]
pub struct ExJsonValue(serde_json::Value);

/// `serde_json::Map`.
#[verifier::external_type_specification]
#[verifier::external_body]
#[verifier::reject_recursive_types(K)]
#[verifier::reject_recursive_types(V)]
pub struct ExJsonMap<K, V>(serde_json::Map<K, V>);

/// `serde_json::Error`, the error of the parser.
#[verifier::external_type_specification]
#[verifier::external_body]
pub struct ExJsonError(serde_json::Error);

/// A JSON value.
pub type Json = serde_json::Value;

/// A JSON object.
pub type JsonObject = serde_json::Map<String, serde_json::Value>;

/// The mathematical form of a JSON value. Of a number it keeps only that it is one.
pub enum JsonView {
    Null,
    Flag(bool),
    Number,
    Text(Seq<char>),
    Array(Seq<JsonView>),
    Object(Seq<(Seq<char>, JsonView)>),
}

/// The mathematical form of a JSON object: its keys with their values, in the order in
/// which the object is walked. No key stands twice.
pub type ObjectView = Seq<(Seq<char>, JsonView)>;

/// What a JSON value holds.
pub uninterp spec fn json_view(value: serde_json::Value) -> JsonView;

/// What a JSON object holds.
pub uninterp spec fn object_view(object: serde_json::Map<String, serde_json::Value>) -> ObjectView;

/// The text that a value is written as: compact JSON.
pub uninterp spec fn json_shown(value: serde_json::Value) -> Seq<char>;

/// What the value holds that a text stands for as a JSON document, or `None` where the
/// text is no JSON document.
pub uninterp spec fn json_document(text: Seq<char>) -> Option<JsonView>;

/// What the values of a vector hold.
pub open spec fn json_views(values: Seq<serde_json::Value>) -> Seq<JsonView> {
    Seq::new(values.len(), |i: int| json_view(values[i]))
}

/// What a value holds that may be there.
pub open spec fn held_view(value: Option<&serde_json::Value>) -> Option<JsonView> {
    match value {
        Some(value) => Some(json_view(*value)),
        None => None,
    }
}

/// What an object holds that may be there.
pub open spec fn held_object(object: Option<&JsonObject>) -> Option<ObjectView> {
    match object {
        Some(object) => Some(object_view(*object)),
        None => None,
    }
}

/// The entries of the object that a value is, or `None` where it is of another kind.
pub open spec fn json_object(value: JsonView) -> Option<ObjectView> {
    match value {
        JsonView::Object(entries) => Some(entries),
        _ => None,
    }
}

/// The items of the array that a value is, or `None` where it is of another kind.
pub open spec fn json_array(value: JsonView) -> Option<Seq<JsonView>> {
    match value {
        JsonView::Array(items) => Some(items),
        _ => None,
    }
}

/// The text of the string that a value is, or `None` where it is of another kind.
pub open spec fn json_text(value: JsonView) -> Option<Seq<char>> {
    match value {
        JsonView::Text(text) => Some(text),
        _ => None,
    }
}

/// The truth value that a value is, or `None` where it is of another kind.
pub open spec fn json_flag(value: JsonView) -> Option<bool> {
    match value {
        JsonView::Flag(flag) => Some(flag),
        _ => None,
    }
}

/// The value under a key among the first `upto` entries of an object, or `None` where
/// none of them has the key.
pub open spec fn entry_among(object: ObjectView, key: Seq<char>, upto: int) -> Option<JsonView>
    decreases upto,
{
    if upto <= 0 {
        None
    } else if entry_among(object, key, upto - 1) is Some {
        entry_among(object, key, upto - 1)
    } else if object[upto - 1].0 == key {
        Some(object[upto - 1].1)
    } else {
        None
    }
}

/// The value under a key of an object, or `None` where the object has no such key.
pub open spec fn json_entry(object: ObjectView, key: Seq<char>) -> Option<JsonView> {
    entry_among(object, key, object.len() as int)
}

/// The value under a key of the object that a value is, or `None` where the value is no
/// object or the object has no such key.
pub open spec fn json_member(value: JsonView, key: Seq<char>) -> Option<JsonView> {
    match value {
        JsonView::Object(entries) => json_entry(entries, key),
        _ => None,
    }
}

/// `serde_json::from_str` for a value: the value that the text stands for, or the
/// parser's error where the text is no JSON document.
#[verifier::external_body]
pub(crate) fn parse(text: &str) -> (parsed: Result<serde_json::Value, serde_json::Error>)
    ensures
        parsed matches Ok(value) ==> json_document(text@) == Some(json_view(value)),
        parsed is Err ==> json_document(text@) is None,
{
    serde_json::from_str::<serde_json::Value>(text)
}

/// `ToString::to_string` on a `serde_json::Value`, whose `Display` writes the value as
/// compact JSON.
#[verifier::external_body]
pub(crate) fn show(value: &serde_json::Value) -> (text: String)
    ensures
        text@ == json_shown(*value),
{
    value.to_string()
}

/// `serde_json::Value::as_object`: the object, where the value is one.
#[verifier::external_body]
pub(crate) fn as_object(value: &serde_json::Value) -> (found: Option<&JsonObject>)
    ensures
        held_object(found) == json_object(json_view(*value)),
{
    value.as_object()
}

/// `serde_json::Value::as_array`: the items, where the value is an array.
#[verifier::external_body]
pub(crate) fn as_array(value: &serde_json::Value) -> (found: Option<&Vec<serde_json::Value>>)
    ensures
        found matches Some(items) ==> json_array(json_view(*value)) == Some(json_views(items@)),
        found is None ==> json_array(json_view(*value)) is None,
{
    value.as_array()
}

/// `serde_json::Value::as_str`: the text, where the value is a string.
#[verifier::external_body]
pub(crate) fn as_str(value: &serde_json::Value) -> (found: Option<&str>)
    ensures
        found matches Some(text) ==> json_text(json_view(*value)) == Some(text@),
        found is None ==> json_text(json_view(*value)) is None,
{
    value.as_str()
}

/// `serde_json::Value::as_bool`: the truth value, where the value is one.
#[verifier::external_body]
pub(crate) fn as_bool(value: &serde_json::Value) -> (found: Option<bool>)
    ensures
        found == json_flag(json_view(*value)),
{
    value.as_bool()
}

/// `serde_json::Map::get`: the value under the key.
#[verifier::external_body]
pub(crate) fn entry<'a>(object: &'a JsonObject, key: &str) -> (found: Option<&'a serde_json::Value>)
    ensures
        held_view(found) == json_entry(object_view(*object), key@),
{
    object.get(key)
}

/// The value under the key, where `value` is an object that has the key.
pub(crate) fn member<'a>(value: &'a serde_json::Value, key: &str) -> (found: Option<&'a serde_json::Value>)
    ensures
        held_view(found) == json_member(json_view(*value), key@),
{
    match as_object(value) {
        Some(object) => entry(object, key),
        None => None,
    }
}

/// `serde_json::Map::iter`, collected: the keys with their values, in the order of the
/// walk.
#[verifier::external_body]
pub(crate) fn entries<'a>(object: &'a JsonObject) -> (pairs: Vec<(&'a String, &'a serde_json::Value)>)
    ensures
        pairs@.len() == object_view(*object).len(),
        forall|i: int|
            0 <= i < pairs@.len() ==> (#[trigger] pairs@[i]).0@ == object_view(*object)[i].0 && json_view(
                *pairs@[i].1,
            ) == object_view(*object)[i].1,
{
    object.iter().collect()
}

} // verus!
