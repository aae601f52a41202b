//! JSON documents, read, changed and written by `serde_json`.
//!
//! Nothing in this file is proved. The types are those of `serde_json`, the
//! functions call it, and each contract says what the call does in terms of
//! [`Json`], the mathematical value of a JSON text.

use vstd::prelude::*;
use crate::sorted::text_before;

verus! {

/// `serde_json::Value`: a JSON value. Its contents are [`json_of`].
#[verifier::external_type_specification]
#[verifier::external_body]
pub struct ExValue(serde_json::Value);

/// `serde_json::Map`: a JSON object, from keys to values. Its contents are
/// [`entries_of`].
#[verifier::external_type_specification]
#[verifier::external_body]
#[verifier::reject_recursive_types(K)]
#[verifier::reject_recursive_types(V)]
pub struct ExObject<K, V>(serde_json::Map<K, V>);

/// `serde_json::Number`: a JSON number, carried as it is.
#[verifier::external_type_specification]
#[verifier::external_body]
pub struct ExNumber(serde_json::Number);

/// `serde_json::Error`: why a text could not be read or a value not written.
#[verifier::external_type_specification]
#[verifier::external_body]
pub struct ExError(serde_json::Error);

/// A JSON value as a mathematical value.
pub enum Json {
    Null,
    Bool(bool),
    Number(serde_json::Number),
    String(Seq<char>),
    Array(Seq<Json>),
    Object(Map<Seq<char>, Json>),
}

/// What a `serde_json::Value` holds: variant by variant the same value, a
/// string by its characters, an array by its items in order and an object by
/// its entries.
pub uninterp spec fn json_of(value: serde_json::Value) -> Json;

/// What a `serde_json::Map` holds: for each of its keys the value stored
/// under it.
pub uninterp spec fn entries_of(object: serde_json::Map<String, serde_json::Value>) -> Map<
    Seq<char>,
    Json,
>;

/// What `serde_json::from_slice` reads from `text` as a JSON object: the
/// entries of the object, or nothing where it reports an error.
pub uninterp spec fn parsed_object(text: Seq<u8>) -> Option<Map<Seq<char>, Json>>;

/// What `serde_json::to_string` writes for `value`: the text on one line, or
/// nothing where it reports an error.
pub uninterp spec fn compact_text(value: Json) -> Option<Seq<char>>;

/// What `serde_json::to_string_pretty` writes for an object with the entries
/// `entries`: the indented text, or nothing where it reports an error.
pub uninterp spec fn pretty_text(entries: Map<Seq<char>, Json>) -> Option<Seq<char>>;

/// Calls `serde_json::Map::new`, which makes an object without entries.
#[verifier::external_body]
pub(crate) fn new_object() -> (made: serde_json::Map<String, serde_json::Value>)
    ensures
        entries_of(made) == (Map::<Seq<char>, Json>::empty()),
{
    serde_json::Map::new()
}

/// Calls `serde_json::Map::insert`, which stores `value` under `key`, in
/// place of what was stored under that key before, and leaves the other
/// entries as they were. What it replaced is dropped.
#[verifier::external_body]
pub(crate) fn object_insert(
    object: &mut serde_json::Map<String, serde_json::Value>,
    key: String,
    value: serde_json::Value,
)
    ensures
        entries_of(*final(object)) == entries_of(*old(object)).insert(key@, json_of(value)),
{
    object.insert(key, value);
}

/// Calls `serde_json::Map::keys` and copies the keys out. The map is a
/// `BTreeMap` (the feature `preserve_order` is off), so each key comes once
/// and the keys come in ascending order.
#[verifier::external_body]
pub(crate) fn object_keys(object: &serde_json::Map<String, serde_json::Value>) -> (keys: Vec<
    String,
>)
    ensures
        forall|key: Seq<char>|
            entries_of(*object).dom().contains(key) <==> exists|i: int|
                0 <= i < keys.len() && (#[trigger] keys[i])@ == key,
        forall|i: int, j: int|
            0 <= i < j < keys.len() ==> text_before((#[trigger] keys[i])@, (#[trigger] keys[j])@),
{
    object.keys().cloned().collect()
}

/// Builds `serde_json::Value::String`.
#[verifier::external_body]
pub(crate) fn string_value(text: String) -> (value: serde_json::Value)
    ensures
        json_of(value) == Json::String(text@),
{
    serde_json::Value::String(text)
}

/// Builds `serde_json::Value::Array`.
#[verifier::external_body]
pub(crate) fn array_value(items: Vec<serde_json::Value>) -> (value: serde_json::Value)
    ensures
        json_of(value) == Json::Array(items@.map_values(|item: serde_json::Value| json_of(item))),
{
    serde_json::Value::Array(items)
}

/// Builds `serde_json::Value::Object`.
#[verifier::external_body]
pub(crate) fn object_value(object: serde_json::Map<String, serde_json::Value>) -> (value:
    serde_json::Value)
    ensures
        json_of(value) == Json::Object(entries_of(object)),
{
    serde_json::Value::Object(object)
}

/// Calls `serde_json::from_slice` for a `serde_json::Map`. Whether it reads
/// an object, and which, depends on `text` alone; the contract gives that the
/// name [`parsed_object`].
#[verifier::external_body]
pub(crate) fn read_object(text: &[u8]) -> (read: Result<
    serde_json::Map<String, serde_json::Value>,
    serde_json::Error,
>)
    ensures
        match read {
            Ok(object) => parsed_object(text@) == Some(entries_of(object)),
            Err(_) => parsed_object(text@) is None,
        },
{
    serde_json::from_slice(text)
}

/// Calls `serde_json::to_string`. What it writes depends on what `value`
/// holds alone; the contract gives that the name [`compact_text`].
#[verifier::external_body]
pub(crate) fn write_compact(value: &serde_json::Value) -> (written: Result<
    String,
    serde_json::Error,
>)
    ensures
        match written {
            Ok(text) => compact_text(json_of(*value)) == Some(text@),
            Err(_) => compact_text(json_of(*value)) is None,
        },
{
    serde_json::to_string(value)
}

/// Calls `serde_json::to_string_pretty`. What it writes depends on what
/// `object` holds alone, as the entries are kept in the order of their keys;
/// the contract gives that the name [`pretty_text`].
#[verifier::external_body]
pub(crate) fn write_pretty(object: &serde_json::Map<String, serde_json::Value>) -> (written:
    Result<String, serde_json::Error>)
    ensures
        match written {
            Ok(text) => pretty_text(entries_of(*object)) == Some(text@),
            Err(_) => pretty_text(entries_of(*object)) is None,
        },
{
    serde_json::to_string_pretty(object)
}

} // verus!
