//! JSON values: the model that contracts speak of, and the `serde_json`
//! operations that build them.
//!
//! `serde_json` owns the values. This module says what each of them is as a
//! [`Json`], and states of every constructor the library calls what value it
//! makes.

use serde_json::Value;
use vstd::prelude::*;

verus! {

/// A JSON value as mathematics sees it.
pub enum Json {
    Null,
    Bool(bool),
    /// A number. The library builds none, and the model does not say which
    /// number it is.
    Number,
    Text(Seq<char>),
    Array(Seq<Json>),
    /// The members of an object by key. The order in which they are written
    /// out is `serde_json`'s affair.
    Object(Members),
}

/// The members of a JSON object: its values by key.
pub type Members = Map<Seq<char>, Json>;

#[verifier::external_type_specification]
#[verifier::external_body]
pub struct ExValue(serde_json::Value);

#[verifier::external_type_specification]
#[verifier::external_body]
#[verifier::reject_recursive_types(K)]
#[verifier::reject_recursive_types(V)]
pub struct ExObject<K, V>(serde_json::Map<K, V>);

/// The map that holds the members of a JSON object.
pub type JsonObject = serde_json::Map<String, Value>;

/// What a `serde_json::Value` holds.
pub uninterp spec fn json_view(value: Value) -> Json;

/// What a `serde_json::Map` holds: its values by key.
pub uninterp spec fn object_view(object: JsonObject) -> Members;

/// The models of a list of values, in order.
pub open spec fn json_views(values: Seq<Value>) -> Seq<Json> {
    values.map_values(|value: Value| json_view(value))
}

/// Trusted: `serde_json::Map::new` makes a map without members.
#[verifier::external_body]
pub(crate) fn new_object() -> (object: JsonObject)
    ensures
        object_view(object) == Members::empty(),
{
    serde_json::Map::new()
}

/// Trusted: `serde_json::Map::insert` sets the member under the key to the
/// value, replacing the one that was there, and leaves the other members as
/// they were.
#[verifier::external_body]
pub(crate) fn object_insert(object: &mut JsonObject, key: String, value: Value)
    ensures
        object_view(*final(object)) == object_view(*old(object)).insert(key@, json_view(value)),
{
    object.insert(key, value);
}

/// Trusted: the variant `Value::String` is the JSON string of that text.
#[verifier::external_body]
pub(crate) fn text_value(text: String) -> (value: Value)
    ensures
        json_view(value) == Json::Text(text@),
{
    Value::String(text)
}

/// Trusted: the variant `Value::Array` is the JSON array of those values, in
/// their order.
#[verifier::external_body]
pub(crate) fn array_value(items: Vec<Value>) -> (value: Value)
    ensures
        json_view(value) == Json::Array(json_views(items@)),
{
    Value::Array(items)
}

/// Trusted: the variant `Value::Object` is the JSON object with the members
/// of that map.
#[verifier::external_body]
pub(crate) fn object_value(object: JsonObject) -> (value: Value)
    ensures
        json_view(value) == Json::Object(object_view(object)),
{
    Value::Object(object)
}

} // verus!
