//! JSON objects built and extended by the library: the declared
//! `serde_json::Map`, a name for the fields it holds, and one wrapper for
//! each `serde_json` call the library makes on them.

use vstd::prelude::*;

verus! {

#[verifier::external_type_specification]
#[verifier::external_body]
#[verifier::reject_recursive_types(K)]
#[verifier::reject_recursive_types(V)]
pub struct ExJsonMap<K, V>(serde_json::Map<K, V>);

/// A JSON object's map.
pub type JsonMap = serde_json::Map<String, serde_json::Value>;

/// The fields a JSON map holds, by key.
pub uninterp spec fn json_fields(m: JsonMap) -> Map<Seq<char>, serde_json::Value>;

/// The JSON object `Value::Object` makes of a map holding these fields.
pub uninterp spec fn json_object(fields: Map<Seq<char>, serde_json::Value>) -> serde_json::Value;

/// The fields of a value, if it is a JSON object: what `Value::as_object`
/// gives, by its contents.
pub uninterp spec fn object_fields(v: serde_json::Value) -> Option<Map<Seq<char>, serde_json::Value>>;

/// The JSON string `Value::from` makes of a text.
pub uninterp spec fn json_string(s: Seq<char>) -> serde_json::Value;

/// The JSON number `Value::from` makes of a `u64`.
pub uninterp spec fn json_u64(n: u64) -> serde_json::Value;

/// No fields at all.
pub open spec fn no_fields() -> Map<Seq<char>, serde_json::Value> {
    Map::empty()
}

/// `serde_json::Map::new`: a map with no fields.
#[verifier::external_body]
pub fn new_json_map() -> (r: JsonMap)
    ensures
        json_fields(r) == no_fields(),
{
    serde_json::Map::new()
}

/// `serde_json::Map::insert`: the key now holds the value, whether or not it
/// held one before; every other field is kept.
#[verifier::external_body]
pub fn json_map_insert(m: &mut JsonMap, key: String, value: serde_json::Value)
    ensures
        json_fields(*final(m)) == json_fields(*old(m)).insert(key@, value),
{
    let _ = m.insert(key, value);
}

/// `Value::Object`: the object holding the map's fields.
#[verifier::external_body]
pub fn object_value(m: JsonMap) -> (r: serde_json::Value)
    ensures
        r == json_object(json_fields(m)),
        object_fields(r) == Some(json_fields(m)),
{
    serde_json::Value::Object(m)
}

/// The map of an object value, or the value itself when it is not an
/// object.
#[verifier::external_body]
pub fn take_object(v: serde_json::Value) -> (r: Result<JsonMap, serde_json::Value>)
    ensures
        match r {
            Ok(m) => object_fields(v) == Some(json_fields(m)),
            Err(w) => w == v && object_fields(v) is None,
        },
{
    match v {
        serde_json::Value::Object(m) => Ok(m),
        other => Err(other),
    }
}

/// `Value::from(&str)`: a JSON string.
#[verifier::external_body]
pub fn string_value(s: &str) -> (r: serde_json::Value)
    ensures
        r == json_string(s@),
{
    serde_json::Value::from(s)
}

/// `Value::from(u64)`: a JSON number.
#[verifier::external_body]
pub fn u64_value(n: u64) -> (r: serde_json::Value)
    ensures
        r == json_u64(n),
{
    serde_json::Value::from(n)
}

} // verus!
