//! JSON values. `serde_json` parses and holds them; here stand the accessors that the rest of the
//! crate uses, each with what it says about the value it is called on.

use vstd::prelude::*;
use crate::number;
use serde_json::Value;

verus! {

/// The members of a JSON object.
pub type Members = serde_json::Map<String, serde_json::Value>;

/// A parsed JSON value of `serde_json`.
#[verifier::external_type_specification]
#[verifier::external_body]
pub struct ExValue(serde_json::Value);

/// What a JSON value holds.
pub enum Json {
    Null,
    Bool(bool),
    /// How the number is written, and its value if it is a whole number from 0 to `u64::MAX`.
    Number { text: Seq<char>, natural: Option<u64> },
    Text(Seq<char>),
    Array(Seq<Json>),
    Object(Map<Seq<char>, Json>),
}

/// What a `serde_json::Value` holds.
pub uninterp spec fn json_of(v: serde_json::Value) -> Json;

/// What `serde_json::from_slice` reads from a text, if it is JSON.
pub uninterp spec fn json_text(bytes: Seq<u8>) -> Option<Json>;

/// The member of an object with the given key.
pub open spec fn member(j: Json, key: Seq<char>) -> Option<Json> {
    match j {
        Json::Object(m) => if m.contains_key(key) {
            Some(m[key])
        } else {
            None
        },
        _ => None,
    }
}

/// The characters of a JSON string.
pub open spec fn string_in(j: Json) -> Option<Seq<char>> {
    match j {
        Json::Text(s) => Some(s),
        _ => None,
    }
}

/// The value of a JSON number, if it is a whole number from 0 to `u64::MAX`.
pub open spec fn natural_in(j: Json) -> Option<u64> {
    match j {
        Json::Number { natural, .. } => natural,
        _ => None,
    }
}

/// How a JSON number is written.
pub open spec fn number_in(j: Json) -> Option<Seq<char>> {
    match j {
        Json::Number { text, .. } => Some(text),
        _ => None,
    }
}

/// The value of a JSON boolean.
pub open spec fn bool_in(j: Json) -> Option<bool> {
    match j {
        Json::Bool(b) => Some(b),
        _ => None,
    }
}

/// The characters of a JSON string, if there is a value and it is one.
pub open spec fn maybe_string(j: Option<Json>) -> Option<Seq<char>> {
    match j {
        Some(x) => string_in(x),
        None => None,
    }
}

/// Calls `serde_json::from_slice`: the value that the text describes, or nothing if the text is not
/// JSON. What it reads depends on the text alone and is named, not spelled out.
#[verifier::external_body]
pub(crate) fn parse(bytes: &[u8]) -> (r: Option<Value>)
    ensures
        match r {
            Some(v) => json_text(bytes@) == Some(json_of(v)),
            None => json_text(bytes@) is None,
        },
{
    serde_json::from_slice(bytes).ok()
}

/// Calls `Value::get` with a string key: the member of an object with that key; nothing if there is
/// none or the value is not an object.
#[verifier::external_body]
pub(crate) fn get<'a>(v: &'a Value, key: &str) -> (r: Option<&'a Value>)
    ensures
        match r {
            Some(w) => member(json_of(*v), key@) == Some(json_of(*w)),
            None => member(json_of(*v), key@) is None,
        },
{
    v.get(key)
}

/// Calls `Value::as_str`: the characters, if the value is a string.
#[verifier::external_body]
pub(crate) fn as_str<'a>(v: &'a Value) -> (r: Option<&'a str>)
    ensures
        match r {
            Some(s) => string_in(json_of(*v)) == Some(s@),
            None => string_in(json_of(*v)) is None,
        },
{
    v.as_str()
}

/// Calls `Value::as_u64`: the value, if it is a whole number from 0 to `u64::MAX`.
#[verifier::external_body]
pub(crate) fn as_u64(v: &Value) -> (r: Option<u64>)
    ensures
        r == natural_in(json_of(*v)),
{
    v.as_u64()
}

/// Calls `Value::as_bool`: the value, if it is a boolean.
#[verifier::external_body]
pub(crate) fn as_bool(v: &Value) -> (r: Option<bool>)
    ensures
        r == bool_in(json_of(*v)),
{
    v.as_bool()
}

/// Calls `Value::as_number` and `Number::to_string`: how the number is written, if the value is one.
#[verifier::external_body]
pub(crate) fn as_number_text(v: &Value) -> (r: Option<String>)
    ensures
        match r {
            Some(s) => number_in(json_of(*v)) == Some(s@),
            None => number_in(json_of(*v)) is None,
        },
{
    v.as_number().map(|n| n.to_string())
}

/// Calls `Value::clone`: a value that holds the same.
#[verifier::external_body]
pub(crate) fn copy_of(v: &Value) -> (r: Value)
    ensures
        json_of(r) == json_of(*v),
{
    v.clone()
}

/// The members of a JSON object of `serde_json`.
#[verifier::external_type_specification]
#[verifier::external_body]
#[verifier::reject_recursive_types(K)]
#[verifier::reject_recursive_types(V)]
pub struct ExMembers<K, V>(serde_json::Map<K, V>);

/// What the members of a `serde_json::Map` hold, by key.
pub uninterp spec fn members_of(m: serde_json::Map<String, serde_json::Value>) -> Map<
    Seq<char>,
    Json,
>;

/// How `serde_json` writes a value, without spaces or line breaks between its parts.
pub uninterp spec fn json_written(j: Json) -> Seq<char>;

/// Whether a value is an object whose members are all texts, booleans or null, and none of them has
/// the key that `serde_json` reserves for raw JSON: where that key comes first, reading takes the
/// member's text for JSON of its own.
pub open spec fn flat(j: Json) -> bool {
    match j {
        Json::Object(m) => {
            &&& !m.contains_key("$serde_json::private::RawValue"@)
            &&& forall|k: Seq<char>| #[trigger]
                m.contains_key(k) ==> m[k] is Text || m[k] is Bool || m[k] is Null
        },
        _ => false,
    }
}

/// An object without members.
pub open spec fn no_keys() -> Map<Seq<char>, Json> {
    Map::empty()
}

/// Calls `serde_json::Map::new`: an object without members.
#[verifier::external_body]
pub(crate) fn no_members() -> (r: Members)
    ensures
        members_of(r) == no_keys(),
{
    serde_json::Map::new()
}

/// Calls `serde_json::Map::insert`: the key now has the given value; no other member changes.
#[verifier::external_body]
pub(crate) fn put(m: &mut Members, key: &str, v: Value)
    ensures
        members_of(*final(m)) == members_of(*old(m)).insert(key@, json_of(v)),
{
    m.insert(key.to_owned(), v);
}

/// The constructor `Value::Object`: an object with the given members.
#[verifier::external_body]
pub(crate) fn object(m: Members) -> (r: Value)
    ensures
        json_of(r) == Json::Object(members_of(m)),
{
    Value::Object(m)
}

/// The constructor `Value::String`: a string with the given characters.
#[verifier::external_body]
pub(crate) fn string(s: &str) -> (r: Value)
    ensures
        json_of(r) == Json::Text(s@),
{
    Value::String(s.to_owned())
}

/// The constructor `Value::Bool`.
#[verifier::external_body]
pub(crate) fn boolean(b: bool) -> (r: Value)
    ensures
        json_of(r) == Json::Bool(b),
{
    Value::Bool(b)
}

/// Calls `Value::from` with an unsigned number, which is written in decimal.
#[verifier::external_body]
pub(crate) fn natural(n: u64) -> (r: Value)
    ensures
        json_of(r) == (Json::Number { text: number::decimal(n as nat), natural: Some(n) }),
{
    Value::from(n)
}

/// Calls `Value::default`, which is null.
#[verifier::external_body]
pub(crate) fn null() -> (r: Value)
    ensures
        json_of(r) == Json::Null,
{
    Value::default()
}

/// Calls `Value::to_string`. The text depends on what the value holds alone (members are written in
/// the order of their keys) and is named, not spelled out. Stated is that an object of texts,
/// booleans and nulls without the key reserved for raw JSON is read back as it was. Of objects with
/// that key it does not hold; of numbers it is not said, since reading may round a fraction.
#[verifier::external_body]
pub(crate) fn write(v: &Value) -> (r: String)
    ensures
        r@ == json_written(json_of(*v)),
        flat(json_of(*v)) ==> json_text(vstd::utf8::encode_utf8(r@)) == Some(json_of(*v)),
{
    v.to_string()
}

} // verus!
