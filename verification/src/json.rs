//! JSON values, held as `serde_json::Value` and read through a mathematical
//! model.
//!
//! Every function in this module is a binding to `serde_json`; the contracts
//! are taken on trust. The rest of the library reasons about JSON only through
//! [`json_of`] and the spec functions beside it.

use vstd::prelude::*;

verus! {

/// The mathematical content of a JSON value.
pub enum Json {
    Null,
    Bool(bool),
    /// A number, by the text that `serde_json` prints for it.
    Number(Seq<char>),
    Text(Seq<char>),
    Array(Seq<Json>),
    Object(Map<Seq<char>, Json>),
}

#[verifier::external_type_specification]
#[verifier::external_body]
pub struct ExValue(serde_json::Value);

#[verifier::external_type_specification]
#[verifier::external_body]
pub struct ExJsonError(serde_json::Error);

/// What a `serde_json::Value` holds.
pub uninterp spec fn json_of(v: serde_json::Value) -> Json;

/// The value that a text decodes to under `serde_json::from_str`, or `None`
/// where the text is not one JSON document.
pub uninterp spec fn parsed_json(text: Seq<char>) -> Option<Json>;

/// The compact encoding that `serde_json::to_string` writes for a value.
pub uninterp spec fn json_text(j: Json) -> Seq<char>;

/// The indented encoding that `serde_json::to_string_pretty` writes for a
/// value.
pub uninterp spec fn json_pretty_text(j: Json) -> Seq<char>;

/// The order in which `serde_json` walks the keys of an object: each key
/// once, in ascending order.
pub uninterp spec fn key_order(keys: Set<Seq<char>>) -> Seq<Seq<char>>;

/// True when `a` comes before `b` in the order of texts: the texts are
/// compared character by character, and a text comes behind its proper
/// prefixes.
pub open spec fn text_before(a: Seq<char>, b: Seq<char>) -> bool
    decreases a.len(),
{
    if b.len() == 0 {
        false
    } else if a.len() == 0 {
        true
    } else if a[0] != b[0] {
        (a[0] as u32) < (b[0] as u32)
    } else {
        text_before(a.drop_first(), b.drop_first())
    }
}

/// True when each text comes before those behind it.
pub open spec fn ascending(texts: Seq<Seq<char>>) -> bool {
    forall|i: int, j: int| 0 <= i < j < texts.len() ==> text_before(texts[i], texts[j])
}

/// The number held by a JSON number that `serde_json` stores as an unsigned
/// integer; `None` for a negative or fractional number and for a value that
/// is no number.
pub uninterp spec fn number_u64(j: Json) -> Option<u64>;

/// The number held by a JSON number that fits a signed 64-bit integer;
/// `None` for a larger or fractional number and for a value that is no
/// number.
pub uninterp spec fn number_i64(j: Json) -> Option<i64>;

/// The contents of a sequence of values.
pub open spec fn jsons_of(vs: Seq<serde_json::Value>) -> Seq<Json> {
    Seq::new(vs.len(), |i: int| json_of(vs[i]))
}

/// The member of an object under a key; `None` for a missing key and for
/// anything that is not an object.
pub open spec fn member(j: Json, key: Seq<char>) -> Option<Json> {
    match j {
        Json::Object(m) => if m.contains_key(key) {
            Some(m[key])
        } else {
            None
        },
        _ => None,
    }
}

/// The text of a JSON string; `None` for any other value.
pub open spec fn text_of(j: Json) -> Option<Seq<char>> {
    match j {
        Json::Text(s) => Some(s),
        _ => None,
    }
}

/// The flag of a JSON boolean; `None` for any other value.
pub open spec fn bool_of(j: Json) -> Option<bool> {
    match j {
        Json::Bool(b) => Some(b),
        _ => None,
    }
}

/// The text of the string member `key` of `j`, if `j` is an object that has
/// such a member.
pub open spec fn text_member(j: Json, key: Seq<char>) -> Option<Seq<char>> {
    match member(j, key) {
        Some(v) => text_of(v),
        None => None,
    }
}

/// `serde_json::from_str` at type `Value`: decodes one JSON document.
#[verifier::external_body]
pub(crate) fn parse(text: &str) -> (r: Result<serde_json::Value, serde_json::Error>)
    ensures
        r is Ok == parsed_json(text@) is Some,
        r matches Ok(v) ==> Some(json_of(v)) == parsed_json(text@),
{
    serde_json::from_str::<serde_json::Value>(text)
}

/// `serde_json::Error` rendered through its `Display` impl. Nothing is
/// claimed of the wording.
#[verifier::external_body]
pub(crate) fn error_message(e: &serde_json::Error) -> (r: String) {
    e.to_string()
}

/// `Value::get` with a string key: the member of an object under that key.
#[verifier::external_body]
pub(crate) fn field<'a>(v: &'a serde_json::Value, key: &str) -> (r: Option<&'a serde_json::Value>)
    ensures
        r is Some == member(json_of(*v), key@) is Some,
        r matches Some(m) ==> Some(json_of(*m)) == member(json_of(*v), key@),
{
    v.get(key)
}

/// `Value::as_str`: the text of a JSON string.
#[verifier::external_body]
pub(crate) fn as_text<'a>(v: &'a serde_json::Value) -> (r: Option<&'a str>)
    ensures
        r is Some == text_of(json_of(*v)) is Some,
        r matches Some(s) ==> Some(s@) == text_of(json_of(*v)),
{
    v.as_str()
}

/// `Value::as_bool`: the flag of a JSON boolean.
#[verifier::external_body]
pub(crate) fn as_bool(v: &serde_json::Value) -> (r: Option<bool>)
    ensures
        r == bool_of(json_of(*v)),
{
    v.as_bool()
}

/// `Value::as_u64`: the unsigned integer of a JSON number.
#[verifier::external_body]
pub(crate) fn as_u64(v: &serde_json::Value) -> (r: Option<u64>)
    ensures
        r == number_u64(json_of(*v)),
        !(json_of(*v) is Number) ==> r is None,
{
    v.as_u64()
}

/// `Value::as_i64`: the signed integer of a JSON number.
#[verifier::external_body]
pub(crate) fn as_i64(v: &serde_json::Value) -> (r: Option<i64>)
    ensures
        r == number_i64(json_of(*v)),
        !(json_of(*v) is Number) ==> r is None,
{
    v.as_i64()
}

/// `Value::is_number`: true for a JSON number.
#[verifier::external_body]
pub(crate) fn is_number(v: &serde_json::Value) -> (r: bool)
    ensures
        r == (json_of(*v) is Number),
{
    v.is_number()
}

/// `Value::is_null`: true for the JSON `null`.
#[verifier::external_body]
pub(crate) fn is_null(v: &serde_json::Value) -> (r: bool)
    ensures
        r == (json_of(*v) is Null),
{
    v.is_null()
}

/// `Value::as_array`: the elements of a JSON array.
#[verifier::external_body]
pub(crate) fn as_array<'a>(v: &'a serde_json::Value) -> (r: Option<&'a Vec<serde_json::Value>>)
    ensures
        r is Some == json_of(*v) is Array,
        r matches Some(a) ==> json_of(*v) == Json::Array(jsons_of(a@)),
{
    v.as_array()
}

/// `Map::keys` of the object that `Value::as_object` gives, collected: every
/// key once, in the order in which the map is walked. The map is a
/// `BTreeMap` keyed by `String`, which is walked in ascending order of the
/// keys.
#[verifier::external_body]
pub(crate) fn object_keys(v: &serde_json::Value) -> (r: Option<Vec<String>>)
    ensures
        r is Some == json_of(*v) is Object,
        r matches Some(ks) ==> {
            &&& crate::text::views(ks@) == key_order(json_of(*v)->Object_0.dom())
            &&& crate::text::views(ks@).no_duplicates()
            &&& crate::text::views(ks@).to_set() == json_of(*v)->Object_0.dom()
            &&& ascending(crate::text::views(ks@))
        },
{
    v.as_object().map(|m| m.keys().cloned().collect())
}

/// `serde_json::to_string` on a `Value`: its compact encoding. Encoding a
/// `Value` does not fail.
#[verifier::external_body]
pub(crate) fn encode(v: &serde_json::Value) -> (r: String)
    ensures
        r@ == json_text(json_of(*v)),
{
    serde_json::to_string(v).unwrap_or_default()
}

/// `serde_json::to_string_pretty` on a `Value`: its indented encoding.
/// Encoding a `Value` does not fail.
#[verifier::external_body]
pub(crate) fn encode_pretty(v: &serde_json::Value) -> (r: String)
    ensures
        r@ == json_pretty_text(json_of(*v)),
{
    serde_json::to_string_pretty(v).unwrap_or_default()
}

/// `Value::clone`: a value with the same contents.
#[verifier::external_body]
pub(crate) fn clone_value(v: &serde_json::Value) -> (r: serde_json::Value)
    ensures
        json_of(r) == json_of(*v),
{
    v.clone()
}

/// `Value::String`: the JSON string that holds the given text.
#[verifier::external_body]
pub(crate) fn text_value(s: String) -> (r: serde_json::Value)
    ensures
        json_of(r) == Json::Text(s@),
{
    serde_json::Value::String(s)
}

/// `Value::Object` over `Map::new`: the JSON object without members.
#[verifier::external_body]
pub(crate) fn empty_object() -> (r: serde_json::Value)
    ensures
        json_of(r) == Json::Object(Map::empty()),
{
    serde_json::Value::Object(serde_json::Map::new())
}

/// `Value::from` on an unsigned integer: the JSON number that holds it,
/// printed in decimal digits.
#[verifier::external_body]
pub(crate) fn unsigned_value(n: u64) -> (r: serde_json::Value)
    ensures
        json_of(r) == Json::Number(crate::text::decimal_of(n as nat)),
        number_u64(json_of(r)) == Some(n),
{
    serde_json::Value::from(n)
}

/// `Map::insert` on the map that `Value::as_object_mut` gives: puts a member
/// into an object, in place of any member of the same key.
#[verifier::external_body]
pub(crate) fn insert_member(obj: &mut serde_json::Value, key: &str, val: serde_json::Value)
    requires
        json_of(*old(obj)) is Object,
    ensures
        json_of(*final(obj)) == Json::Object(
            json_of(*old(obj))->Object_0.insert(key@, json_of(val)),
        ),
{
    obj.as_object_mut().unwrap().insert(key.to_string(), val);
}

/// `Value::Array`: the JSON array of the given values.
#[verifier::external_body]
pub(crate) fn array_value(items: Vec<serde_json::Value>) -> (r: serde_json::Value)
    ensures
        json_of(r) == Json::Array(jsons_of(items@)),
{
    serde_json::Value::Array(items)
}

} // verus!
