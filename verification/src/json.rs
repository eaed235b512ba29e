//! JSON values, as `serde_json` holds them, and the few operations on them
//! that the protocol with the child needs.

use crate::text::opt_text;
use serde_json::Value;
use vstd::prelude::*;

verus! {

/// `serde_json::Value`, taken as it is: of what a value holds nothing is
/// known but what the functions below say.
#[verifier::external_type_specification]
#[verifier::external_body]
pub struct ExJsonValue(Value);

/// `Value::clone` hands back a value equal to the one it was called on.
pub assume_specification[ <Value as Clone>::clone ](v: &Value) -> (r: Value)
    ensures
        r == *v,
;

/// Whether a JSON value is an object.
pub uninterp spec fn json_is_object(v: Value) -> bool;

/// The members of a JSON object, by name; the empty map for any other value.
pub uninterp spec fn json_members(v: Value) -> Map<Seq<char>, Value>;

/// The text of a JSON string; `None` for any other value.
pub uninterp spec fn json_string(v: Value) -> Option<Seq<char>>;

/// The value that a text stands for; `None` where the text is not one JSON
/// value.
pub uninterp spec fn json_parse(text: Seq<char>) -> Option<Value>;

/// The items of a JSON array; `None` for any other value.
pub uninterp spec fn json_items(v: Value) -> Option<Seq<Value>>;

/// A JSON value written out on one line.
pub uninterp spec fn json_text(v: Value) -> Seq<char>;

/// The members of an object that has none.
pub open spec fn no_members() -> Map<Seq<char>, Value> {
    Map::empty()
}

/// The member `key` of `v`, where `v` is an object that has one.
pub open spec fn json_member(v: Value, key: Seq<char>) -> Option<Value> {
    if json_is_object(v) && json_members(v).contains_key(key) {
        Some(json_members(v)[key])
    } else {
        None
    }
}

/// The text of the member `key` of `v`, where `v` is an object and that
/// member is a string.
pub open spec fn json_text_member(v: Value, key: Seq<char>) -> Option<Seq<char>> {
    match json_member(v, key) {
        Some(m) => json_string(m),
        None => None,
    }
}

/// Calls `serde_json::from_str` for a `Value`: the value that the text
/// stands for, or the parser's complaint.
#[verifier::external_body]
pub(crate) fn parse_json(text: &str) -> (r: Result<Value, String>)
    ensures
        match r {
            Ok(v) => json_parse(text@) == Some(v),
            Err(_) => json_parse(text@) is None,
        },
{
    match serde_json::from_str::<Value>(text) {
        Ok(v) => Ok(v),
        Err(e) => Err(e.to_string()),
    }
}

/// Calls `serde_json::to_string` on a `Value`: the value on one line. The
/// call fails only where the value's own way of writing itself fails or a
/// map has keys that are no strings; a `Value` writes itself without
/// failing, and the keys of its objects are strings, so there is a result.
#[verifier::external_body]
pub(crate) fn render_json(v: &Value) -> (r: Option<String>)
    ensures
        r is Some,
        r matches Some(s) ==> s@ == json_text(*v),
{
    serde_json::to_string(v).ok()
}

/// Calls `Value::get` with a string key: the member of that name, where the
/// value is an object that has one.
#[verifier::external_body]
pub(crate) fn json_get<'a>(v: &'a Value, key: &str) -> (r: Option<&'a Value>)
    ensures
        r == (match json_member(*v, key@) {
            Some(m) => Some(&m),
            None => None,
        }),
{
    v.get(key)
}

/// Calls `Value::as_str`: the text, where the value is a string.
#[verifier::external_body]
pub(crate) fn json_as_string(v: &Value) -> (r: Option<String>)
    ensures
        opt_text(r) == json_string(*v),
{
    v.as_str().map(|s| s.to_owned())
}

/// Makes `Value::Null`, which is neither an object nor a string.
#[verifier::external_body]
pub(crate) fn json_null() -> (r: Value)
    ensures
        !json_is_object(r),
        json_string(r) is None,
{
    Value::Null
}

/// Makes a `Value::String` that holds a copy of the text.
#[verifier::external_body]
pub(crate) fn json_from_text(s: &str) -> (r: Value)
    ensures
        json_string(r) == Some(s@),
        !json_is_object(r),
{
    Value::String(s.to_owned())
}

/// Makes a `Value::Object` around `serde_json::Map::new`: an object without
/// members.
#[verifier::external_body]
pub(crate) fn json_new_object() -> (r: Value)
    ensures
        json_is_object(r),
        json_members(r) == no_members(),
        json_string(r) is None,
{
    Value::Object(serde_json::Map::new())
}

/// Calls `serde_json::Map::insert` on the members of an object: the member
/// `key` is `value` from now on, and the other members are as before.
#[verifier::external_body]
pub(crate) fn json_insert(obj: &mut Value, key: &str, value: Value)
    requires
        json_is_object(*old(obj)),
    ensures
        json_is_object(*final(obj)),
        json_members(*final(obj)) == json_members(*old(obj)).insert(key@, value),
        json_string(*final(obj)) is None,
{
    if let Value::Object(members) = obj {
        members.insert(key.to_owned(), value);
    }
}

/// Calls `Value::as_array` and copies what it finds: the items, where the
/// value is an array.
#[verifier::external_body]
pub(crate) fn json_array_items(v: &Value) -> (r: Option<Vec<Value>>)
    ensures
        match r {
            Some(items) => json_items(*v) == Some(items@),
            None => json_items(*v) is None,
        },
{
    v.as_array().map(|items| items.to_vec())
}

/// Makes a `Value::Array` of the items.
#[verifier::external_body]
pub(crate) fn json_from_items(items: Vec<Value>) -> (r: Value)
    ensures
        json_items(r) == Some(items@),
        !json_is_object(r),
        json_string(r) is None,
{
    Value::Array(items)
}

/// The text of the member `key` of `v`, where `v` is an object and that
/// member is a string.
pub fn text_member(v: &Value, key: &str) -> (r: Option<String>)
    ensures
        opt_text(r) == json_text_member(*v, key@),
{
    match json_get(v, key) {
        Some(m) => json_as_string(m),
        None => None,
    }
}

} // verus!
