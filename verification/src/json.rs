//! Reading JSON documents. The documents are parsed and held by `serde_json`;
//! this module says what its values hold and reads members out of them.

use vstd::prelude::*;

verus! {

/// `serde_json::Value`: a JSON value.
#[verifier::external_type_specification]
#[verifier::external_body]
pub struct ExValue(serde_json::Value);

/// `serde_json::Error`: why a text was not read as a JSON document.
#[verifier::external_type_specification]
#[verifier::external_body]
pub struct ExJsonError(serde_json::Error);

/// What a JSON value holds.
pub enum JsonTree {
    Null,
    Bool(bool),
    /// A number, with the 64-bit signed integer that it is, if it is one.
    Number(Option<i64>),
    Text(Seq<char>),
    List(Seq<JsonTree>),
    Object(Map<Seq<char>, JsonTree>),
}

impl JsonTree {
    /// Whether this is an object with a member under `key`.
    pub open spec fn has_field(self, key: Seq<char>) -> bool {
        match self {
            JsonTree::Object(members) => members.contains_key(key),
            _ => false,
        }
    }

    /// The member of an object under `key`; `Null` where there is none.
    pub open spec fn field(self, key: Seq<char>) -> JsonTree {
        match self {
            JsonTree::Object(members) => if members.contains_key(key) {
                members[key]
            } else {
                JsonTree::Null
            },
            _ => JsonTree::Null,
        }
    }

    /// The element of a list at `i`; `Null` where there is none.
    pub open spec fn item(self, i: int) -> JsonTree {
        match self {
            JsonTree::List(items) => if 0 <= i < items.len() {
                items[i]
            } else {
                JsonTree::Null
            },
            _ => JsonTree::Null,
        }
    }

    /// The integer of a number that is one and fits in 64 signed bits.
    pub open spec fn as_int(self) -> Option<i64> {
        match self {
            JsonTree::Number(n) => n,
            _ => None,
        }
    }

    /// The text of a string.
    pub open spec fn as_text(self) -> Option<Seq<char>> {
        match self {
            JsonTree::Text(s) => Some(s),
            _ => None,
        }
    }

    /// The value of a boolean.
    pub open spec fn as_flag(self) -> Option<bool> {
        match self {
            JsonTree::Bool(b) => Some(b),
            _ => None,
        }
    }

    /// The elements of a list.
    pub open spec fn as_items(self) -> Option<Seq<JsonTree>> {
        match self {
            JsonTree::List(items) => Some(items),
            _ => None,
        }
    }
}

/// What a `serde_json::Value` holds.
pub uninterp spec fn json_content(v: serde_json::Value) -> JsonTree;

/// The document that `serde_json` reads from a text, if it reads one.
pub uninterp spec fn json_parsed(text: Seq<char>) -> Option<JsonTree>;

/// What each of a run of values holds, in order.
pub open spec fn json_contents(values: Seq<serde_json::Value>) -> Seq<JsonTree> {
    Seq::new(values.len(), |i: int| json_content(values[i]))
}

/// `serde_json::Value::as_i64`: the integer of a number that is one and fits
/// in 64 signed bits, and nothing for any other value.
pub assume_specification[ serde_json::Value::as_i64 ](v: &serde_json::Value) -> (r: Option<i64>)
    ensures
        r == json_content(*v).as_int(),
;

/// `serde_json::Value::as_bool`: the boolean of a boolean value, and nothing
/// for any other value.
pub assume_specification[ serde_json::Value::as_bool ](v: &serde_json::Value) -> (r: Option<bool>)
    ensures
        r == json_content(*v).as_flag(),
;

/// `serde_json::Value::is_null`: whether the value is null.
pub assume_specification[ serde_json::Value::is_null ](v: &serde_json::Value) -> (r: bool)
    ensures
        r == (json_content(*v) is Null),
;

/// `serde_json::Value::as_str`: the text of a string value, and nothing for
/// any other value.
pub assume_specification<'a>[ serde_json::Value::as_str ](v: &'a serde_json::Value) -> (r: Option<
    &'a str,
>)
    ensures
        match r {
            Some(s) => json_content(*v).as_text() == Some(s@),
            None => json_content(*v).as_text() is None,
        },
;

/// `serde_json::Value::as_array`: the elements of an array value, and nothing
/// for any other value.
pub assume_specification<'a>[ serde_json::Value::as_array ](v: &'a serde_json::Value) -> (r: Option<
    &'a Vec<serde_json::Value>,
>)
    ensures
        match r {
            Some(items) => json_content(*v).as_items() == Some(json_contents(items@)),
            None => json_content(*v).as_items() is None,
        },
;

/// `serde_json::Value::get` with a string key: the member of an object under
/// that key, and nothing where the value is no object or has no such member.
#[verifier::external_body]
pub(crate) fn member<'a>(v: &'a serde_json::Value, key: &str) -> (r: Option<&'a serde_json::Value>)
    ensures
        match r {
            Some(m) => json_content(*v).has_field(key@) && json_content(*m) == json_content(
                *v,
            ).field(key@),
            None => !json_content(*v).has_field(key@),
        },
{
    v.get(key)
}

/// `serde_json::from_str` for a `Value`: the document that the text holds, or
/// an error where the text is no JSON document.
#[verifier::external_body]
pub(crate) fn parse_document(text: &str) -> (r: Result<serde_json::Value, serde_json::Error>)
    ensures
        match r {
            Ok(v) => json_parsed(text@) == Some(json_content(v)),
            Err(_) => json_parsed(text@) is None,
        },
{
    serde_json::from_str::<serde_json::Value>(text)
}

/// Whether the member under `key` is null or absent.
pub fn null_at(v: &serde_json::Value, key: &str) -> (r: bool)
    ensures
        r == (json_content(*v).field(key@) is Null),
{
    match member(v, key) {
        Some(m) => m.is_null(),
        None => true,
    }
}

/// The integer under `key`, if there is one.
pub fn int_at(v: &serde_json::Value, key: &str) -> (r: Option<i64>)
    ensures
        r == json_content(*v).field(key@).as_int(),
{
    match member(v, key) {
        Some(m) => m.as_i64(),
        None => None,
    }
}

/// The boolean under `key`, if there is one.
pub fn flag_at(v: &serde_json::Value, key: &str) -> (r: Option<bool>)
    ensures
        r == json_content(*v).field(key@).as_flag(),
{
    match member(v, key) {
        Some(m) => m.as_bool(),
        None => None,
    }
}

/// The text under `key`, if there is one.
pub fn text_at<'a>(v: &'a serde_json::Value, key: &str) -> (r: Option<&'a str>)
    ensures
        match r {
            Some(s) => json_content(*v).field(key@).as_text() == Some(s@),
            None => json_content(*v).field(key@).as_text() is None,
        },
{
    match member(v, key) {
        Some(m) => m.as_str(),
        None => None,
    }
}

/// The elements of the list under `key`, if there is one.
pub fn items_at<'a>(v: &'a serde_json::Value, key: &str) -> (r: Option<&'a Vec<serde_json::Value>>)
    ensures
        match r {
            Some(items) => json_content(*v).field(key@).as_items() == Some(json_contents(items@)),
            None => json_content(*v).field(key@).as_items() is None,
        },
{
    match member(v, key) {
        Some(m) => m.as_array(),
        None => None,
    }
}

/// Reads a JSON document from a text, for a sync pass: a text that is no
/// document is malformed upstream data.
pub fn read_document(text: &str) -> (r: Option<serde_json::Value>)
    ensures
        match r {
            Some(v) => json_parsed(text@) == Some(json_content(v)),
            None => json_parsed(text@) is None,
        },
{
    match parse_document(text) {
        Ok(v) => Some(v),
        Err(_) => None,
    }
}

} // verus!
