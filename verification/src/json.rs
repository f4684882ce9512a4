//! The boundary to `serde_json`: a mathematical model of a decoded document,
//! the decoding, and the three read accesses the library makes on a value.
//!
//! Nothing in this module is proved. Each contract restates what the
//! `serde_json` source does, over the model below.

use serde_json::Value;
use vstd::prelude::*;

verus! {

/// `serde_json::Value`, carried as it is; `json_view` names what it holds.
#[verifier::external_type_specification]
#[verifier::external_body]
pub struct ExValue(serde_json::Value);

/// `serde_json::Error`, carried as it is; nothing is read from it.
#[verifier::external_type_specification]
#[verifier::external_body]
pub struct ExError(serde_json::Error);

/// What a JSON document holds. Numbers carry no payload here because the
/// library never reads one.
pub enum Json {
    Null,
    Bool(bool),
    Number,
    Text(Seq<char>),
    List(Seq<Json>),
    Object(Map<Seq<char>, Json>),
}

impl Json {
    /// The member stored under `key`, or `Null` when `self` is not an object
    /// or has no such member.
    pub open spec fn member(self, key: Seq<char>) -> Json {
        match self {
            Json::Object(members) => if members.dom().contains(key) {
                members[key]
            } else {
                Json::Null
            },
            _ => Json::Null,
        }
    }

    /// The elements, when `self` is an array.
    pub open spec fn items(self) -> Option<Seq<Json>> {
        match self {
            Json::List(items) => Some(items),
            _ => None,
        }
    }

    /// The characters, when `self` is a string.
    pub open spec fn text(self) -> Option<Seq<char>> {
        match self {
            Json::Text(chars) => Some(chars),
            _ => None,
        }
    }
}

/// The document that a `serde_json::Value` holds.
pub uninterp spec fn json_view(value: Value) -> Json;

/// The document that a JSON text spells; `None` for bytes that are not one
/// JSON text.
pub uninterp spec fn decoded(body: Seq<u8>) -> Option<Json>;

/// The models of a run of values, element by element.
pub open spec fn json_views(values: Seq<Value>) -> Seq<Json> {
    Seq::new(values.len(), |i: int| json_view(values[i]))
}

/// `serde_json::from_slice` at the type `Value`: the value that the bytes
/// spell as one JSON text, or the error of the parser. What comes back
/// depends on the bytes alone, and the contract says no more than that.
#[verifier::external_body]
pub(crate) fn from_slice(body: &[u8]) -> (parsed: Result<Value, serde_json::Error>)
    ensures
        match parsed {
            Ok(value) => decoded(body@) == Some(json_view(value)),
            Err(_) => decoded(body@) is None,
        },
{
    serde_json::from_slice::<Value>(body)
}

/// `value[key]`, the `Index<&str>` impl of `serde_json::Value`: the member
/// under `key` when `value` is an object that has one, and a reference to
/// `Value::Null` in every other case. It never panics.
#[verifier::external_body]
pub(crate) fn member<'a>(value: &'a Value, key: &str) -> (found: &'a Value)
    ensures
        json_view(*found) == json_view(*value).member(key@),
{
    &value[key]
}

/// `Value::as_array`: the vector inside `Value::Array`, `None` for every
/// other variant.
#[verifier::external_body]
pub(crate) fn as_array<'a>(value: &'a Value) -> (items: Option<&'a Vec<Value>>)
    ensures
        match items {
            Some(found) => json_view(*value) == Json::List(json_views(found@)),
            None => !(json_view(*value) is List),
        },
{
    value.as_array()
}

/// `Value::as_str`: the string inside `Value::String`, `None` for every
/// other variant.
#[verifier::external_body]
pub(crate) fn as_str<'a>(value: &'a Value) -> (text: Option<&'a str>)
    ensures
        match text {
            Some(found) => json_view(*value) == Json::Text(found@),
            None => !(json_view(*value) is Text),
        },
{
    value.as_str()
}

} // verus!
