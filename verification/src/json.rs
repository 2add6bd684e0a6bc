//! The values that lens rules and image metadata hold.
//!
//! A value keeps what the matching and editing logic reads of it: whether it
//! is a string (and its text), a number, or anything else, together with the
//! text that the JSON library renders for it.

use vstd::prelude::*;

verus! {

/// A metadata or rule value.
///
/// `Text` is a JSON string and holds its contents. `Number` and `Other`
/// (null, booleans, arrays, objects) hold the compact JSON text that
/// `serde_json` displays for the value.
#[derive(Debug, Clone, PartialEq, Eq)]
pub enum JsonValue {
    Text(String),
    Number(String),
    Other(String),
}

/// The mathematical model of a [`JsonValue`].
pub enum JsonModel {
    Text(Seq<char>),
    Number(Seq<char>),
    Other(Seq<char>),
}

impl View for JsonValue {
    type V = JsonModel;

    open spec fn view(&self) -> JsonModel {
        match self {
            JsonValue::Text(s) => JsonModel::Text(s@),
            JsonValue::Number(s) => JsonModel::Number(s@),
            JsonValue::Other(s) => JsonModel::Other(s@),
        }
    }
}

/// The plain-text rendering of a value: a string without quotes, anything
/// else as JSON displays it.
pub open spec fn display_text(v: JsonModel) -> Seq<char> {
    match v {
        JsonModel::Text(s) => s,
        JsonModel::Number(s) => s,
        JsonModel::Other(s) => s,
    }
}

/// The string a value holds, if it is a string.
pub open spec fn text_of(v: JsonModel) -> Option<Seq<char>> {
    match v {
        JsonModel::Text(s) => Some(s),
        _ => None,
    }
}

impl JsonValue {
    /// A string value.
    pub fn text(s: &str) -> (r: JsonValue)
        ensures
            r@ == JsonModel::Text(s@),
    {
        JsonValue::Text(s.to_owned())
    }

    /// A copy that is equal to `self`.
    pub fn duplicate(&self) -> (r: JsonValue)
        ensures
            r == *self,
            r@ == self@,
    {
        match self {
            JsonValue::Text(s) => JsonValue::Text(s.clone()),
            JsonValue::Number(s) => JsonValue::Number(s.clone()),
            JsonValue::Other(s) => JsonValue::Other(s.clone()),
        }
    }

    /// The string this value holds, if it is a string (`Value::as_str`).
    pub fn as_str(&self) -> (r: Option<&str>)
        ensures
            match r {
                Some(s) => text_of(self@) == Some(s@),
                None => text_of(self@) is None,
            },
    {
        match self {
            JsonValue::Text(s) => Some(s.as_str()),
            _ => None,
        }
    }

    /// Whether two values are the same JSON value, as `serde_json`'s
    /// `Value` compares them: strings by their text, numbers and other
    /// values as what their texts parse to, values of different kinds never.
    pub fn same_as(&self, other: &JsonValue) -> (r: bool)
        ensures
            r == same_json(self@, other@),
    {
        match (self, other) {
            (JsonValue::Text(a), JsonValue::Text(b)) => *a == *b,
            (JsonValue::Number(a), JsonValue::Number(b)) => json_texts_equal(a.as_str(), b.as_str()),
            (JsonValue::Other(a), JsonValue::Other(b)) => json_texts_equal(a.as_str(), b.as_str()),
            _ => false,
        }
    }
}

/// What `serde_json` says of two JSON texts: whether they parse to equal
/// values (`Value`'s `==`, under which the numbers `-0.0` and `0.0` are
/// equal, and `2` and `2.0` are not).
pub uninterp spec fn json_equal_of(a: Seq<char>, b: Seq<char>) -> bool;

/// Whether two values are the same JSON value: strings by their text,
/// numbers and other values as `serde_json` compares what their texts parse
/// to, values of different kinds never.
pub open spec fn same_json(a: JsonModel, b: JsonModel) -> bool {
    match (a, b) {
        (JsonModel::Text(x), JsonModel::Text(y)) => x == y,
        (JsonModel::Number(x), JsonModel::Number(y)) => json_equal_of(x, y),
        (JsonModel::Other(x), JsonModel::Other(y)) => json_equal_of(x, y),
        _ => false,
    }
}

/// `serde_json::from_str` of both texts, then `Value`'s `==` on what they
/// parse to.
#[verifier::external_body]
pub(crate) fn json_texts_equal(a: &str, b: &str) -> (r: bool)
    ensures
        r == json_equal_of(a@, b@),
{
    serde_json::from_str::<serde_json::Value>(a).ok() == serde_json::from_str::<serde_json::Value>(b).ok()
}

} // verus!
