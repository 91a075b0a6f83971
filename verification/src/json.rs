//! JSON text at the boundary to other components.
//!
//! Text that crosses the boundary may carry a layer of JSON encoding: a
//! result may be a JSON string that holds the text, arguments travel as JSON
//! literals. Encoding and decoding are `serde_json`'s; this module states
//! what the library relies on and offers the conversions to the rest.

use vstd::prelude::*;

verus! {

#[verifier::external_type_specification]
#[verifier::external_body]
pub struct ExJsonError(serde_json::Error);

/// The text that `text` holds when read as one JSON string; `None` when
/// `text` is not one JSON string.
pub uninterp spec fn json_string_value(text: Seq<char>) -> Option<Seq<char>>;

/// The texts that `text` holds when read as one JSON array of strings; `None`
/// when `text` is not such an array.
pub uninterp spec fn json_string_list(text: Seq<char>) -> Option<Seq<Seq<char>>>;

/// The JSON string literal that stands for `s`; `None` if the encoder fails.
pub uninterp spec fn json_string_literal(s: Seq<char>) -> Option<Seq<char>>;

/// What an argument text is as a JSON value, as far as the library looks.
#[derive(Debug, PartialEq, Eq)]
pub enum JsonShape {
    /// An array.
    Array,
    /// An object: its members, each once, with its key and its value as
    /// compact JSON text. The order of the members is that of the decoder's
    /// map, not that of the text; nothing here depends on it.
    Object(Vec<(String, String)>),
    /// Any other value.
    Scalar,
}

/// A shape as a mathematical value.
pub enum JsonShapeView {
    Array,
    Object(Seq<(Seq<char>, Seq<char>)>),
    Scalar,
}

impl View for JsonShape {
    type V = JsonShapeView;

    open spec fn view(&self) -> JsonShapeView {
        match self {
            JsonShape::Array => JsonShapeView::Array,
            JsonShape::Object(members) => JsonShapeView::Object(members.deep_view()),
            JsonShape::Scalar => JsonShapeView::Scalar,
        }
    }
}

impl DeepView for JsonShape {
    type V = JsonShapeView;

    open spec fn deep_view(&self) -> JsonShapeView {
        self@
    }
}

/// The shape of the JSON value that `text` holds; `None` when `text` is not
/// one JSON value.
pub uninterp spec fn json_shape(text: Seq<char>) -> Option<JsonShapeView>;

/// Calls `serde_json::from_str` at the type `String`. The contract names the
/// outcome `json_string_value`: the decoded text on success, `None` on any
/// error. Nothing more is claimed of it.
#[verifier::external_body]
fn string_from_json(text: &str) -> (r: Result<String, serde_json::Error>)
    ensures
        match r {
            Ok(s) => json_string_value(text@) == Some(s@),
            Err(_) => json_string_value(text@) is None,
        },
{
    serde_json::from_str::<String>(text)
}

/// Calls `serde_json::from_str` at the type `Vec<String>`. The contract names
/// the outcome `json_string_list`: the decoded texts on success, `None` on any
/// error. Nothing more is claimed of it.
#[verifier::external_body]
fn strings_from_json(text: &str) -> (r: Result<Vec<String>, serde_json::Error>)
    ensures
        match r {
            Ok(v) => json_string_list(text@) == Some(v.deep_view()),
            Err(_) => json_string_list(text@) is None,
        },
{
    serde_json::from_str::<Vec<String>>(text)
}

/// Calls `serde_json::to_string` on a string slice. The contract names the
/// outcome `json_string_literal`: the literal on success, `None` on any
/// error. Nothing more is claimed of it.
#[verifier::external_body]
fn string_to_json(s: &str) -> (r: Result<String, serde_json::Error>)
    ensures
        match r {
            Ok(t) => json_string_literal(s@) == Some(t@),
            Err(_) => json_string_literal(s@) is None,
        },
{
    serde_json::to_string(s)
}

/// Calls `serde_json::from_str` at the type `serde_json::Value` and tells the
/// variants of the value apart; the members of an object are handed out with
/// the compact text that `Value`'s `to_string` gives each value. The contract
/// names the outcome of the two together `json_shape`, `None` on any error
/// of the decoder. Nothing more is claimed of it.
#[verifier::external_body]
fn shape_from_json(text: &str) -> (r: Result<JsonShape, serde_json::Error>)
    ensures
        match r {
            Ok(shape) => json_shape(text@) == Some(shape@),
            Err(_) => json_shape(text@) is None,
        },
{
    Ok(match serde_json::from_str::<serde_json::Value>(text)? {
        serde_json::Value::Array(_) => JsonShape::Array,
        serde_json::Value::Object(map) => JsonShape::Object(
            map.iter().map(|(k, v)| (k.clone(), v.to_string())).collect(),
        ),
        serde_json::Value::Null => JsonShape::Scalar,
        serde_json::Value::Bool(_) => JsonShape::Scalar,
        serde_json::Value::Number(_) => JsonShape::Scalar,
        serde_json::Value::String(_) => JsonShape::Scalar,
    })
}

/// Calls `to_string` of `serde_json::Error`: the description of the error.
/// Nothing is claimed of the text.
#[verifier::external_body]
fn error_text(error: &serde_json::Error) -> (r: String) {
    error.to_string()
}

/// `text` without one layer of JSON string encoding, if it has one; else
/// `text` itself.
pub open spec fn decoded_text(text: Seq<char>) -> Seq<char> {
    match json_string_value(text) {
        Some(s) => s,
        None => text,
    }
}

/// The names that `text` lists, or none if it is no list of names.
pub open spec fn listed_names(text: Seq<char>) -> Seq<Seq<char>> {
    match json_string_list(text) {
        Some(names) => names,
        None => seq![],
    }
}

/// The JSON literal for `s`, or the empty text if the encoder fails.
pub open spec fn literal_or_empty(s: Seq<char>) -> Seq<char> {
    match json_string_literal(s) {
        Some(t) => t,
        None => seq![],
    }
}

/// The decoded text if there is one, else the raw text.
pub fn decoded_or_raw(decoded: Option<String>, raw: &str) -> (r: String)
    ensures
        r@ == match decoded {
            Some(s) => s@,
            None => raw@,
        },
{
    match decoded {
        Some(s) => s,
        None => raw.to_owned(),
    }
}

/// Reads `json` as one JSON string.
pub fn parse_json_string(json: &str) -> (r: Option<String>)
    ensures
        r.deep_view() == json_string_value(json@),
{
    match string_from_json(json) {
        Ok(s) => Some(s),
        Err(_) => None,
    }
}

/// Removes one layer of JSON string encoding from `json`, if it has one;
/// returns `json` as it is otherwise.
pub fn decode_json_string(json: &str) -> (r: String)
    ensures
        r@ == decoded_text(json@),
{
    decoded_or_raw(parse_json_string(json), json)
}

/// Reads `json` as a JSON array of strings; anything else gives no names.
pub fn parse_name_list(json: &str) -> (r: Vec<String>)
    ensures
        r.deep_view() == listed_names(json@),
{
    match strings_from_json(json) {
        Ok(names) => names,
        Err(_) => {
            let none: Vec<String> = Vec::new();
            assert(none.deep_view() =~= seq![]);
            none
        },
    }
}

/// The JSON string literal for `s`, or the encoder's description of its
/// failure.
pub fn encode_json_string(s: &str) -> (r: Result<String, String>)
    ensures
        match r {
            Ok(t) => json_string_literal(s@) == Some(t@),
            Err(_) => json_string_literal(s@) is None,
        },
{
    match string_to_json(s) {
        Ok(t) => Ok(t),
        Err(e) => Err(error_text(&e)),
    }
}

/// The JSON string literal for `s`, or the empty text if the encoder fails.
pub fn encode_or_empty(s: &str) -> (r: String)
    ensures
        r@ == literal_or_empty(s@),
{
    match string_to_json(s) {
        Ok(t) => t,
        Err(_) => String::new(),
    }
}

/// The shape of the JSON value that `json` holds, if it holds one.
pub fn parse_json_shape(json: &str) -> (r: Option<JsonShape>)
    ensures
        r.deep_view() == json_shape(json@),
{
    match shape_from_json(json) {
        Ok(shape) => Some(shape),
        Err(_) => None,
    }
}

} // verus!
