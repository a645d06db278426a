//! JSON values as plain data, for structural redaction of captured bodies.
//!
//! Numbers are carried as their literal text so that redaction never changes
//! them. Documents are parsed from and rendered to text by `serde_json`.
use vstd::prelude::*;

verus! {

/// A JSON document.
#[derive(Debug, PartialEq, Eq)]
pub enum JsonValue {
    Null,
    Bool(bool),
    /// A number, as its JSON literal text.
    Number(String),
    String(String),
    Array(Vec<JsonValue>),
    /// Object members, in order (a parsed document lists them in
    /// `serde_json`'s map order).
    Object(Vec<(String, JsonValue)>),
}

/// Mathematical model of a [`JsonValue`].
pub enum JsonModel {
    Null,
    Bool(bool),
    Number(Seq<char>),
    String(Seq<char>),
    Array(Seq<JsonModel>),
    Object(Seq<(Seq<char>, JsonModel)>),
}

/// The model of a JSON value.
pub open spec fn json_model(v: JsonValue) -> JsonModel
    decreases v,
{
    match v {
        JsonValue::Null => JsonModel::Null,
        JsonValue::Bool(b) => JsonModel::Bool(b),
        JsonValue::Number(n) => JsonModel::Number(n@),
        JsonValue::String(s) => JsonModel::String(s@),
        JsonValue::Array(items) => JsonModel::Array(
            Seq::new(
                items@.len(),
                |i: int|
                    if 0 <= i < items@.len() {
                        json_model(items@[i])
                    } else {
                        JsonModel::Null
                    },
            ),
        ),
        JsonValue::Object(entries) => JsonModel::Object(
            Seq::new(
                entries@.len(),
                |i: int|
                    if 0 <= i < entries@.len() {
                        (entries@[i].0@, json_model(entries@[i].1))
                    } else {
                        (Seq::empty(), JsonModel::Null)
                    },
            ),
        ),
    }
}

impl View for JsonValue {
    type V = JsonModel;

    open spec fn view(&self) -> JsonModel {
        json_model(*self)
    }
}

/// `serde_json`'s document type, carried opaquely through the parse and
/// render wrappers.
#[verifier::external_type_specification]
#[verifier::external_body]
pub struct ExSerdeJsonValue(serde_json::Value);

/// The document `serde_json::from_str::<serde_json::Value>` parses from a
/// text, as a library value (`None` when the text is not JSON).
pub uninterp spec fn json_document_of(text: Seq<char>) -> Option<JsonModel>;

/// The compact text `serde_json` renders for a document (`Value::to_string`).
pub uninterp spec fn json_text_of(doc: JsonModel) -> Seq<char>;

/// Converts a parsed `serde_json` document into a library value, member
/// for member; part of `parse_json_document`, with nothing stated of it.
#[verifier::external_body]
fn json_value_from_serde(value: &serde_json::Value) -> JsonValue {
    match value {
        serde_json::Value::Null => JsonValue::Null,
        serde_json::Value::Bool(b) => JsonValue::Bool(*b),
        serde_json::Value::Number(n) => JsonValue::Number(n.to_string()),
        serde_json::Value::String(s) => JsonValue::String(s.clone()),
        serde_json::Value::Array(items) => JsonValue::Array(items.iter().map(json_value_from_serde).collect()),
        serde_json::Value::Object(map) => JsonValue::Object(
            map.iter().map(|(key, entry)| (key.clone(), json_value_from_serde(entry))).collect(),
        ),
    }
}

/// Converts a library value into a `serde_json` document, member for
/// member (a number literal that `serde_json` does not read as a number is
/// kept as a string); part of `render_json_document`, with nothing stated of
/// it.
#[verifier::external_body]
fn json_value_to_serde(value: &JsonValue) -> serde_json::Value {
    match value {
        JsonValue::Null => serde_json::Value::Null,
        JsonValue::Bool(b) => serde_json::Value::Bool(*b),
        JsonValue::Number(text) => text.parse::<serde_json::Number>().map(serde_json::Value::Number).unwrap_or_else(
            |_| serde_json::Value::String(text.clone()),
        ),
        JsonValue::String(s) => serde_json::Value::String(s.clone()),
        JsonValue::Array(items) => serde_json::Value::Array(items.iter().map(json_value_to_serde).collect()),
        JsonValue::Object(entries) => serde_json::Value::Object(
            entries.iter().map(|(key, entry)| (key.clone(), json_value_to_serde(entry))).collect(),
        ),
    }
}

/// `serde_json::from_str::<serde_json::Value>`: parses a text as a JSON
/// document. Stated: the result is the document named by `json_document_of`
/// for the text (a function of the text alone: parsing is deterministic and
/// the map type orders members by key). What the document is, is
/// `serde_json`'s and is not restated.
#[verifier::external_body]
pub(crate) fn parse_json_document(text: &str) -> (r: Option<JsonValue>)
    ensures
        (match r {
            Some(doc) => Some(doc@),
            None => None,
        }) == json_document_of(text@),
{
    serde_json::from_str::<serde_json::Value>(text).ok().map(|value| json_value_from_serde(&value))
}

/// `serde_json::Value::to_string`: renders a document as compact JSON text.
/// Stated: the result is the text named by `json_text_of` for the document
/// (rendering does not fail and depends on the document alone). Escaping and
/// number formatting are `serde_json`'s and are not restated.
#[verifier::external_body]
pub(crate) fn render_json_document(doc: &JsonValue) -> (r: String)
    ensures
        r@ == json_text_of(doc@),
{
    json_value_to_serde(doc).to_string()
}

} // verus!
