//! Configuration documents: what a JSON or YAML text holds, as a tree of
//! plain values.

use vstd::prelude::*;
use serde_json::Value as JsonValue;
use serde_yaml::Value as YamlValue;

verus! {

/// A parsed configuration text.
#[derive(Debug)]
pub enum Document {
    Null,
    Bool(bool),
    /// A number; its value where it is a whole number from 0 up to the
    /// largest that 64 bits hold, `None` for any other number.
    Number(Option<u64>),
    Text(String),
    List(Vec<Document>),
    /// The entries of a table, each a key with its value.
    Table(Vec<(Document, Document)>),
    /// A value under a YAML tag.
    Tagged(String, Box<Document>),
}

/// The error of the JSON parser.
#[verifier::external_type_specification]
#[verifier::external_body]
pub struct ExJsonError(serde_json::Error);

/// The error of the YAML parser.
#[verifier::external_type_specification]
#[verifier::external_body]
pub struct ExYamlError(serde_yaml::Error);

/// A JSON value as the parser builds it.
#[verifier::external_type_specification]
#[verifier::external_body]
pub struct ExJsonValue(serde_json::Value);

/// A YAML value as the parser builds it.
#[verifier::external_type_specification]
#[verifier::external_body]
pub struct ExYamlValue(serde_yaml::Value);

/// The document that a JSON text holds, or `None` where the text is not
/// JSON.
pub uninterp spec fn json_document(text: Seq<char>) -> Option<Document>;

/// The document that a YAML text holds, or `None` where the text is not
/// YAML.
pub uninterp spec fn yaml_document(text: Seq<char>) -> Option<Document>;

/// Rewrites a value of `serde_json` as a document, variant by variant. The
/// entries of an object come in the order in which the value holds them.
#[verifier::external_body]
fn document_of_json(value: &serde_json::Value) -> (document: Document) {
    match value {
        JsonValue::Null => Document::Null,
        JsonValue::Bool(flag) => Document::Bool(*flag),
        JsonValue::Number(number) => Document::Number(number.as_u64()),
        JsonValue::String(text) => Document::Text(text.clone()),
        JsonValue::Array(items) => Document::List(items.iter().map(document_of_json).collect()),
        JsonValue::Object(entries) => Document::Table(
            entries.iter().map(|(k, v)| (Document::Text(k.clone()), document_of_json(v))).collect(),
        ),
    }
}

/// Rewrites a value of `serde_yaml` as a document, variant by variant. The
/// entries of a mapping come in the order of the text.
#[verifier::external_body]
fn document_of_yaml(value: &serde_yaml::Value) -> (document: Document) {
    let tagged = |t: &serde_yaml::value::TaggedValue| Box::new(document_of_yaml(&t.value));
    match value {
        YamlValue::Null => Document::Null,
        YamlValue::Bool(flag) => Document::Bool(*flag),
        YamlValue::Number(number) => Document::Number(number.as_u64()),
        YamlValue::String(text) => Document::Text(text.clone()),
        YamlValue::Sequence(items) => Document::List(items.iter().map(document_of_yaml).collect()),
        YamlValue::Mapping(entries) => Document::Table(
            entries.iter().map(|(k, v)| (document_of_yaml(k), document_of_yaml(v))).collect(),
        ),
        YamlValue::Tagged(t) => Document::Tagged(t.tag.to_string(), tagged(t)),
    }
}

/// Parses a JSON text with `serde_json::from_str`. The parser reads the
/// text and nothing else, so the same text always gives the same document
/// or fails.
#[verifier::external_body]
pub(crate) fn parse_json(text: &str) -> (parsed: Result<Document, serde_json::Error>)
    ensures
        parsed is Ok ==> json_document(text@) == Some(parsed->Ok_0),
        parsed is Err ==> json_document(text@) is None,
{
    match serde_json::from_str::<serde_json::Value>(text) {
        Ok(value) => Ok(document_of_json(&value)),
        Err(error) => Err(error),
    }
}

/// Parses a YAML text with `serde_yaml::from_str`. The parser reads the
/// text and nothing else, so the same text always gives the same document
/// or fails.
#[verifier::external_body]
pub(crate) fn parse_yaml(text: &str) -> (parsed: Result<Document, serde_yaml::Error>)
    ensures
        parsed is Ok ==> yaml_document(text@) == Some(parsed->Ok_0),
        parsed is Err ==> yaml_document(text@) is None,
{
    match serde_yaml::from_str::<serde_yaml::Value>(text) {
        Ok(value) => Ok(document_of_yaml(&value)),
        Err(error) => Err(error),
    }
}

} // verus!
