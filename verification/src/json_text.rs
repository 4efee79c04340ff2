//! Reading and writing JSON text through `serde_json`.

use vstd::prelude::*;
use crate::json::{Json, JsonNumber, JsonView, Member};
use serde_json::Value;

verus! {

/// `serde_json::Value`, the JSON tree of that crate, carried through as it
/// is: nothing is known of what a value of it holds.
#[verifier::external_type_specification]
#[verifier::external_body]
pub struct ExValue(serde_json::Value);

/// The tree that `serde_json::from_str` reads from a text, or nothing where
/// it reports an error.
pub uninterp spec fn parsed(text: Seq<char>) -> Option<JsonView>;

/// The text that `serde_json::to_string` writes for a tree.
pub uninterp spec fn compact(tree: JsonView) -> Seq<char>;

/// The text that `serde_json::to_string_pretty` writes for a tree.
pub uninterp spec fn pretty(tree: JsonView) -> Seq<char>;

/// The view of an optional tree.
pub open spec fn tree_view(tree: Option<Json>) -> Option<JsonView> {
    match tree {
        Some(j) => Some(j@),
        None => None,
    }
}

/// Copies a `serde_json::Value` into a tree of this crate, variant by
/// variant; a number that is no integer is kept as the text that
/// `Number::to_string` gives. Nothing is claimed of the result.
#[verifier::external_body]
fn tree_of(v: &Value) -> Json {
    match v {
        Value::Null => Json::Null,
        Value::Bool(b) => Json::Bool(*b),
        Value::Number(n) => Json::Number(match (n.as_u64(), n.as_i64()) {
            (Some(u), _) => JsonNumber::PosInt(u),
            (_, Some(i)) => JsonNumber::NegInt(i),
            _ => JsonNumber::float(n.to_string()),
        }),
        Value::String(s) => Json::String(s.clone()),
        Value::Array(a) => Json::Array(a.iter().map(tree_of).collect()),
        Value::Object(m) => Json::Object(
            m.iter().map(|(k, x)| Member { name: k.clone(), value: tree_of(x) }).collect(),
        ),
    }
}

/// Copies a tree of this crate into a `serde_json::Value`, variant by
/// variant. The text of a number that is no integer is read back by
/// `serde_json::from_str`; such a text always writes a number, so the value
/// for its error is never taken. Nothing is claimed of the result.
#[verifier::external_body]
fn value_of(j: &Json) -> Value {
    match j {
        Json::Null => Value::Null,
        Json::Bool(b) => Value::Bool(*b),
        Json::Number(JsonNumber::PosInt(u)) => Value::from(*u),
        Json::Number(JsonNumber::NegInt(i)) => Value::from(*i),
        Json::Number(JsonNumber::Float(t)) => serde_json::from_str(t.as_str()).unwrap_or(Value::Null),
        Json::String(s) => Value::String(s.clone()),
        Json::Array(a) => Value::Array(a.iter().map(value_of).collect()),
        Json::Object(m) => Value::Object(
            m.iter().map(|e| (e.name.clone(), value_of(&e.value))).collect(),
        ),
    }
}

/// Calls `serde_json::from_str`. The result is the tree named `parsed` for
/// this text: the same text always reads as the same tree.
#[verifier::external_body]
fn read_text(text: &str) -> (r: Option<Json>)
    ensures
        tree_view(r) == parsed(text@),
{
    serde_json::from_str::<Value>(text).ok().map(|v| tree_of(&v))
}

/// Calls `serde_json::to_string`. The result is the text named `compact` for
/// this tree, and there always is one: writing fails only where a map has
/// keys that are no strings or where the value's own writing fails, and a
/// `serde_json::Value` has neither.
#[verifier::external_body]
fn write_compact(tree: &Json) -> (r: Option<String>)
    ensures
        r is Some,
        r->0@ == compact(tree@),
{
    serde_json::to_string(&value_of(tree)).ok()
}

/// Calls `serde_json::to_string_pretty`. The result is the text named
/// `pretty` for this tree, and there always is one, for the same reason as
/// for the text on one line.
#[verifier::external_body]
fn write_pretty(tree: &Json) -> (r: Option<String>)
    ensures
        r is Some,
        r->0@ == pretty(tree@),
{
    serde_json::to_string_pretty(&value_of(tree)).ok()
}

/// Reads a JSON text.
pub fn parse_json(text: &str) -> (r: Option<Json>)
    ensures
        tree_view(r) == parsed(text@),
{
    read_text(text)
}

/// Writes a tree as JSON text on one line.
pub fn to_text(tree: &Json) -> (text: String)
    ensures
        text@ == compact(tree@),
{
    match write_compact(tree) {
        Some(text) => text,
        None => String::new(),
    }
}

/// Writes a tree as indented JSON text.
pub fn to_text_pretty(tree: &Json) -> (text: String)
    ensures
        text@ == pretty(tree@),
{
    match write_pretty(tree) {
        Some(text) => text,
        None => String::new(),
    }
}

} // verus!
