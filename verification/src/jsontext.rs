//! Reading JSON text: `serde_json` parses, and the library receives the value as a [`Wire`].
use vstd::prelude::*;
use crate::wire::{Json, Wire, json};

verus! {

#[verifier::external_type_specification]
#[verifier::external_body]
pub struct ExJsonValue(serde_json::Value);

/// The JSON value `serde_json::from_str::<serde_json::Value>` reads from a text, as a value of
/// [`Json`] (numbers keep their JSON text); `None` when the text is not one JSON value.
pub uninterp spec fn parsed_json(text: Seq<char>) -> Option<Json>;

/// The library value of a parsed `serde_json::Value`, field for field; a number keeps the
/// text `serde_json` renders for it.
#[verifier::external_body]
fn wire_of(v: &serde_json::Value) -> Wire {
    match v {
        serde_json::Value::Null => Wire::Null,
        serde_json::Value::Bool(b) => Wire::Bool(*b),
        serde_json::Value::String(s) => Wire::Str(s.clone()),
        serde_json::Value::Number(n) => Wire::Number(n.to_string()),
        serde_json::Value::Array(items) => Wire::Array(items.iter().map(wire_of).collect()),
        serde_json::Value::Object(m) => Wire::Object(m.iter().map(|(k, x)| (k.clone(), wire_of(x))).collect()),
    }
}

/// `serde_json::from_str::<serde_json::Value>`: the value the text holds, named by
/// [`parsed_json`], or `None` when `serde_json` reports an error.
#[verifier::external_body]
pub(crate) fn parse_json(text: &str) -> (r: Option<Wire>)
    ensures
        match parsed_json(text@) {
            Some(j) => r matches Some(w) && json(w) == j,
            None => r is None,
        },
{
    match serde_json::from_str::<serde_json::Value>(text) {
        Ok(v) => Some(wire_of(&v)),
        Err(_) => None,
    }
}

} // verus!
