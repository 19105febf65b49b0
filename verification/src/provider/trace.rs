//! Tracing of provider requests.
//!
//! The environment variable `TPI_TRACE_PROVIDER` says whether requests are traced, and
//! whether their bodies are. Its value is read once and handed to the functions here.
use crate::json::add_member;
use crate::json::json_members;
use crate::json::json_number;
use crate::json::json_object;
use crate::json::json_string;
use crate::json::json_text;
use crate::json::json_to_text;
use crate::json::JsonModel;
use crate::text::decimal_of;
use crate::text::owned;
use crate::text::same;
use vstd::prelude::*;
use vstd::string::*;

verus! {

/// The mode that a value of the variable asks for: none, requests without bodies, or
/// requests with bodies.
pub open spec fn mode_of(value: Option<Seq<char>>) -> Option<bool> {
    match value {
        Some(text) => if text == "body"@ || text == "full"@ {
            Some(true)
        } else if text == "1"@ || text == "true"@ {
            Some(false)
        } else {
            None
        },
        None => None,
    }
}

/// The view of an optional text.
pub open spec fn value_view(value: Option<&str>) -> Option<Seq<char>> {
    match value {
        Some(text) => Some(text@),
        None => None,
    }
}

/// The mode that a value of the variable asks for.
pub fn mode(value: Option<&str>) -> (r: Option<bool>)
    ensures
        r == mode_of(value_view(value)),
{
    match value {
        Some(text) => if same(text, "body") || same(text, "full") {
            Some(true)
        } else if same(text, "1") || same(text, "true") {
            Some(false)
        } else {
            None
        },
        None => None,
    }
}

/// Whether requests are traced.
pub fn enabled(value: Option<&str>) -> (r: bool)
    ensures
        r == (mode_of(value_view(value)) is Some),
{
    mode(value).is_some()
}

/// Whether the bodies of requests are traced too.
pub fn include_body(value: Option<&str>) -> (r: bool)
    ensures
        r == (mode_of(value_view(value)) == Some(true)),
{
    match mode(value) {
        Some(body) => body,
        None => false,
    }
}

/// A line of a trace: an object with what is traced, the time in milliseconds, and what kind
/// of thing it is, on a line of its own.
pub open spec fn line_of(
    kind: Seq<char>,
    members: Map<Seq<char>, JsonModel>,
    ts_ms: nat,
) -> Seq<char> {
    json_text(
        JsonModel::Object(
            members.insert("ts_ms"@, JsonModel::Number(decimal_of(ts_ms))).insert(
                "kind"@,
                JsonModel::Text(kind),
            ),
        ),
    ) + "\n"@
}

/// A line of a trace.
pub fn trace_line(kind: &str, fields: Vec<(String, serde_json::Value)>, ts_ms: u64) -> (r: String)
    ensures
        r@ == line_of(kind@, json_members(fields@), ts_ms as nat),
{
    let mut members = fields;
    add_member(&mut members, "ts_ms", json_number(ts_ms));
    add_member(&mut members, "kind", json_string(owned(kind)));
    json_to_text(&json_object(members)).concat("\n")
}

} // verus!
