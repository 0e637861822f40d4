//! JSON values as command payloads carry them.
use vstd::prelude::*;

verus! {

/// A JSON value. Numbers keep their textual form; objects keep their
/// entries in order, each key once.
#[derive(Debug)]
pub enum JsonValue {
    Null,
    Bool(bool),
    Number(String),
    Str(String),
    Array(Vec<JsonValue>),
    Object(Vec<(String, JsonValue)>),
}

} // verus!
