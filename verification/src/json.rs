//! The JSON values that feature flags store for their variants and target
//! segments, with the accessors the flag logic reads them through.
use vstd::prelude::*;

verus! {

/// A JSON number, as `serde_json` holds it.
#[derive(Debug, Clone, Copy, PartialEq, Eq, Structural)]
pub enum JsonNumber {
    /// A non-negative integer.
    PosInt(u64),
    /// A negative integer.
    NegInt(i64),
    /// A finite floating-point number, held as its IEEE-754 bit pattern.
    Float(u64),
}

/// A JSON value. An object lists its members in the order `serde_json`'s
/// map yields them (ascending keys).
#[derive(Debug)]
pub enum JsonValue {
    Null,
    Bool(bool),
    Number(JsonNumber),
    String(String),
    Array(Vec<JsonValue>),
    Object(Vec<(String, JsonValue)>),
}

/// The value as an `i64`, when it is an integer that fits (`Value::as_i64`).
pub open spec fn as_i64_spec(v: JsonValue) -> Option<i64> {
    match v {
        JsonValue::Number(JsonNumber::PosInt(n)) => if n <= i64::MAX {
            Some(n as i64)
        } else {
            None
        },
        JsonValue::Number(JsonNumber::NegInt(n)) => Some(n),
        _ => None,
    }
}

/// The text of a JSON string (`Value::as_str`).
pub open spec fn as_str_spec(v: JsonValue) -> Option<Seq<char>> {
    match v {
        JsonValue::String(s) => Some(s@),
        _ => None,
    }
}

impl JsonValue {
    /// `Value::as_i64`.
    pub fn as_i64(&self) -> (r: Option<i64>)
        ensures
            r == as_i64_spec(*self),
    {
        match self {
            JsonValue::Number(JsonNumber::PosInt(n)) => {
                if *n <= 9223372036854775807u64 {
                    Some(*n as i64)
                } else {
                    None
                }
            },
            JsonValue::Number(JsonNumber::NegInt(n)) => Some(*n),
            _ => None,
        }
    }

    /// `Value::as_str`.
    pub fn as_str(&self) -> (r: Option<&String>)
        ensures
            match r {
                Some(s) => as_str_spec(*self) == Some(s@),
                None => as_str_spec(*self) is None,
            },
    {
        match self {
            JsonValue::String(s) => Some(s),
            _ => None,
        }
    }
}

/// JSON for an `i32` (what `serde_json::to_value` gives).
pub open spec fn int_json(n: i32) -> JsonValue {
    if n < 0 {
        JsonValue::Number(JsonNumber::NegInt(n as i64))
    } else {
        JsonValue::Number(JsonNumber::PosInt(n as u64))
    }
}

/// JSON for an `i32`.
pub fn i32_to_json(n: i32) -> (r: JsonValue)
    ensures
        r == int_json(n),
{
    if n < 0 {
        JsonValue::Number(JsonNumber::NegInt(n as i64))
    } else {
        JsonValue::Number(JsonNumber::PosInt(n as u64))
    }
}

} // verus!
