//! The library's error type.
use vstd::prelude::*;

verus! {

/// Why a request was refused. Each variant carries the message shown to the caller.
#[derive(Debug)]
pub enum ApiError {
    /// The input failed validation (content type, size, contents).
    ValidationError(String),
    /// The request is malformed (flag key, rollout, variants, segments, event name).
    BadRequest(String),
    /// The request conflicts with the current state (a season already closed).
    Conflict(String),
}

} // verus!
