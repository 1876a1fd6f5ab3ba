//! Errors of the filters and of the program around them.
use vstd::prelude::*;

verus! {

/// The two ways a filter call fails.
#[derive(Debug, Clone, Copy, PartialEq, Eq, Structural)]
pub enum ErrorKind {
    /// The input has the wrong shape (a number where a string is expected).
    TypeError,
    /// The input has the right shape but breaks the format's grammar.
    DecodeError,
}

/// A failed filter call: its kind and a message for the user.
#[derive(Debug, Clone, PartialEq)]
pub struct FilterError {
    pub kind: ErrorKind,
    pub message: String,
}

impl FilterError {
    pub fn type_error(message: &str) -> (r: FilterError)
        ensures
            r.kind == ErrorKind::TypeError,
            r.message@ == message@,
    {
        FilterError { kind: ErrorKind::TypeError, message: message.to_string() }
    }

    pub fn decode_error(message: &str) -> (r: FilterError)
        ensures
            r.kind == ErrorKind::DecodeError,
            r.message@ == message@,
    {
        FilterError { kind: ErrorKind::DecodeError, message: message.to_string() }
    }
}

/// Errors of the renderer as a whole.
#[derive(Debug, Clone, PartialEq)]
pub enum TeraclioError {
    IoError(String),
    JsonError(String),
    TemplateError(String),
    InvalidInput(String),
}

} // verus!
