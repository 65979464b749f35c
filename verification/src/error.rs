use vstd::prelude::*;
use crate::value::{Span, Value};

verus! {

/// The closed taxonomy of user-facing failures. Every kind except the
/// engine-internal one carries a span pointing into the input line.
#[derive(Clone, Copy, PartialEq, Eq, Structural, Debug)]
pub enum ErrorKind {
    Parse,
    CommandNotFound,
    MissingArgument,
    TypeMismatch,
    InvalidEncoding,
    CouldNotOpen,
}

/// A recoverable, user-facing failure tied to a location in the input line.
#[derive(Debug, PartialEq, Eq)]
pub struct ShellError {
    pub kind: ErrorKind,
    pub message: String,
    pub span: Span,
}

impl ShellError {
    pub fn labeled(kind: ErrorKind, message: String, span: Span) -> (e: ShellError)
        ensures
            e.kind == kind,
            e.message@ == message@,
            e.span == span,
    {
        ShellError { kind, message, span }
    }
}

/// The tri-state result of evaluating one line: a successful pipeline value,
/// a user-facing shell error, or an unrecoverable engine-construction
/// failure. This is the only thing the response encoder ever sees.
#[derive(Debug, PartialEq, Eq)]
pub enum Outcome {
    Success(Value),
    Error(ShellError),
    InternalError(String),
}

} // verus!
