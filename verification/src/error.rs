//! Syntax errors shared by the lexer and the parser.

use vstd::prelude::*;
use crate::span::Span;

verus! {

/// A type of syntax error.
#[derive(Debug, PartialEq, Eq, Clone, Copy, Structural)]
pub enum ErrorKind {
    Delimiters,
    InvalidChar,
    InvalidToken,
    IntInvalid,
    FloatInvalid,
    StringUnterminated,
    StringEscSeqInvalid,
    NoUnboundExprAtModuleLevel,
}

/// A syntax error with both type and location.
#[derive(Debug, PartialEq, Clone)]
pub struct Error {
    /// The syntax error kind.
    pub kind: ErrorKind,
    /// Additional details about the syntax error.
    pub detail: Option<String>,
    /// The syntax error's location in the source code.
    pub span: Span,
}

impl Error {
    /// An error of `kind` at `span`, with no further detail.
    pub fn at(kind: ErrorKind, span: Span) -> (r: Error)
        ensures
            r == spec_error(kind, span),
    {
        Error { kind, detail: None, span }
    }
}

/// The error value that the lexer and parser report for `kind` at `span`.
pub open spec fn spec_error(kind: ErrorKind, span: Span) -> Error {
    Error { kind, detail: None, span }
}

} // verus!
