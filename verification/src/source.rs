//! Positions, spans, errors and source events of the oldest front end.

use vstd::prelude::*;

verus! {

/// A position in source text: byte offset plus 1-based line and column.
#[derive(Debug, PartialEq, Eq, Clone, Copy, Structural)]
pub struct Position {
    pub offset: usize,
    pub line: usize,
    pub column: usize,
}

/// A span between two positions; the end column is inclusive.
#[derive(Debug, PartialEq, Eq, Clone, Copy, Structural)]
pub struct Span {
    pub start: Position,
    pub end: Position,
}

/// A kind of syntax error in the oldest front end.
#[derive(Debug, PartialEq, Eq, Clone, Copy, Structural)]
pub enum ErrorKind {
    UnterminatedString,
    InvalidEscapeSequence,
    InvalidInteger,
    InvalidFloat,
    UnbalancedDelimiters,
    InvalidCharacter,
    InvalidToken,
    TuplePositionalAfterNamed,
}

/// A syntax error with both type and location.
#[derive(Debug, PartialEq, Eq, Clone, Copy, Structural)]
pub struct Error {
    pub kind: ErrorKind,
    pub span: Span,
}

/// An event that delivers new source text to the session: a changed file
/// (its path relative to the project root), a line typed at the prompt, or
/// a request to stop.
#[derive(Debug)]
pub enum SourceEvent {
    File(String),
    Repl(String),
    Exit,
}

} // verus!
