//! Front end and tree-walking evaluator for a small, dynamically-valued
//! expression language organised around modules: a lexer with automatic
//! comma insertion, a Pratt parser for expressions, patterns, statements
//! and modules, and an evaluator with lexically scoped closures and a
//! dynamically scoped context chain.
//!
//! Two earlier generations of the lexer are kept alongside the current
//! one: `tokens` (the oldest, with tags and `import`) and `lex` (an
//! intermediate one). The current generation lives in `lexer`, `parser`,
//! `ast`, `value` and `eval`.

pub mod ast;
pub mod check;
pub mod config;
pub mod error;
pub mod eval;
pub mod laws;
pub mod lex;
pub mod lexer;
pub mod parser;
pub mod source;
pub mod span;
pub mod sym;
pub mod tokens;
pub mod tuple;
pub mod ty;
pub mod value;
