//! An earlier generation of the lexer: arrow and equals tokens, `import`
//! and `export` keywords, no context identifiers, and no boolean keywords.
//! It scans byte spans and reports its errors over them.
//!
//! As in `lexer`, every scanning step has a spec mirror and `tokenize`
//! returns exactly `spec_tokenize` of the source.

use vstd::prelude::*;
use crate::source::ErrorKind;
use crate::span::Span;

verus! {

/// A kind of token in this generation of the language.
#[derive(Debug, PartialEq, Eq, Clone, Copy, Structural)]
pub enum TokenKind {
    // Punctuation
    LParen,
    RParen,
    LBracket,
    RBracket,
    LBrace,
    RBrace,
    Comma,
    Colon,
    Equals,
    Plus,
    Minus,
    Times,
    Divide,
    Arrow,
    // Keywords
    Import,
    Export,
    Use,
    Let,
    If,
    Else,
    For,
    // Identifiers
    Identifier,
    // Literals
    Symbol,
    String,
    Int,
    Float,
}

/// A token: its kind and its byte span.
#[derive(Debug, PartialEq, Eq, Clone, Copy, Structural)]
pub struct Token {
    pub kind: TokenKind,
    pub span: Span,
}

/// A syntax error of this generation, over a byte span.
#[derive(Debug, PartialEq, Eq, Clone, Copy, Structural)]
pub struct Error {
    pub kind: ErrorKind,
    pub span: Span,
}

/// The lexer's streaming state.
pub struct Tokens<'a> {
    /// The source bytes.
    pub source: &'a [u8],
    /// The span of the lexeme being scanned.
    pub span: Span,
    /// The kind of the last emitted token.
    pub last_token_kind: Option<TokenKind>,
    /// Whether a synthetic comma is pending from a newline.
    pub auto_insert_comma: bool,
}

/// The mirrored lexer state.
pub struct LexSt {
    pub start: int,
    pub end: int,
    pub last: Option<TokenKind>,
    pub pending: bool,
}

/// The byte at offset `i`, with NUL standing for end of input.
pub open spec fn at_byte(src: Seq<u8>, i: int) -> u8 {
    if 0 <= i < src.len() {
        src[i]
    } else {
        0
    }
}

/// Whether `last` is a statement-closing token.
pub open spec fn spec_is_closer(last: Option<TokenKind>) -> bool {
    match last {
        Some(k) => k == TokenKind::RParen || k == TokenKind::RBracket || k == TokenKind::RBrace
            || k == TokenKind::Identifier || k == TokenKind::Symbol || k == TokenKind::Int || k
            == TokenKind::Float || k == TokenKind::String,
        None => false,
    }
}

/// One cursor step; a newline arms the pending comma after a closer.
pub open spec fn spec_bump(src: Seq<u8>, st: LexSt) -> LexSt {
    LexSt {
        start: st.start,
        end: st.end + 1,
        last: st.last,
        pending: if at_byte(src, st.end) == 0x0A {
            spec_is_closer(st.last)
        } else {
            st.pending
        },
    }
}

/// A maximal run of bytes satisfying `pred`; end of input stops it.
pub open spec fn spec_run(src: Seq<u8>, st: LexSt, pred: spec_fn(u8) -> bool) -> LexSt
    decreases src.len() - st.end,
{
    let c = at_byte(src, st.end);
    if c != 0 && pred(c) {
        spec_run(src, spec_bump(src, st), pred)
    } else {
        st
    }
}

/// Runs only move forward and stay within the input.
pub proof fn lemma_run_bounds(src: Seq<u8>, st: LexSt, pred: spec_fn(u8) -> bool)
    ensures
        ({
            let r = spec_run(src, st, pred);
            st.end <= r.end && (st.end <= src.len() ==> r.end <= src.len()) && r.start == st.start
                && r.last == st.last && (r.end == st.end ==> r == st)
        }),
    decreases src.len() - st.end,
{
    let c = at_byte(src, st.end);
    if c != 0 && pred(c) {
        lemma_run_bounds(src, spec_bump(src, st), pred);
    }
}

/// ASCII whitespace.
pub open spec fn spec_is_space(c: u8) -> bool {
    c == 0x20 || c == 0x09 || c == 0x0A || c == 0x0C || c == 0x0D
}

/// First byte of an identifier.
pub open spec fn spec_is_ident_start(c: u8) -> bool {
    (0x41 <= c <= 0x5A) || (0x61 <= c <= 0x7A) || c == 0x5F
}

/// Later byte of an identifier.
pub open spec fn spec_is_ident_rest(c: u8) -> bool {
    (0x41 <= c <= 0x5A) || (0x61 <= c <= 0x7A) || (0x30 <= c <= 0x39) || c == 0x5F
}

/// A decimal digit.
pub open spec fn spec_is_digit(c: u8) -> bool {
    0x30 <= c <= 0x39
}

/// A binary digit.
pub open spec fn spec_is_bin_digit(c: u8) -> bool {
    c == 0x30 || c == 0x31
}

/// An octal digit.
pub open spec fn spec_is_oct_digit(c: u8) -> bool {
    0x30 <= c <= 0x37
}

/// A hexadecimal digit.
pub open spec fn spec_is_hex_digit(c: u8) -> bool {
    (0x30 <= c <= 0x39) || (0x41 <= c <= 0x46) || (0x61 <= c <= 0x66)
}

/// Whitespace and comments before a token; a comment runs to the next
/// newline or the end of input.
pub open spec fn spec_whitespace(src: Seq<u8>, st: LexSt) -> LexSt
    decreases src.len() - st.end,
    via spec_whitespace_dec
{
    let st1 = spec_run(src, st, |c: u8| spec_is_space(c));
    if at_byte(src, st1.end) == 0x23 {
        spec_whitespace(src, spec_run(src, spec_bump(src, st1), |c: u8| c != 0x0A))
    } else {
        st1
    }
}

#[via_fn]
proof fn spec_whitespace_dec(src: Seq<u8>, st: LexSt) {
    lemma_run_bounds(src, st, |c: u8| spec_is_space(c));
    let st1 = spec_run(src, st, |c: u8| spec_is_space(c));
    if at_byte(src, st1.end) == 0x23 {
        lemma_run_bounds(src, spec_bump(src, st1), |c: u8| c != 0x0A);
    }
}

/// `spec_whitespace` only moves forward and stays within the input.
pub proof fn lemma_whitespace_bounds(src: Seq<u8>, st: LexSt)
    ensures
        ({
            let r = spec_whitespace(src, st);
            st.end <= r.end && (st.end <= src.len() ==> r.end <= src.len()) && r.last == st.last
                && (r.end == st.end ==> r == st)
        }),
    decreases src.len() - st.end,
{
    lemma_run_bounds(src, st, |c: u8| spec_is_space(c));
    let st1 = spec_run(src, st, |c: u8| spec_is_space(c));
    if at_byte(src, st1.end) == 0x23 {
        let st2 = spec_run(src, spec_bump(src, st1), |c: u8| c != 0x0A);
        lemma_run_bounds(src, spec_bump(src, st1), |c: u8| c != 0x0A);
        lemma_whitespace_bounds(src, st2);
    }
}

/// The span the state currently covers.
pub open spec fn spec_span_of(st: LexSt) -> Span {
    Span { start: st.start as usize, end: st.end as usize }
}

/// Token emission.
pub open spec fn spec_ok(st: LexSt, kind: TokenKind) -> (Option<Result<Token, Error>>, LexSt) {
    (
        Some(Ok(Token { kind, span: spec_span_of(st) })),
        LexSt { start: st.start, end: st.end, last: Some(kind), pending: st.pending },
    )
}

/// Error emission.
pub open spec fn spec_err(st: LexSt, kind: ErrorKind) -> (Option<Result<Token, Error>>, LexSt) {
    (Some(Err(Error { kind, span: spec_span_of(st) })), st)
}

/// Nothing scanned.
pub open spec fn spec_none(st: LexSt) -> (Option<Result<Token, Error>>, LexSt) {
    (None, st)
}

/// Punctuation: single bytes plus the two-byte arrow.
pub open spec fn spec_punctuation(src: Seq<u8>, st: LexSt) -> (Option<Result<Token, Error>>, LexSt) {
    let c = at_byte(src, st.end);
    if c == 0x28 {
        spec_ok(spec_bump(src, st), TokenKind::LParen)
    } else if c == 0x29 {
        spec_ok(spec_bump(src, st), TokenKind::RParen)
    } else if c == 0x5B {
        spec_ok(spec_bump(src, st), TokenKind::LBracket)
    } else if c == 0x5D {
        spec_ok(spec_bump(src, st), TokenKind::RBracket)
    } else if c == 0x7B {
        spec_ok(spec_bump(src, st), TokenKind::LBrace)
    } else if c == 0x7D {
        spec_ok(spec_bump(src, st), TokenKind::RBrace)
    } else if c == 0x2C {
        spec_ok(spec_bump(src, st), TokenKind::Comma)
    } else if c == 0x3A {
        spec_ok(spec_bump(src, st), TokenKind::Colon)
    } else if c == 0x3D {
        spec_ok(spec_bump(src, st), TokenKind::Equals)
    } else if c == 0x2B {
        spec_ok(spec_bump(src, st), TokenKind::Plus)
    } else if c == 0x2D {
        let st1 = spec_bump(src, st);
        if at_byte(src, st1.end) == 0x3E {
            spec_ok(spec_bump(src, st1), TokenKind::Arrow)
        } else {
            spec_ok(st1, TokenKind::Minus)
        }
    } else if c == 0x2A {
        spec_ok(spec_bump(src, st), TokenKind::Times)
    } else if c == 0x2F {
        spec_ok(spec_bump(src, st), TokenKind::Divide)
    } else {
        spec_none(st)
    }
}

/// The keyword kind of an identifier lexeme, or `Identifier`.
pub open spec fn spec_ident_kind(lex: Seq<u8>) -> TokenKind {
    if lex == seq![0x69u8, 0x6Du8, 0x70u8, 0x6Fu8, 0x72u8, 0x74u8] {
        TokenKind::Import
    } else if lex == seq![0x65u8, 0x78u8, 0x70u8, 0x6Fu8, 0x72u8, 0x74u8] {
        TokenKind::Export
    } else if lex == seq![0x75u8, 0x73u8, 0x65u8] {
        TokenKind::Use
    } else if lex == seq![0x6Cu8, 0x65u8, 0x74u8] {
        TokenKind::Let
    } else if lex == seq![0x69u8, 0x66u8] {
        TokenKind::If
    } else if lex == seq![0x65u8, 0x6Cu8, 0x73u8, 0x65u8] {
        TokenKind::Else
    } else if lex == seq![0x66u8, 0x6Fu8, 0x72u8] {
        TokenKind::For
    } else {
        TokenKind::Identifier
    }
}

/// Identifiers and the reserved words.
pub open spec fn spec_identifier(src: Seq<u8>, st: LexSt) -> (Option<Result<Token, Error>>, LexSt) {
    if spec_is_ident_start(at_byte(src, st.end)) {
        let st1 = spec_run(src, spec_bump(src, st), |c: u8| spec_is_ident_rest(c));
        spec_ok(st1, spec_ident_kind(src.subrange(st1.start, st1.end)))
    } else {
        spec_none(st)
    }
}

/// The body of a quoted literal after its opening delimiter.
pub open spec fn spec_scan_quoted(src: Seq<u8>, st: LexSt, delim: u8, kind: TokenKind) -> (
    Option<Result<Token, Error>>,
    LexSt,
)
    decreases src.len() - st.end,
{
    let c = at_byte(src, st.end);
    if c == 0 {
        spec_err(st, ErrorKind::UnterminatedString)
    } else if c == 0x5C {
        let st1 = spec_bump(src, st);
        if at_byte(src, st1.end) != 0 {
            spec_scan_quoted(src, spec_bump(src, st1), delim, kind)
        } else {
            spec_err(st1, ErrorKind::UnterminatedString)
        }
    } else if c == delim {
        spec_ok(spec_bump(src, st), kind)
    } else {
        spec_scan_quoted(src, spec_bump(src, st), delim, kind)
    }
}

/// Quoted scans always produce a token or an error, move forward, and stay
/// within the input.
pub proof fn lemma_scan_quoted_bounds(src: Seq<u8>, st: LexSt, delim: u8, kind: TokenKind)
    ensures
        ({
            let (r, st2) = spec_scan_quoted(src, st, delim, kind);
            st.end <= st2.end && (st.end <= src.len() ==> st2.end <= src.len()) && (r matches Some(
                Ok(_),
            ) ==> st.end < st2.end) && r is Some
        }),
    decreases src.len() - st.end,
{
    let c = at_byte(src, st.end);
    if c == 0 {
    } else if c == 0x5C {
        let st1 = spec_bump(src, st);
        if at_byte(src, st1.end) != 0 {
            lemma_scan_quoted_bounds(src, spec_bump(src, st1), delim, kind);
        }
    } else if c == delim {
    } else {
        lemma_scan_quoted_bounds(src, spec_bump(src, st), delim, kind);
    }
}

/// Symbol literals (single quotes) and string literals (double quotes).
pub open spec fn spec_symbol_or_string(src: Seq<u8>, st: LexSt) -> (
    Option<Result<Token, Error>>,
    LexSt,
) {
    let c = at_byte(src, st.end);
    if c == 0x27 {
        spec_scan_quoted(src, spec_bump(src, st), 0x27, TokenKind::Symbol)
    } else if c == 0x22 {
        spec_scan_quoted(src, spec_bump(src, st), 0x22, TokenKind::String)
    } else {
        spec_none(st)
    }
}

/// Numeric literals. The prefixed forms take `0b` for binary, a second
/// `0` for octal and `0x` for hexadecimal; otherwise decimal digits with
/// an optional fraction and exponent forming a float.
pub open spec fn spec_int_or_float(src: Seq<u8>, st: LexSt) -> (Option<Result<Token, Error>>, LexSt) {
    let c = at_byte(src, st.end);
    let c2 = at_byte(src, st.end + 1);
    if c == 0x30 && c2 == 0x62 {
        spec_ok(
            spec_run(src, spec_bump(src, spec_bump(src, st)), |b: u8| spec_is_bin_digit(b)),
            TokenKind::Int,
        )
    } else if c == 0x30 && c2 == 0x30 {
        spec_ok(
            spec_run(src, spec_bump(src, spec_bump(src, st)), |b: u8| spec_is_oct_digit(b)),
            TokenKind::Int,
        )
    } else if c == 0x30 && c2 == 0x78 {
        spec_ok(
            spec_run(src, spec_bump(src, spec_bump(src, st)), |b: u8| spec_is_hex_digit(b)),
            TokenKind::Int,
        )
    } else if spec_is_digit(c) {
        let st1 = spec_run(src, spec_bump(src, st), |b: u8| spec_is_digit(b));
        if at_byte(src, st1.end) == 0x2E {
            let st2 = spec_run(src, spec_bump(src, st1), |b: u8| spec_is_digit(b));
            if at_byte(src, st2.end) == 0x65 {
                let st3 = spec_bump(src, st2);
                let st4 = if at_byte(src, st3.end) == 0x2D {
                    spec_bump(src, st3)
                } else {
                    st3
                };
                spec_ok(spec_run(src, st4, |b: u8| spec_is_digit(b)), TokenKind::Float)
            } else {
                spec_ok(st2, TokenKind::Float)
            }
        } else if at_byte(src, st1.end) == 0x65 {
            let st2 = spec_bump(src, st1);
            let st3 = if at_byte(src, st2.end) == 0x2D {
                spec_bump(src, st2)
            } else {
                st2
            };
            spec_ok(spec_run(src, st3, |b: u8| spec_is_digit(b)), TokenKind::Float)
        } else {
            spec_ok(st1, TokenKind::Int)
        }
    } else {
        spec_none(st)
    }
}

/// A stray byte: an invalid-character error that consumes one byte.
pub open spec fn spec_invalid(src: Seq<u8>, st: LexSt) -> (Option<Result<Token, Error>>, LexSt) {
    if at_byte(src, st.end) != 0 {
        let st1 = spec_bump(src, st);
        spec_err(st1, ErrorKind::InvalidCharacter)
    } else {
        spec_none(st)
    }
}

/// One step of the token stream.
pub open spec fn spec_next(src: Seq<u8>, st: LexSt) -> (Option<Result<Token, Error>>, LexSt) {
    let stw = spec_whitespace(src, st);
    let st0 = LexSt { start: stw.end, end: stw.end, last: stw.last, pending: stw.pending };
    if st0.pending {
        let (r, st1) = spec_ok(st0, TokenKind::Comma);
        (r, LexSt { start: st1.start, end: st1.end, last: st1.last, pending: false })
    } else {
        let p = spec_punctuation(src, st0);
        if p.0 is Some {
            p
        } else {
            let i = spec_identifier(src, st0);
            if i.0 is Some {
                i
            } else {
                let s = spec_symbol_or_string(src, st0);
                if s.0 is Some {
                    s
                } else {
                    let n = spec_int_or_float(src, st0);
                    if n.0 is Some {
                        n
                    } else {
                        spec_invalid(src, st0)
                    }
                }
            }
        }
    }
}

/// Measure for lexing progress.
pub open spec fn spec_lex_measure(src: Seq<u8>, st: LexSt) -> int {
    2 * (if st.end <= src.len() {
        src.len() - st.end
    } else {
        0
    }) + (if st.pending {
        1int
    } else {
        0int
    })
}

/// The whole token stream from a given state.
pub open spec fn spec_tokens_from(src: Seq<u8>, st: LexSt, acc: Seq<Token>) -> Result<
    Seq<Token>,
    Error,
>
    decreases spec_lex_measure(src, st),
    via spec_tokens_from_dec
{
    match spec_next(src, st) {
        (None, _) => Ok(acc),
        (Some(Ok(t)), st2) => spec_tokens_from(src, st2, acc.push(t)),
        (Some(Err(e)), _) => Err(e),
    }
}

#[via_fn]
proof fn spec_tokens_from_dec(src: Seq<u8>, st: LexSt, acc: Seq<Token>) {
    lemma_next_progress(src, st);
}

/// The token stream of a source string.
pub open spec fn spec_tokenize(src: Seq<u8>) -> Result<Seq<Token>, Error> {
    spec_tokens_from(src, LexSt { start: 0, end: 0, last: None, pending: false }, Seq::empty())
}

/// Each successful `spec_next` step strictly shrinks the lexing measure.
#[verifier::rlimit(60)]
pub proof fn lemma_next_progress(src: Seq<u8>, st: LexSt)
    ensures
        ({
            let (r, st2) = spec_next(src, st);
            r matches Some(Ok(_)) ==> spec_lex_measure(src, st2) < spec_lex_measure(src, st) && (
            st.end <= src.len() ==> st2.end <= src.len())
        }),
{
    lemma_whitespace_bounds(src, st);
    let stw = spec_whitespace(src, st);
    let st0 = LexSt { start: stw.end, end: stw.end, last: stw.last, pending: stw.pending };
    if st.end > src.len() {
        assert(spec_run(src, st, |c: u8| spec_is_space(c)) == st);
        if !st0.pending {
            assert(spec_punctuation(src, st0).0 is None);
            assert(spec_identifier(src, st0).0 is None);
            assert(spec_symbol_or_string(src, st0).0 is None);
            assert(spec_int_or_float(src, st0).0 is None);
            assert(spec_invalid(src, st0).0 is None);
        }
    } else {
        if !st0.pending {
            lemma_run_bounds(src, spec_bump(src, st0), |c: u8| spec_is_ident_rest(c));
            lemma_run_bounds(src, spec_bump(src, spec_bump(src, st0)), |b: u8| spec_is_bin_digit(b));
            lemma_run_bounds(src, spec_bump(src, spec_bump(src, st0)), |b: u8| spec_is_oct_digit(b));
            lemma_run_bounds(src, spec_bump(src, spec_bump(src, st0)), |b: u8| spec_is_hex_digit(b));
            lemma_scan_quoted_bounds(src, spec_bump(src, st0), 0x27, TokenKind::Symbol);
            lemma_scan_quoted_bounds(src, spec_bump(src, st0), 0x22, TokenKind::String);
            let st1 = spec_run(src, spec_bump(src, st0), |b: u8| spec_is_digit(b));
            lemma_run_bounds(src, spec_bump(src, st0), |b: u8| spec_is_digit(b));
            if at_byte(src, st1.end) == 0x2E {
                let st2 = spec_run(src, spec_bump(src, st1), |b: u8| spec_is_digit(b));
                lemma_run_bounds(src, spec_bump(src, st1), |b: u8| spec_is_digit(b));
                if at_byte(src, st2.end) == 0x65 {
                    let st3 = spec_bump(src, st2);
                    let st4 = if at_byte(src, st3.end) == 0x2D {
                        spec_bump(src, st3)
                    } else {
                        st3
                    };
                    lemma_run_bounds(src, st4, |b: u8| spec_is_digit(b));
                }
            } else if at_byte(src, st1.end) == 0x65 {
                let st2 = spec_bump(src, st1);
                let st3 = if at_byte(src, st2.end) == 0x2D {
                    spec_bump(src, st2)
                } else {
                    st2
                };
                lemma_run_bounds(src, st3, |b: u8| spec_is_digit(b));
            }
        }
    }
}

impl<'a> Tokens<'a> {
    /// The mirrored lexer state.
    pub open spec fn st(&self) -> LexSt {
        LexSt {
            start: self.span.start as int,
            end: self.span.end as int,
            last: self.last_token_kind,
            pending: self.auto_insert_comma,
        }
    }

    /// A fresh lexer over `source`.
    pub fn new(source: &[u8]) -> (r: Tokens<'_>)
        ensures
            r.source@ == source@,
            r.st() == (LexSt { start: 0, end: 0, last: None::<TokenKind>, pending: false }),
    {
        Tokens {
            source,
            span: Span { start: 0, end: 0 },
            last_token_kind: None,
            auto_insert_comma: false,
        }
    }

    /// The byte at the cursor, with NUL standing for end of input.
    fn first(&self) -> (r: u8)
        ensures
            r == at_byte(self.source@, self.st().end),
    {
        if self.span.end < self.source.len() {
            self.source[self.span.end]
        } else {
            0
        }
    }

    /// The byte just after the cursor.
    fn second(&self) -> (r: u8)
        ensures
            r == at_byte(self.source@, self.st().end + 1),
    {
        if self.span.end < self.source.len() && self.span.end + 1 < self.source.len() {
            self.source[self.span.end + 1]
        } else {
            0
        }
    }

    /// Advances the cursor one byte.
    fn bump(&mut self)
        requires
            old(self).st().end < old(self).source@.len(),
        ensures
            final(self).source@ == old(self).source@,
            final(self).st() == spec_bump(old(self).source@, old(self).st()),
    {
        let n = self.source.len();
        if self.first() == 0x0A {
            self.auto_insert_comma = match self.last_token_kind {
                Some(TokenKind::RParen) => true,
                Some(TokenKind::RBracket) => true,
                Some(TokenKind::RBrace) => true,
                Some(TokenKind::Identifier) => true,
                Some(TokenKind::Symbol) => true,
                Some(TokenKind::Int) => true,
                Some(TokenKind::Float) => true,
                Some(TokenKind::String) => true,
                _ => false,
            };
        }
        self.span.end = self.span.end + 1;
    }

    /// Advances over `c` if it is the byte at the cursor.
    fn bump_if_eq(&mut self, c: u8) -> (r: bool)
        requires
            c != 0,
        ensures
            final(self).source@ == old(self).source@,
            r == (at_byte(old(self).source@, old(self).st().end) == c),
            r ==> final(self).st() == spec_bump(old(self).source@, old(self).st()),
            !r ==> *final(self) == *old(self),
    {
        if self.first() == c {
            self.bump();
            true
        } else {
            false
        }
    }

    /// Emits a token covering the current lexeme.
    fn emit(&mut self, kind: TokenKind) -> (r: Option<Result<Token, Error>>)
        ensures
            final(self).source@ == old(self).source@,
            (r, final(self).st()) == spec_ok(old(self).st(), kind),
    {
        self.last_token_kind = Some(kind);
        Some(Ok(Token { kind, span: self.span }))
    }

    /// Emits an error covering the current lexeme.
    fn emit_err(&self, kind: ErrorKind) -> (r: Option<Result<Token, Error>>)
        ensures
            (r, self.st()) == spec_err(self.st(), kind),
    {
        Some(Err(Error { kind, span: self.span }))
    }

    /// Consumes a maximal run of whitespace bytes.
    #[verifier::loop_isolation(false)]
    fn run_spaces(&mut self)
        ensures
            final(self).source@ == old(self).source@,
            final(self).st() == spec_run(old(self).source@, old(self).st(), |c: u8| spec_is_space(c)),
    {
        loop
            invariant
                self.source@ == old(self).source@,
                spec_run(self.source@, self.st(), |c: u8| spec_is_space(c)) == spec_run(
                    old(self).source@,
                    old(self).st(),
                    |c: u8| spec_is_space(c),
                ),
            decreases self.source@.len() - self.st().end,
        {
            let c = self.first();
            if c != 0 && (c == 0x20 || c == 0x09 || c == 0x0A || c == 0x0C || c == 0x0D) {
                self.bump();
            } else {
                return ;
            }
        }
    }

    /// Consumes a comment body up to a newline or the end of input.
    #[verifier::loop_isolation(false)]
    fn run_comment(&mut self)
        ensures
            final(self).source@ == old(self).source@,
            final(self).st() == spec_run(old(self).source@, old(self).st(), |c: u8| c != 0x0A),
    {
        loop
            invariant
                self.source@ == old(self).source@,
                spec_run(self.source@, self.st(), |c: u8| c != 0x0A) == spec_run(
                    old(self).source@,
                    old(self).st(),
                    |c: u8| c != 0x0A,
                ),
            decreases self.source@.len() - self.st().end,
        {
            let c = self.first();
            if c != 0 && c != 0x0A {
                self.bump();
            } else {
                return ;
            }
        }
    }

    /// Consumes a maximal run of identifier-rest bytes.
    #[verifier::loop_isolation(false)]
    fn run_ident_rest(&mut self)
        ensures
            final(self).source@ == old(self).source@,
            final(self).st() == spec_run(
                old(self).source@,
                old(self).st(),
                |c: u8| spec_is_ident_rest(c),
            ),
    {
        loop
            invariant
                self.source@ == old(self).source@,
                spec_run(self.source@, self.st(), |c: u8| spec_is_ident_rest(c)) == spec_run(
                    old(self).source@,
                    old(self).st(),
                    |c: u8| spec_is_ident_rest(c),
                ),
            decreases self.source@.len() - self.st().end,
        {
            let c = self.first();
            if c != 0 && ((0x41 <= c && c <= 0x5A) || (0x61 <= c && c <= 0x7A) || (0x30 <= c && c
                <= 0x39) || c == 0x5F) {
                self.bump();
            } else {
                return ;
            }
        }
    }

    /// Consumes a maximal run of decimal digits.
    #[verifier::loop_isolation(false)]
    fn run_digits(&mut self)
        ensures
            final(self).source@ == old(self).source@,
            final(self).st() == spec_run(old(self).source@, old(self).st(), |c: u8| spec_is_digit(c)),
    {
        loop
            invariant
                self.source@ == old(self).source@,
                spec_run(self.source@, self.st(), |c: u8| spec_is_digit(c)) == spec_run(
                    old(self).source@,
                    old(self).st(),
                    |c: u8| spec_is_digit(c),
                ),
            decreases self.source@.len() - self.st().end,
        {
            let c = self.first();
            if c != 0 && 0x30 <= c && c <= 0x39 {
                self.bump();
            } else {
                return ;
            }
        }
    }

    /// Consumes a maximal run of binary digits.
    #[verifier::loop_isolation(false)]
    fn run_bin_digits(&mut self)
        ensures
            final(self).source@ == old(self).source@,
            final(self).st() == spec_run(
                old(self).source@,
                old(self).st(),
                |c: u8| spec_is_bin_digit(c),
            ),
    {
        loop
            invariant
                self.source@ == old(self).source@,
                spec_run(self.source@, self.st(), |c: u8| spec_is_bin_digit(c)) == spec_run(
                    old(self).source@,
                    old(self).st(),
                    |c: u8| spec_is_bin_digit(c),
                ),
            decreases self.source@.len() - self.st().end,
        {
            let c = self.first();
            if c == 0x30 || c == 0x31 {
                self.bump();
            } else {
                return ;
            }
        }
    }

    /// Consumes a maximal run of octal digits.
    #[verifier::loop_isolation(false)]
    fn run_oct_digits(&mut self)
        ensures
            final(self).source@ == old(self).source@,
            final(self).st() == spec_run(
                old(self).source@,
                old(self).st(),
                |c: u8| spec_is_oct_digit(c),
            ),
    {
        loop
            invariant
                self.source@ == old(self).source@,
                spec_run(self.source@, self.st(), |c: u8| spec_is_oct_digit(c)) == spec_run(
                    old(self).source@,
                    old(self).st(),
                    |c: u8| spec_is_oct_digit(c),
                ),
            decreases self.source@.len() - self.st().end,
        {
            let c = self.first();
            if 0x30 <= c && c <= 0x37 {
                self.bump();
            } else {
                return ;
            }
        }
    }

    /// Consumes a maximal run of hexadecimal digits.
    #[verifier::loop_isolation(false)]
    fn run_hex_digits(&mut self)
        ensures
            final(self).source@ == old(self).source@,
            final(self).st() == spec_run(
                old(self).source@,
                old(self).st(),
                |c: u8| spec_is_hex_digit(c),
            ),
    {
        loop
            invariant
                self.source@ == old(self).source@,
                spec_run(self.source@, self.st(), |c: u8| spec_is_hex_digit(c)) == spec_run(
                    old(self).source@,
                    old(self).st(),
                    |c: u8| spec_is_hex_digit(c),
                ),
            decreases self.source@.len() - self.st().end,
        {
            let c = self.first();
            if (0x30 <= c && c <= 0x39) || (0x41 <= c && c <= 0x46) || (0x61 <= c && c <= 0x66) {
                self.bump();
            } else {
                return ;
            }
        }
    }

    /// Skips whitespace and comments.
    #[verifier::loop_isolation(false)]
    fn whitespace(&mut self)
        ensures
            final(self).source@ == old(self).source@,
            final(self).st() == spec_whitespace(old(self).source@, old(self).st()),
    {
        loop
            invariant
                self.source@ == old(self).source@,
                spec_whitespace(self.source@, self.st()) == spec_whitespace(
                    old(self).source@,
                    old(self).st(),
                ),
            decreases self.source@.len() - self.st().end,
        {
            proof {
                lemma_run_bounds(self.source@, self.st(), |c: u8| spec_is_space(c));
            }
            self.run_spaces();
            if self.first() == 0x23 {
                self.bump();
                proof {
                    lemma_run_bounds(self.source@, self.st(), |c: u8| c != 0x0A);
                }
                self.run_comment();
            } else {
                return ;
            }
        }
    }

    /// Scans punctuation; `->` takes precedence over `-`.
    fn punctuation(&mut self) -> (r: Option<Result<Token, Error>>)
        ensures
            final(self).source@ == old(self).source@,
            (r, final(self).st()) == spec_punctuation(old(self).source@, old(self).st()),
    {
        if self.bump_if_eq(0x28) {
            self.emit(TokenKind::LParen)
        } else if self.bump_if_eq(0x29) {
            self.emit(TokenKind::RParen)
        } else if self.bump_if_eq(0x5B) {
            self.emit(TokenKind::LBracket)
        } else if self.bump_if_eq(0x5D) {
            self.emit(TokenKind::RBracket)
        } else if self.bump_if_eq(0x7B) {
            self.emit(TokenKind::LBrace)
        } else if self.bump_if_eq(0x7D) {
            self.emit(TokenKind::RBrace)
        } else if self.bump_if_eq(0x2C) {
            self.emit(TokenKind::Comma)
        } else if self.bump_if_eq(0x3A) {
            self.emit(TokenKind::Colon)
        } else if self.bump_if_eq(0x3D) {
            self.emit(TokenKind::Equals)
        } else if self.bump_if_eq(0x2B) {
            self.emit(TokenKind::Plus)
        } else if self.bump_if_eq(0x2D) {
            if self.bump_if_eq(0x3E) {
                self.emit(TokenKind::Arrow)
            } else {
                self.emit(TokenKind::Minus)
            }
        } else if self.bump_if_eq(0x2A) {
            self.emit(TokenKind::Times)
        } else if self.bump_if_eq(0x2F) {
            self.emit(TokenKind::Divide)
        } else {
            None
        }
    }

    /// The keyword kind of the current lexeme, or `Identifier`.
    fn keyword_or_identifier(&self) -> (r: TokenKind)
        requires
            self.st().start <= self.st().end <= self.source@.len(),
        ensures
            r == spec_ident_kind(self.source@.subrange(self.st().start, self.st().end)),
    {
        let lex = crate::span::span_slice(self.source, self.span);
        let r = if crate::sym::bytes_eq(lex.as_slice(), &[0x69, 0x6D, 0x70, 0x6F, 0x72, 0x74]) {
            TokenKind::Import
        } else if crate::sym::bytes_eq(lex.as_slice(), &[0x65, 0x78, 0x70, 0x6F, 0x72, 0x74]) {
            TokenKind::Export
        } else if crate::sym::bytes_eq(lex.as_slice(), &[0x75, 0x73, 0x65]) {
            TokenKind::Use
        } else if crate::sym::bytes_eq(lex.as_slice(), &[0x6C, 0x65, 0x74]) {
            TokenKind::Let
        } else if crate::sym::bytes_eq(lex.as_slice(), &[0x69, 0x66]) {
            TokenKind::If
        } else if crate::sym::bytes_eq(lex.as_slice(), &[0x65, 0x6C, 0x73, 0x65]) {
            TokenKind::Else
        } else if crate::sym::bytes_eq(lex.as_slice(), &[0x66, 0x6F, 0x72]) {
            TokenKind::For
        } else {
            TokenKind::Identifier
        };
        proof {
            assert(seq![0x69u8, 0x6Du8, 0x70u8, 0x6Fu8, 0x72u8, 0x74u8] =~= [
                0x69u8,
                0x6Du8,
                0x70u8,
                0x6Fu8,
                0x72u8,
                0x74u8,
            ]@);
            assert(seq![0x65u8, 0x78u8, 0x70u8, 0x6Fu8, 0x72u8, 0x74u8] =~= [
                0x65u8,
                0x78u8,
                0x70u8,
                0x6Fu8,
                0x72u8,
                0x74u8,
            ]@);
            assert(seq![0x75u8, 0x73u8, 0x65u8] =~= [0x75u8, 0x73u8, 0x65u8]@);
            assert(seq![0x6Cu8, 0x65u8, 0x74u8] =~= [0x6Cu8, 0x65u8, 0x74u8]@);
            assert(seq![0x69u8, 0x66u8] =~= [0x69u8, 0x66u8]@);
            assert(seq![0x65u8, 0x6Cu8, 0x73u8, 0x65u8] =~= [0x65u8, 0x6Cu8, 0x73u8, 0x65u8]@);
            assert(seq![0x66u8, 0x6Fu8, 0x72u8] =~= [0x66u8, 0x6Fu8, 0x72u8]@);
        }
        r
    }

    /// Scans an identifier or a reserved word.
    fn identifier(&mut self) -> (r: Option<Result<Token, Error>>)
        requires
            old(self).st().start == old(self).st().end,
        ensures
            final(self).source@ == old(self).source@,
            (r, final(self).st()) == spec_identifier(old(self).source@, old(self).st()),
    {
        let c = self.first();
        if (0x41 <= c && c <= 0x5A) || (0x61 <= c && c <= 0x7A) || c == 0x5F {
            self.bump();
            proof {
                lemma_run_bounds(self.source@, self.st(), |b: u8| spec_is_ident_rest(b));
            }
            self.run_ident_rest();
            let kind = self.keyword_or_identifier();
            self.emit(kind)
        } else {
            None
        }
    }

    /// Scans a symbol literal or a string literal.
    #[verifier::loop_isolation(false)]
    fn symbol_or_string(&mut self) -> (r: Option<Result<Token, Error>>)
        ensures
            final(self).source@ == old(self).source@,
            (r, final(self).st()) == spec_symbol_or_string(old(self).source@, old(self).st()),
    {
        let c = self.first();
        if c != 0x27 && c != 0x22 {
            return None;
        }
        let delim = c;
        let kind = if delim == 0x27 {
            TokenKind::Symbol
        } else {
            TokenKind::String
        };
        self.bump();
        loop
            invariant
                self.source@ == old(self).source@,
                spec_scan_quoted(self.source@, self.st(), delim, kind) == spec_symbol_or_string(
                    old(self).source@,
                    old(self).st(),
                ),
            decreases self.source@.len() - self.st().end,
        {
            let b = self.first();
            if b == 0 {
                return self.emit_err(ErrorKind::UnterminatedString);
            } else if b == 0x5C {
                self.bump();
                let b2 = self.first();
                if b2 != 0 {
                    self.bump();
                } else {
                    return self.emit_err(ErrorKind::UnterminatedString);
                }
            } else if b == delim {
                self.bump();
                return self.emit(kind);
            } else {
                self.bump();
            }
        }
    }

    /// Scans a numeric literal.
    fn int_or_float(&mut self) -> (r: Option<Result<Token, Error>>)
        ensures
            final(self).source@ == old(self).source@,
            (r, final(self).st()) == spec_int_or_float(old(self).source@, old(self).st()),
    {
        let c = self.first();
        let c2 = self.second();
        if c == 0x30 && c2 == 0x62 {
            self.bump();
            self.bump();
            self.run_bin_digits();
            return self.emit(TokenKind::Int);
        }
        if c == 0x30 && c2 == 0x30 {
            self.bump();
            self.bump();
            self.run_oct_digits();
            return self.emit(TokenKind::Int);
        }
        if c == 0x30 && c2 == 0x78 {
            self.bump();
            self.bump();
            self.run_hex_digits();
            return self.emit(TokenKind::Int);
        }
        if 0x30 <= c && c <= 0x39 {
            self.bump();
            self.run_digits();
            if self.bump_if_eq(0x2E) {
                self.run_digits();
                if self.bump_if_eq(0x65) {
                    let _minus = self.bump_if_eq(0x2D);
                    self.run_digits();
                }
                self.emit(TokenKind::Float)
            } else if self.bump_if_eq(0x65) {
                let _minus = self.bump_if_eq(0x2D);
                self.run_digits();
                self.emit(TokenKind::Float)
            } else {
                self.emit(TokenKind::Int)
            }
        } else {
            None
        }
    }

    /// Reports a stray byte as an invalid character.
    fn error(&mut self) -> (r: Option<Result<Token, Error>>)
        ensures
            final(self).source@ == old(self).source@,
            (r, final(self).st()) == spec_invalid(old(self).source@, old(self).st()),
    {
        let c = self.first();
        if c != 0 {
            self.bump();
            self.emit_err(ErrorKind::InvalidCharacter)
        } else {
            None
        }
    }

    /// The next token of the stream.
    #[verifier::rlimit(100)]
    #[verifier::spinoff_prover]
    pub fn next(&mut self) -> (r: Option<Result<Token, Error>>)
        ensures
            final(self).source@ == old(self).source@,
            (r, final(self).st()) == spec_next(old(self).source@, old(self).st()),
    {
        self.whitespace();
        self.span.start = self.span.end;

        if self.auto_insert_comma {
            let comma = self.emit(TokenKind::Comma);
            self.auto_insert_comma = false;
            return comma;
        }
        if let Some(r) = self.punctuation() {
            return Some(r);
        }
        if let Some(r) = self.identifier() {
            return Some(r);
        }
        proof {
            lemma_scan_quoted_bounds(
                self.source@,
                spec_bump(self.source@, self.st()),
                0x27,
                TokenKind::Symbol,
            );
            lemma_scan_quoted_bounds(
                self.source@,
                spec_bump(self.source@, self.st()),
                0x22,
                TokenKind::String,
            );
        }
        if let Some(r) = self.symbol_or_string() {
            return Some(r);
        }
        if let Some(r) = self.int_or_float() {
            return Some(r);
        }
        self.error()
    }
}

/// Tokenizes a whole source string: exactly the tokens of
/// `spec_tokenize`, or its error.
#[verifier::loop_isolation(false)]
pub fn tokenize(source: &[u8]) -> (r: Result<Vec<Token>, Error>)
    ensures
        match r {
            Ok(v) => spec_tokenize(source@) == Ok::<Seq<Token>, Error>(v@),
            Err(e) => spec_tokenize(source@) == Err::<Seq<Token>, Error>(e),
        },
{
    let mut tokens: Vec<Token> = Vec::new();
    let mut stream = Tokens::new(source);
    loop
        invariant
            stream.source@ == source@,
            spec_tokens_from(source@, stream.st(), tokens@) == spec_tokenize(source@),
        decreases spec_lex_measure(source@, stream.st()),
    {
        proof {
            lemma_next_progress(source@, stream.st());
        }
        match stream.next() {
            None => {
                return Ok(tokens);
            }
            Some(Ok(t)) => {
                tokens.push(t);
            }
            Some(Err(e)) => {
                return Err(e);
            }
        }
    }
}

} // verus!
