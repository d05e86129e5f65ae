//! The oldest generation of the lexer: it tracks line and column
//! positions, distinguishes lower-case identifiers from upper-case tags,
//! knows only the `let` and `import` keywords, and reads plain decimal
//! numbers and double-quoted strings.
//!
//! As in `lexer`, every scanning step has a spec mirror and `tokenize`
//! returns exactly `spec_tokenize` of the source.

use vstd::prelude::*;
use crate::source::{Error, ErrorKind, Position, Span};

verus! {

/// A kind of token in the oldest generation of the language.
#[derive(Debug, PartialEq, Eq, Clone, Copy, Structural)]
pub enum TokenKind {
    LeftParenthesis,
    RightParenthesis,
    LeftBracket,
    RightBracket,
    LeftBrace,
    RightBrace,
    Comma,
    Colon,
    Equals,
    Plus,
    Minus,
    Times,
    Divide,
    Arrow,
    Identifier,
    Tag,
    Integer,
    Float,
    String,
    Let,
    Import,
}

/// A token: its kind and its positioned span.
#[derive(Debug, PartialEq, Eq, Clone, Copy, Structural)]
pub struct Token {
    pub kind: TokenKind,
    pub span: Span,
}

/// A position as the spec mirror tracks it.
pub struct SPos {
    pub offset: int,
    pub line: int,
    pub column: int,
}

/// The mirrored lexer state: the lexeme's start position, the cursor
/// position, the last emitted kind and the pending-comma flag.
pub struct LexSt {
    pub start: SPos,
    pub end: SPos,
    pub last: Option<TokenKind>,
    pub pending: bool,
}

/// The lexer's streaming state.
pub struct Tokens<'a> {
    /// The source bytes.
    pub source: &'a [u8],
    /// The position where the current lexeme starts.
    pub start: Position,
    /// The cursor position.
    pub end: Position,
    /// The kind of the last emitted token.
    pub last_token_kind: Option<TokenKind>,
    /// Whether a synthetic comma is pending from a newline.
    pub auto_insert_comma: bool,
}

/// The byte at offset `i`, with NUL standing for end of input.
pub open spec fn at_byte(src: Seq<u8>, i: int) -> u8 {
    if 0 <= i < src.len() {
        src[i]
    } else {
        0
    }
}

/// Whether `last` is a statement-closing token.
pub open spec fn spec_is_closer(last: Option<TokenKind>) -> bool {
    match last {
        Some(k) => k == TokenKind::RightParenthesis || k == TokenKind::RightBracket || k
            == TokenKind::RightBrace || k == TokenKind::Identifier || k == TokenKind::Tag || k
            == TokenKind::Integer || k == TokenKind::Float || k == TokenKind::String,
        None => false,
    }
}

/// One cursor step: a newline starts the next line, arming the pending
/// comma after a closer; any other byte moves one column. Line and column
/// counters saturate at the machine limit.
pub open spec fn spec_advance(src: Seq<u8>, st: LexSt) -> LexSt {
    let c = at_byte(src, st.end.offset);
    if c == 0x0A {
        LexSt {
            start: st.start,
            end: SPos {
                offset: st.end.offset + 1,
                line: if st.end.line < usize::MAX {
                    st.end.line + 1
                } else {
                    st.end.line
                },
                column: 1,
            },
            last: st.last,
            pending: spec_is_closer(st.last),
        }
    } else {
        LexSt {
            start: st.start,
            end: SPos {
                offset: st.end.offset + 1,
                line: st.end.line,
                column: if st.end.column < usize::MAX {
                    st.end.column + 1
                } else {
                    st.end.column
                },
            },
            last: st.last,
            pending: st.pending,
        }
    }
}

/// A maximal run of bytes satisfying `pred`; end of input stops it.
pub open spec fn spec_run(src: Seq<u8>, st: LexSt, pred: spec_fn(u8) -> bool) -> LexSt
    decreases src.len() - st.end.offset,
{
    let c = at_byte(src, st.end.offset);
    if c != 0 && pred(c) {
        spec_run(src, spec_advance(src, st), pred)
    } else {
        st
    }
}

/// Runs only move forward and stay within the input.
pub proof fn lemma_run_bounds(src: Seq<u8>, st: LexSt, pred: spec_fn(u8) -> bool)
    ensures
        ({
            let r = spec_run(src, st, pred);
            st.end.offset <= r.end.offset && (st.end.offset <= src.len() ==> r.end.offset
                <= src.len()) && r.start == st.start && r.last == st.last && (r.end.offset
                == st.end.offset ==> r == st)
        }),
    decreases src.len() - st.end.offset,
{
    let c = at_byte(src, st.end.offset);
    if c != 0 && pred(c) {
        lemma_run_bounds(src, spec_advance(src, st), pred);
    }
}

/// Whitespace of this generation: space, tab, newline, carriage return.
pub open spec fn spec_is_space(c: u8) -> bool {
    c == 0x20 || c == 0x09 || c == 0x0A || c == 0x0D
}

/// First byte of an identifier: lower case or underscore.
pub open spec fn spec_is_ident_start(c: u8) -> bool {
    (0x61 <= c <= 0x7A) || c == 0x5F
}

/// First byte of a tag: upper case.
pub open spec fn spec_is_tag_start(c: u8) -> bool {
    0x41 <= c <= 0x5A
}

/// Later byte of an identifier or tag.
pub open spec fn spec_is_ident_rest(c: u8) -> bool {
    (0x41 <= c <= 0x5A) || (0x61 <= c <= 0x7A) || (0x30 <= c <= 0x39) || c == 0x5F
}

/// A decimal digit.
pub open spec fn spec_is_digit(c: u8) -> bool {
    0x30 <= c <= 0x39
}

/// Whitespace and comments before a token; a comment runs to the next
/// newline or the end of input.
pub open spec fn spec_whitespace(src: Seq<u8>, st: LexSt) -> LexSt
    decreases src.len() - st.end.offset,
    via spec_whitespace_dec
{
    let st1 = spec_run(src, st, |c: u8| spec_is_space(c));
    if at_byte(src, st1.end.offset) == 0x23 {
        spec_whitespace(src, spec_run(src, spec_advance(src, st1), |c: u8| c != 0x0A))
    } else {
        st1
    }
}

#[via_fn]
proof fn spec_whitespace_dec(src: Seq<u8>, st: LexSt) {
    lemma_run_bounds(src, st, |c: u8| spec_is_space(c));
    let st1 = spec_run(src, st, |c: u8| spec_is_space(c));
    if at_byte(src, st1.end.offset) == 0x23 {
        lemma_run_bounds(src, spec_advance(src, st1), |c: u8| c != 0x0A);
    }
}

/// `spec_whitespace` only moves forward and stays within the input.
pub proof fn lemma_whitespace_bounds(src: Seq<u8>, st: LexSt)
    ensures
        ({
            let r = spec_whitespace(src, st);
            st.end.offset <= r.end.offset && (st.end.offset <= src.len() ==> r.end.offset
                <= src.len()) && r.last == st.last && (r.end.offset == st.end.offset ==> r == st)
        }),
    decreases src.len() - st.end.offset,
{
    lemma_run_bounds(src, st, |c: u8| spec_is_space(c));
    let st1 = spec_run(src, st, |c: u8| spec_is_space(c));
    if at_byte(src, st1.end.offset) == 0x23 {
        let st2 = spec_run(src, spec_advance(src, st1), |c: u8| c != 0x0A);
        lemma_run_bounds(src, spec_advance(src, st1), |c: u8| c != 0x0A);
        lemma_whitespace_bounds(src, st2);
    }
}

/// The positioned span the state covers; the end column is made inclusive
/// for error reporting.
pub open spec fn spec_span_of(st: LexSt) -> Span {
    Span {
        start: Position {
            offset: st.start.offset as usize,
            line: st.start.line as usize,
            column: st.start.column as usize,
        },
        end: Position {
            offset: st.end.offset as usize,
            line: st.end.line as usize,
            column: if st.end.column >= 1 {
                (st.end.column - 1) as usize
            } else {
                0
            },
        },
    }
}

/// Token emission.
pub open spec fn spec_ok(st: LexSt, kind: TokenKind) -> (Option<Result<Token, Error>>, LexSt) {
    (
        Some(Ok(Token { kind, span: spec_span_of(st) })),
        LexSt { start: st.start, end: st.end, last: Some(kind), pending: st.pending },
    )
}

/// Error emission.
pub open spec fn spec_err(st: LexSt, kind: ErrorKind) -> (Option<Result<Token, Error>>, LexSt) {
    (Some(Err(Error { kind, span: spec_span_of(st) })), st)
}

/// Nothing scanned.
pub open spec fn spec_none(st: LexSt) -> (Option<Result<Token, Error>>, LexSt) {
    (None, st)
}

/// Punctuation: single bytes plus the two-byte arrow.
pub open spec fn spec_punctuation(src: Seq<u8>, st: LexSt) -> (Option<Result<Token, Error>>, LexSt) {
    let c = at_byte(src, st.end.offset);
    if c == 0x28 {
        spec_ok(spec_advance(src, st), TokenKind::LeftParenthesis)
    } else if c == 0x29 {
        spec_ok(spec_advance(src, st), TokenKind::RightParenthesis)
    } else if c == 0x5B {
        spec_ok(spec_advance(src, st), TokenKind::LeftBracket)
    } else if c == 0x5D {
        spec_ok(spec_advance(src, st), TokenKind::RightBracket)
    } else if c == 0x7B {
        spec_ok(spec_advance(src, st), TokenKind::LeftBrace)
    } else if c == 0x7D {
        spec_ok(spec_advance(src, st), TokenKind::RightBrace)
    } else if c == 0x2C {
        spec_ok(spec_advance(src, st), TokenKind::Comma)
    } else if c == 0x3A {
        spec_ok(spec_advance(src, st), TokenKind::Colon)
    } else if c == 0x3D {
        spec_ok(spec_advance(src, st), TokenKind::Equals)
    } else if c == 0x2B {
        spec_ok(spec_advance(src, st), TokenKind::Plus)
    } else if c == 0x2D {
        let st1 = spec_advance(src, st);
        if at_byte(src, st1.end.offset) == 0x3E {
            spec_ok(spec_advance(src, st1), TokenKind::Arrow)
        } else {
            spec_ok(st1, TokenKind::Minus)
        }
    } else if c == 0x2A {
        spec_ok(spec_advance(src, st), TokenKind::Times)
    } else if c == 0x2F {
        spec_ok(spec_advance(src, st), TokenKind::Divide)
    } else {
        spec_none(st)
    }
}

/// The keyword kind of an identifier lexeme, or `Identifier`.
pub open spec fn spec_ident_kind(lex: Seq<u8>) -> TokenKind {
    if lex == seq![0x6Cu8, 0x65u8, 0x74u8] {
        TokenKind::Let
    } else if lex == seq![0x69u8, 0x6Du8, 0x70u8, 0x6Fu8, 0x72u8, 0x74u8] {
        TokenKind::Import
    } else {
        TokenKind::Identifier
    }
}

/// Identifiers and the two reserved words.
pub open spec fn spec_identifier(src: Seq<u8>, st: LexSt) -> (Option<Result<Token, Error>>, LexSt) {
    if spec_is_ident_start(at_byte(src, st.end.offset)) {
        let st1 = spec_run(src, spec_advance(src, st), |c: u8| spec_is_ident_rest(c));
        spec_ok(st1, spec_ident_kind(src.subrange(st1.start.offset, st1.end.offset)))
    } else {
        spec_none(st)
    }
}

/// Tags: an upper-case start, then identifier-rest bytes.
pub open spec fn spec_tag(src: Seq<u8>, st: LexSt) -> (Option<Result<Token, Error>>, LexSt) {
    if spec_is_tag_start(at_byte(src, st.end.offset)) {
        let st1 = spec_run(src, spec_advance(src, st), |c: u8| spec_is_ident_rest(c));
        spec_ok(st1, TokenKind::Tag)
    } else {
        spec_none(st)
    }
}

/// Numbers: decimal digits, with a dot introducing a float.
pub open spec fn spec_number(src: Seq<u8>, st: LexSt) -> (Option<Result<Token, Error>>, LexSt) {
    if spec_is_digit(at_byte(src, st.end.offset)) {
        let st1 = spec_run(src, spec_advance(src, st), |c: u8| spec_is_digit(c));
        if at_byte(src, st1.end.offset) == 0x2E {
            spec_ok(
                spec_run(src, spec_advance(src, st1), |c: u8| spec_is_digit(c)),
                TokenKind::Float,
            )
        } else {
            spec_ok(st1, TokenKind::Integer)
        }
    } else {
        spec_none(st)
    }
}

/// The body of a string literal after its opening quote.
pub open spec fn spec_scan_string(src: Seq<u8>, st: LexSt) -> (Option<Result<Token, Error>>, LexSt)
    decreases src.len() - st.end.offset,
{
    let c = at_byte(src, st.end.offset);
    if c == 0 {
        spec_err(st, ErrorKind::UnterminatedString)
    } else if c == 0x5C {
        let st1 = spec_advance(src, st);
        if at_byte(src, st1.end.offset) != 0 {
            spec_scan_string(src, spec_advance(src, st1))
        } else {
            spec_err(st1, ErrorKind::UnterminatedString)
        }
    } else if c == 0x22 {
        spec_ok(spec_advance(src, st), TokenKind::String)
    } else {
        spec_scan_string(src, spec_advance(src, st))
    }
}

/// String scans always produce a token or an error, move forward, and
/// stay within the input.
pub proof fn lemma_scan_string_bounds(src: Seq<u8>, st: LexSt)
    ensures
        ({
            let (r, st2) = spec_scan_string(src, st);
            st.end.offset <= st2.end.offset && (st.end.offset <= src.len() ==> st2.end.offset
                <= src.len()) && (r matches Some(Ok(_)) ==> st.end.offset < st2.end.offset)
                && r is Some
        }),
    decreases src.len() - st.end.offset,
{
    let c = at_byte(src, st.end.offset);
    if c == 0 {
    } else if c == 0x5C {
        let st1 = spec_advance(src, st);
        if at_byte(src, st1.end.offset) != 0 {
            lemma_scan_string_bounds(src, spec_advance(src, st1));
        }
    } else if c == 0x22 {
    } else {
        lemma_scan_string_bounds(src, spec_advance(src, st));
    }
}

/// String literals, opened by a double quote.
pub open spec fn spec_string(src: Seq<u8>, st: LexSt) -> (Option<Result<Token, Error>>, LexSt) {
    if at_byte(src, st.end.offset) == 0x22 {
        spec_scan_string(src, spec_advance(src, st))
    } else {
        spec_none(st)
    }
}

/// A stray byte: an invalid-character error that consumes one byte.
pub open spec fn spec_invalid(src: Seq<u8>, st: LexSt) -> (Option<Result<Token, Error>>, LexSt) {
    if at_byte(src, st.end.offset) != 0 {
        let st1 = spec_advance(src, st);
        spec_err(st1, ErrorKind::InvalidCharacter)
    } else {
        spec_none(st)
    }
}

/// One step of the token stream.
pub open spec fn spec_next(src: Seq<u8>, st: LexSt) -> (Option<Result<Token, Error>>, LexSt) {
    let stw = spec_whitespace(src, st);
    let st0 = LexSt { start: stw.end, end: stw.end, last: stw.last, pending: stw.pending };
    if st0.pending {
        let (r, st1) = spec_ok(st0, TokenKind::Comma);
        (r, LexSt { start: st1.start, end: st1.end, last: st1.last, pending: false })
    } else {
        let p = spec_punctuation(src, st0);
        if p.0 is Some {
            p
        } else {
            let i = spec_identifier(src, st0);
            if i.0 is Some {
                i
            } else {
                let t = spec_tag(src, st0);
                if t.0 is Some {
                    t
                } else {
                    let n = spec_number(src, st0);
                    if n.0 is Some {
                        n
                    } else {
                        let s = spec_string(src, st0);
                        if s.0 is Some {
                            s
                        } else {
                            spec_invalid(src, st0)
                        }
                    }
                }
            }
        }
    }
}

/// Measure for lexing progress.
pub open spec fn spec_lex_measure(src: Seq<u8>, st: LexSt) -> int {
    2 * (if st.end.offset <= src.len() {
        src.len() - st.end.offset
    } else {
        0
    }) + (if st.pending {
        1int
    } else {
        0int
    })
}

/// The whole token stream from a given state.
pub open spec fn spec_tokens_from(src: Seq<u8>, st: LexSt, acc: Seq<Token>) -> Result<
    Seq<Token>,
    Error,
>
    decreases spec_lex_measure(src, st),
    via spec_tokens_from_dec
{
    match spec_next(src, st) {
        (None, _) => Ok(acc),
        (Some(Ok(t)), st2) => spec_tokens_from(src, st2, acc.push(t)),
        (Some(Err(e)), _) => Err(e),
    }
}

#[via_fn]
proof fn spec_tokens_from_dec(src: Seq<u8>, st: LexSt, acc: Seq<Token>) {
    lemma_next_progress(src, st);
}

/// The token stream of a source string, starting at line 1, column 1.
pub open spec fn spec_tokenize(src: Seq<u8>) -> Result<Seq<Token>, Error> {
    spec_tokens_from(
        src,
        LexSt {
            start: SPos { offset: 0, line: 1, column: 1 },
            end: SPos { offset: 0, line: 1, column: 1 },
            last: None,
            pending: false,
        },
        Seq::empty(),
    )
}

/// Each successful `spec_next` step strictly shrinks the lexing measure.
#[verifier::rlimit(60)]
pub proof fn lemma_next_progress(src: Seq<u8>, st: LexSt)
    ensures
        ({
            let (r, st2) = spec_next(src, st);
            r matches Some(Ok(_)) ==> spec_lex_measure(src, st2) < spec_lex_measure(src, st) && (
            st.end.offset <= src.len() ==> st2.end.offset <= src.len())
        }),
{
    lemma_whitespace_bounds(src, st);
    let stw = spec_whitespace(src, st);
    let st0 = LexSt { start: stw.end, end: stw.end, last: stw.last, pending: stw.pending };
    if st.end.offset > src.len() {
        assert(spec_run(src, st, |c: u8| spec_is_space(c)) == st);
        if !st0.pending {
            assert(spec_punctuation(src, st0).0 is None);
            assert(spec_identifier(src, st0).0 is None);
            assert(spec_tag(src, st0).0 is None);
            assert(spec_number(src, st0).0 is None);
            assert(spec_string(src, st0).0 is None);
            assert(spec_invalid(src, st0).0 is None);
        }
    } else {
        if !st0.pending {
            lemma_run_bounds(src, spec_advance(src, st0), |c: u8| spec_is_ident_rest(c));
            lemma_run_bounds(src, spec_advance(src, st0), |c: u8| spec_is_digit(c));
            lemma_scan_string_bounds(src, spec_advance(src, st0));
            let st1 = spec_run(src, spec_advance(src, st0), |c: u8| spec_is_digit(c));
            if at_byte(src, st1.end.offset) == 0x2E {
                lemma_run_bounds(src, spec_advance(src, st1), |c: u8| spec_is_digit(c));
            }
        }
    }
}

impl<'a> Tokens<'a> {
    /// The mirrored lexer state.
    pub open spec fn st(&self) -> LexSt {
        LexSt {
            start: SPos {
                offset: self.start.offset as int,
                line: self.start.line as int,
                column: self.start.column as int,
            },
            end: SPos {
                offset: self.end.offset as int,
                line: self.end.line as int,
                column: self.end.column as int,
            },
            last: self.last_token_kind,
            pending: self.auto_insert_comma,
        }
    }

    /// A fresh lexer over `source`.
    pub fn new(source: &[u8]) -> (r: Tokens<'_>)
        ensures
            r.source@ == source@,
            r.st() == (LexSt {
                start: SPos { offset: 0, line: 1, column: 1 },
                end: SPos { offset: 0, line: 1, column: 1 },
                last: None::<TokenKind>,
                pending: false,
            }),
    {
        Tokens {
            source,
            start: Position { offset: 0, line: 1, column: 1 },
            end: Position { offset: 0, line: 1, column: 1 },
            last_token_kind: None,
            auto_insert_comma: false,
        }
    }

    /// The byte at the cursor, with NUL standing for end of input.
    fn byte(&self) -> (r: u8)
        ensures
            r == at_byte(self.source@, self.st().end.offset),
    {
        if self.end.offset < self.source.len() {
            self.source[self.end.offset]
        } else {
            0
        }
    }

    /// Advances the cursor one byte, tracking lines and columns.
    fn advance(&mut self)
        requires
            old(self).st().end.offset < old(self).source@.len(),
        ensures
            final(self).source@ == old(self).source@,
            final(self).st() == spec_advance(old(self).source@, old(self).st()),
    {
        let n = self.source.len();
        if self.byte() == 0x0A {
            if self.end.line < usize::MAX {
                self.end.line = self.end.line + 1;
            }
            self.end.column = 1;
            self.auto_insert_comma = match self.last_token_kind {
                Some(TokenKind::RightParenthesis) => true,
                Some(TokenKind::RightBracket) => true,
                Some(TokenKind::RightBrace) => true,
                Some(TokenKind::Identifier) => true,
                Some(TokenKind::Tag) => true,
                Some(TokenKind::Integer) => true,
                Some(TokenKind::Float) => true,
                Some(TokenKind::String) => true,
                _ => false,
            };
        } else {
            if self.end.column < usize::MAX {
                self.end.column = self.end.column + 1;
            }
        }
        self.end.offset = self.end.offset + 1;
    }

    /// Advances over `c` if it is the byte at the cursor.
    fn accept_if_eq(&mut self, c: u8) -> (r: bool)
        requires
            c != 0,
        ensures
            final(self).source@ == old(self).source@,
            r == (at_byte(old(self).source@, old(self).st().end.offset) == c),
            r ==> final(self).st() == spec_advance(old(self).source@, old(self).st()),
            !r ==> *final(self) == *old(self),
    {
        if self.byte() == c {
            self.advance();
            true
        } else {
            false
        }
    }

    /// The positioned span of the current lexeme.
    fn span(&self) -> (r: Span)
        ensures
            r == spec_span_of(self.st()),
    {
        Span {
            start: self.start,
            end: Position {
                offset: self.end.offset,
                line: self.end.line,
                column: if self.end.column >= 1 {
                    self.end.column - 1
                } else {
                    0
                },
            },
        }
    }

    /// Emits a token covering the current lexeme.
    fn emit(&mut self, kind: TokenKind) -> (r: Option<Result<Token, Error>>)
        ensures
            final(self).source@ == old(self).source@,
            (r, final(self).st()) == spec_ok(old(self).st(), kind),
    {
        self.last_token_kind = Some(kind);
        let span = self.span();
        Some(Ok(Token { kind, span }))
    }

    /// Emits an error covering the current lexeme.
    fn emit_err(&self, kind: ErrorKind) -> (r: Option<Result<Token, Error>>)
        ensures
            (r, self.st()) == spec_err(self.st(), kind),
    {
        Some(Err(Error { kind, span: self.span() }))
    }

    /// Consumes a maximal run of whitespace bytes.
    #[verifier::loop_isolation(false)]
    fn accept_spaces(&mut self)
        ensures
            final(self).source@ == old(self).source@,
            final(self).st() == spec_run(old(self).source@, old(self).st(), |c: u8| spec_is_space(c)),
    {
        loop
            invariant
                self.source@ == old(self).source@,
                spec_run(self.source@, self.st(), |c: u8| spec_is_space(c)) == spec_run(
                    old(self).source@,
                    old(self).st(),
                    |c: u8| spec_is_space(c),
                ),
            decreases self.source@.len() - self.st().end.offset,
        {
            let c = self.byte();
            if c != 0 && (c == 0x20 || c == 0x09 || c == 0x0A || c == 0x0D) {
                self.advance();
            } else {
                return ;
            }
        }
    }

    /// Consumes a comment body up to a newline or the end of input.
    #[verifier::loop_isolation(false)]
    fn accept_comment(&mut self)
        ensures
            final(self).source@ == old(self).source@,
            final(self).st() == spec_run(old(self).source@, old(self).st(), |c: u8| c != 0x0A),
    {
        loop
            invariant
                self.source@ == old(self).source@,
                spec_run(self.source@, self.st(), |c: u8| c != 0x0A) == spec_run(
                    old(self).source@,
                    old(self).st(),
                    |c: u8| c != 0x0A,
                ),
            decreases self.source@.len() - self.st().end.offset,
        {
            let c = self.byte();
            if c != 0 && c != 0x0A {
                self.advance();
            } else {
                return ;
            }
        }
    }

    /// Consumes a maximal run of identifier-rest bytes.
    #[verifier::loop_isolation(false)]
    fn accept_ident_rest(&mut self)
        ensures
            final(self).source@ == old(self).source@,
            final(self).st() == spec_run(
                old(self).source@,
                old(self).st(),
                |c: u8| spec_is_ident_rest(c),
            ),
    {
        loop
            invariant
                self.source@ == old(self).source@,
                spec_run(self.source@, self.st(), |c: u8| spec_is_ident_rest(c)) == spec_run(
                    old(self).source@,
                    old(self).st(),
                    |c: u8| spec_is_ident_rest(c),
                ),
            decreases self.source@.len() - self.st().end.offset,
        {
            let c = self.byte();
            if c != 0 && ((0x41 <= c && c <= 0x5A) || (0x61 <= c && c <= 0x7A) || (0x30 <= c && c
                <= 0x39) || c == 0x5F) {
                self.advance();
            } else {
                return ;
            }
        }
    }

    /// Consumes a maximal run of decimal digits.
    #[verifier::loop_isolation(false)]
    fn accept_digits(&mut self)
        ensures
            final(self).source@ == old(self).source@,
            final(self).st() == spec_run(old(self).source@, old(self).st(), |c: u8| spec_is_digit(c)),
    {
        loop
            invariant
                self.source@ == old(self).source@,
                spec_run(self.source@, self.st(), |c: u8| spec_is_digit(c)) == spec_run(
                    old(self).source@,
                    old(self).st(),
                    |c: u8| spec_is_digit(c),
                ),
            decreases self.source@.len() - self.st().end.offset,
        {
            let c = self.byte();
            if c != 0 && 0x30 <= c && c <= 0x39 {
                self.advance();
            } else {
                return ;
            }
        }
    }

    /// Skips whitespace and comments.
    #[verifier::loop_isolation(false)]
    fn skip_whitespace(&mut self)
        ensures
            final(self).source@ == old(self).source@,
            final(self).st() == spec_whitespace(old(self).source@, old(self).st()),
    {
        loop
            invariant
                self.source@ == old(self).source@,
                spec_whitespace(self.source@, self.st()) == spec_whitespace(
                    old(self).source@,
                    old(self).st(),
                ),
            decreases self.source@.len() - self.st().end.offset,
        {
            proof {
                lemma_run_bounds(self.source@, self.st(), |c: u8| spec_is_space(c));
            }
            self.accept_spaces();
            if self.byte() == 0x23 {
                self.advance();
                proof {
                    lemma_run_bounds(self.source@, self.st(), |c: u8| c != 0x0A);
                }
                self.accept_comment();
            } else {
                return ;
            }
        }
    }

    /// Scans punctuation; `->` takes precedence over `-`.
    fn next_punctuation(&mut self) -> (r: Option<Result<Token, Error>>)
        ensures
            final(self).source@ == old(self).source@,
            (r, final(self).st()) == spec_punctuation(old(self).source@, old(self).st()),
    {
        if self.accept_if_eq(0x28) {
            self.emit(TokenKind::LeftParenthesis)
        } else if self.accept_if_eq(0x29) {
            self.emit(TokenKind::RightParenthesis)
        } else if self.accept_if_eq(0x5B) {
            self.emit(TokenKind::LeftBracket)
        } else if self.accept_if_eq(0x5D) {
            self.emit(TokenKind::RightBracket)
        } else if self.accept_if_eq(0x7B) {
            self.emit(TokenKind::LeftBrace)
        } else if self.accept_if_eq(0x7D) {
            self.emit(TokenKind::RightBrace)
        } else if self.accept_if_eq(0x2C) {
            self.emit(TokenKind::Comma)
        } else if self.accept_if_eq(0x3A) {
            self.emit(TokenKind::Colon)
        } else if self.accept_if_eq(0x3D) {
            self.emit(TokenKind::Equals)
        } else if self.accept_if_eq(0x2B) {
            self.emit(TokenKind::Plus)
        } else if self.accept_if_eq(0x2D) {
            if self.accept_if_eq(0x3E) {
                self.emit(TokenKind::Arrow)
            } else {
                self.emit(TokenKind::Minus)
            }
        } else if self.accept_if_eq(0x2A) {
            self.emit(TokenKind::Times)
        } else if self.accept_if_eq(0x2F) {
            self.emit(TokenKind::Divide)
        } else {
            None
        }
    }

    /// The keyword kind of the current lexeme, or `Identifier`.
    fn keyword_or_identifier(&self) -> (r: TokenKind)
        requires
            self.st().start.offset <= self.st().end.offset <= self.source@.len(),
        ensures
            r == spec_ident_kind(self.source@.subrange(self.st().start.offset, self.st().end.offset)),
    {
        let lex = crate::span::span_slice(
            self.source,
            crate::span::Span { start: self.start.offset, end: self.end.offset },
        );
        let r = if crate::sym::bytes_eq(lex.as_slice(), &[0x6C, 0x65, 0x74]) {
            TokenKind::Let
        } else if crate::sym::bytes_eq(lex.as_slice(), &[0x69, 0x6D, 0x70, 0x6F, 0x72, 0x74]) {
            TokenKind::Import
        } else {
            TokenKind::Identifier
        };
        proof {
            assert(seq![0x6Cu8, 0x65u8, 0x74u8] =~= [0x6Cu8, 0x65u8, 0x74u8]@);
            assert(seq![0x69u8, 0x6Du8, 0x70u8, 0x6Fu8, 0x72u8, 0x74u8] =~= [
                0x69u8,
                0x6Du8,
                0x70u8,
                0x6Fu8,
                0x72u8,
                0x74u8,
            ]@);
        }
        r
    }

    /// Scans an identifier or a reserved word.
    fn next_identifier(&mut self) -> (r: Option<Result<Token, Error>>)
        requires
            old(self).st().start == old(self).st().end,
        ensures
            final(self).source@ == old(self).source@,
            (r, final(self).st()) == spec_identifier(old(self).source@, old(self).st()),
    {
        let c = self.byte();
        if (0x61 <= c && c <= 0x7A) || c == 0x5F {
            self.advance();
            proof {
                lemma_run_bounds(self.source@, self.st(), |b: u8| spec_is_ident_rest(b));
            }
            self.accept_ident_rest();
            let kind = self.keyword_or_identifier();
            self.emit(kind)
        } else {
            None
        }
    }

    /// Scans a tag.
    fn next_tag(&mut self) -> (r: Option<Result<Token, Error>>)
        ensures
            final(self).source@ == old(self).source@,
            (r, final(self).st()) == spec_tag(old(self).source@, old(self).st()),
    {
        let c = self.byte();
        if 0x41 <= c && c <= 0x5A {
            self.advance();
            self.accept_ident_rest();
            self.emit(TokenKind::Tag)
        } else {
            None
        }
    }

    /// Scans a number: an integer, or a float once a dot follows.
    fn next_number(&mut self) -> (r: Option<Result<Token, Error>>)
        ensures
            final(self).source@ == old(self).source@,
            (r, final(self).st()) == spec_number(old(self).source@, old(self).st()),
    {
        let c = self.byte();
        if 0x30 <= c && c <= 0x39 {
            self.advance();
            self.accept_digits();
            if self.accept_if_eq(0x2E) {
                self.accept_digits();
                self.emit(TokenKind::Float)
            } else {
                self.emit(TokenKind::Integer)
            }
        } else {
            None
        }
    }

    /// Scans a string literal.
    #[verifier::loop_isolation(false)]
    fn next_string(&mut self) -> (r: Option<Result<Token, Error>>)
        ensures
            final(self).source@ == old(self).source@,
            (r, final(self).st()) == spec_string(old(self).source@, old(self).st()),
    {
        if self.byte() != 0x22 {
            return None;
        }
        self.advance();
        loop
            invariant
                self.source@ == old(self).source@,
                spec_scan_string(self.source@, self.st()) == spec_string(
                    old(self).source@,
                    old(self).st(),
                ),
            decreases self.source@.len() - self.st().end.offset,
        {
            let b = self.byte();
            if b == 0 {
                return self.emit_err(ErrorKind::UnterminatedString);
            } else if b == 0x5C {
                self.advance();
                let b2 = self.byte();
                if b2 != 0 {
                    self.advance();
                } else {
                    return self.emit_err(ErrorKind::UnterminatedString);
                }
            } else if b == 0x22 {
                self.advance();
                return self.emit(TokenKind::String);
            } else {
                self.advance();
            }
        }
    }

    /// Reports a stray byte as an invalid character.
    fn next_error(&mut self) -> (r: Option<Result<Token, Error>>)
        ensures
            final(self).source@ == old(self).source@,
            (r, final(self).st()) == spec_invalid(old(self).source@, old(self).st()),
    {
        let c = self.byte();
        if c != 0 {
            self.advance();
            self.emit_err(ErrorKind::InvalidCharacter)
        } else {
            None
        }
    }

    /// The next token of the stream.
    #[verifier::rlimit(100)]
    #[verifier::spinoff_prover]
    pub fn next(&mut self) -> (r: Option<Result<Token, Error>>)
        ensures
            final(self).source@ == old(self).source@,
            (r, final(self).st()) == spec_next(old(self).source@, old(self).st()),
    {
        self.skip_whitespace();
        self.start = self.end;

        if self.auto_insert_comma {
            let comma = self.emit(TokenKind::Comma);
            self.auto_insert_comma = false;
            return comma;
        }
        if let Some(r) = self.next_punctuation() {
            return Some(r);
        }
        if let Some(r) = self.next_identifier() {
            return Some(r);
        }
        if let Some(r) = self.next_tag() {
            return Some(r);
        }
        if let Some(r) = self.next_number() {
            return Some(r);
        }
        proof {
            lemma_scan_string_bounds(self.source@, spec_advance(self.source@, self.st()));
        }
        if let Some(r) = self.next_string() {
            return Some(r);
        }
        self.next_error()
    }
}

/// Tokenizes a whole source string: exactly the tokens of
/// `spec_tokenize`, or its error.
#[verifier::loop_isolation(false)]
pub fn tokenize(source: &[u8]) -> (r: Result<Vec<Token>, Error>)
    ensures
        match r {
            Ok(v) => spec_tokenize(source@) == Ok::<Seq<Token>, Error>(v@),
            Err(e) => spec_tokenize(source@) == Err::<Seq<Token>, Error>(e),
        },
{
    let mut tokens: Vec<Token> = Vec::new();
    let mut stream = Tokens::new(source);
    loop
        invariant
            stream.source@ == source@,
            spec_tokens_from(source@, stream.st(), tokens@) == spec_tokenize(source@),
        decreases spec_lex_measure(source@, stream.st()),
    {
        proof {
            lemma_next_progress(source@, stream.st());
        }
        match stream.next() {
            None => {
                return Ok(tokens);
            }
            Some(Ok(t)) => {
                tokens.push(t);
            }
            Some(Err(e)) => {
                return Err(e);
            }
        }
    }
}

} // verus!
