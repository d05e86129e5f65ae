//! The parser of the current front end: Pratt precedence climbing over
//! the token vector, with patterns, statements, modules and dependencies.
//!
//! Every production is mirrored by a spec function over the token
//! sequence, the cursor and the interner table; each method's contract
//! says it computes exactly what its mirror describes, and the three
//! entry points return exactly `spec_parse_expr`, `spec_parse_stmt` and
//! `spec_parse_module` of the source.

use vstd::prelude::*;
use crate::ast::{
    BinOp, Dep, DepV, Expr, ExprKind, ExprKindV, ExprV, Mod, ModPath, ModPathV, ModV, Pat, PatV,
    Stmt, StmtV, UnOp, dep_view, deps_view, expr_tuple_view, expr_view, kind_view,
    lemma_deps_view, lemma_exprs_view, lemma_pats_view, lemma_stmts_view, mod_path_view, mod_view,
    pat_tuple_view, pat_view, stmt_view, stmts_view,
};
use crate::error::{Error, ErrorKind, spec_error};
use crate::lexer::{Token, TokenKind, tokenize, spec_tokenize};
use crate::span::{Span, spec_slice, span_slice};
use crate::sym::{Interner, Sym, intern_sym, intern_table};
use crate::tuple::{SpecTuple, Tuple, TupleEntry, spec_from_entries};
use crate::ty::TyV;

verus! {

/// The parser's state: the source, its tokens, and a cursor.
pub struct Parser<'src> {
    /// The source bytes, for slicing lexemes out of spans.
    pub source: &'src [u8],
    /// The token vector.
    pub tokens: Vec<Token>,
    /// The cursor into `tokens`.
    pub index: usize,
}

/// The outcome of a spec-level production: its result, the cursor after
/// it, and the interner table after it.
pub struct SpecParsed<T> {
    pub r: Result<Option<T>, Error>,
    pub i: int,
    pub strs: Seq<Seq<u8>>,
}

/// The kind of the token at `i`, if any.
pub open spec fn tok_at(tokens: Seq<Token>, i: int) -> Option<Token> {
    if 0 <= i < tokens.len() {
        Some(tokens[i])
    } else {
        None
    }
}

/// What `accept` does: the span of the token at `i` when it has the
/// wanted kind, consuming it.
pub open spec fn spec_accept(tokens: Seq<Token>, i: int, kind: TokenKind) -> (Option<Span>, int) {
    match tok_at(tokens, i) {
        Some(t) => if t.kind == kind {
            (Some(t.span), i + 1)
        } else {
            (None, i)
        },
        None => (None, i),
    }
}

/// The span that an expected-but-missing production reports: the current
/// token's, or the last token's when the input has run out.
pub open spec fn spec_invalid_span(tokens: Seq<Token>, i: int) -> Span {
    if 0 <= i < tokens.len() {
        tokens[i].span
    } else if i >= 1 && i - 1 < tokens.len() {
        tokens[i - 1].span
    } else {
        Span { start: 0, end: 0 }
    }
}

/// The invalid-token error at cursor `i`.
pub open spec fn spec_invalid_token(tokens: Seq<Token>, i: int) -> Error {
    spec_error(ErrorKind::InvalidToken, spec_invalid_span(tokens, i))
}

/// What `accept_sym` does: consume a token of `kind` and intern its
/// lexeme.
pub open spec fn spec_accept_sym(
    tokens: Seq<Token>,
    src: Seq<u8>,
    i: int,
    strs: Seq<Seq<u8>>,
    kind: TokenKind,
) -> (Option<Sym>, int, Seq<Seq<u8>>) {
    match spec_accept(tokens, i, kind) {
        (Some(span), i2) => {
            let lex = spec_slice(src, span);
            (Some(intern_sym(strs, lex)), i2, intern_table(strs, lex))
        },
        (None, i2) => (None, i2, strs),
    }
}

/// The unary operators with their right binding power.
pub open spec fn spec_un_op_of(kind: TokenKind) -> Option<(UnOp, u8)> {
    if kind == TokenKind::Minus {
        Some((UnOp::Neg, 20u8))
    } else if kind == TokenKind::Not {
        Some((UnOp::Not, 20u8))
    } else if kind == TokenKind::Tilde {
        Some((UnOp::BitNot, 20u8))
    } else {
        None
    }
}

/// The binary operators with their left and right binding powers.
pub open spec fn spec_bin_op_of(kind: TokenKind) -> Option<(BinOp, u8, u8)> {
    if kind == TokenKind::OrOr {
        Some((BinOp::Or, 0u8, 1u8))
    } else if kind == TokenKind::AndAnd {
        Some((BinOp::And, 2u8, 3u8))
    } else if kind == TokenKind::EqEq {
        Some((BinOp::Eq, 4u8, 5u8))
    } else if kind == TokenKind::NotEq {
        Some((BinOp::NotEq, 4u8, 5u8))
    } else if kind == TokenKind::Lt {
        Some((BinOp::Lt, 4u8, 5u8))
    } else if kind == TokenKind::LtEq {
        Some((BinOp::LtEq, 4u8, 5u8))
    } else if kind == TokenKind::Gt {
        Some((BinOp::Gt, 4u8, 5u8))
    } else if kind == TokenKind::GtEq {
        Some((BinOp::GtEq, 4u8, 5u8))
    } else if kind == TokenKind::Or {
        Some((BinOp::BitOr, 6u8, 7u8))
    } else if kind == TokenKind::Caret {
        Some((BinOp::Xor, 8u8, 9u8))
    } else if kind == TokenKind::And {
        Some((BinOp::BitAnd, 10u8, 11u8))
    } else if kind == TokenKind::LtLt {
        Some((BinOp::ShiftL, 12u8, 13u8))
    } else if kind == TokenKind::GtGt {
        Some((BinOp::ShiftR, 12u8, 13u8))
    } else if kind == TokenKind::Plus {
        Some((BinOp::Add, 14u8, 15u8))
    } else if kind == TokenKind::Minus {
        Some((BinOp::Sub, 14u8, 15u8))
    } else if kind == TokenKind::Star {
        Some((BinOp::Mul, 16u8, 17u8))
    } else if kind == TokenKind::Slash {
        Some((BinOp::Div, 16u8, 17u8))
    } else if kind == TokenKind::Percent {
        Some((BinOp::Mod, 16u8, 17u8))
    } else if kind == TokenKind::StarStar {
        Some((BinOp::Exp, 18u8, 19u8))
    } else if kind == TokenKind::Period {
        Some((BinOp::Dot, 20u8, 21u8))
    } else {
        None
    }
}

/// The value of a hexadecimal digit byte, or none.
pub open spec fn spec_hex_val(c: u8) -> Option<u8> {
    if 0x30 <= c <= 0x39 {
        Some((c - 0x30) as u8)
    } else if 0x61 <= c <= 0x66 {
        Some((10 + c - 0x61) as u8)
    } else if 0x41 <= c <= 0x46 {
        Some((10 + c - 0x41) as u8)
    } else {
        None
    }
}

/// Escape decoding over the bytes between a literal's delimiters: a
/// backslash introduces one of the named escapes or `\xHH` with `HH` at
/// most `7F`; anything else after a backslash is invalid. A backslash as
/// the final byte is invalid too (the lexer never produces one).
pub open spec fn spec_unescape_bytes(s: Seq<u8>, j: int) -> Result<Seq<u8>, ()>
    decreases s.len() - j,
{
    if j < 0 || j >= s.len() {
        Ok(Seq::empty())
    } else if s[j] == 0x5C {
        if j + 1 >= s.len() {
            Err(())
        } else {
            let c = s[j + 1];
            let decoded: Result<(u8, int), ()> = if c == 0x5C {
                Ok((0x5C, j + 2))
            } else if c == 0x22 {
                Ok((0x22, j + 2))
            } else if c == 0x27 {
                Ok((0x27, j + 2))
            } else if c == 0x61 {
                Ok((0x07, j + 2))
            } else if c == 0x62 {
                Ok((0x08, j + 2))
            } else if c == 0x74 {
                Ok((0x09, j + 2))
            } else if c == 0x76 {
                Ok((0x0B, j + 2))
            } else if c == 0x66 {
                Ok((0x0C, j + 2))
            } else if c == 0x6E {
                Ok((0x0A, j + 2))
            } else if c == 0x72 {
                Ok((0x0D, j + 2))
            } else if c == 0x30 {
                Ok((0x00, j + 2))
            } else if c == 0x78 {
                if j + 3 >= s.len() {
                    Err(())
                } else {
                    match (spec_hex_val(s[j + 2]), spec_hex_val(s[j + 3])) {
                        (Some(a), Some(b)) => {
                            let value = 16 * a + b;
                            if value > 127 {
                                Err(())
                            } else {
                                Ok((value as u8, j + 4))
                            }
                        },
                        _ => Err(()),
                    }
                }
            } else {
                Err(())
            };
            match decoded {
                Ok((b, j2)) => match spec_unescape_bytes(s, j2) {
                    Ok(rest) => Ok(seq![b] + rest),
                    Err(e) => Err(e),
                },
                Err(e) => Err(e),
            }
        }
    } else {
        match spec_unescape_bytes(s, j + 1) {
            Ok(rest) => Ok(seq![s[j]] + rest),
            Err(e) => Err(e),
        }
    }
}

/// What `unescape` returns for a quoted literal's span: the decoded bytes
/// between the delimiters, or the escape error carrying the span.
pub open spec fn spec_unescape(src: Seq<u8>, span: Span) -> Result<Seq<u8>, Error> {
    let lex = spec_slice(src, span);
    let inner = if lex.len() >= 2 {
        lex.subrange(1, lex.len() - 1)
    } else {
        Seq::empty()
    };
    match spec_unescape_bytes(inner, 0) {
        Ok(bytes) => Ok(bytes),
        Err(_) => Err(spec_error(ErrorKind::StringEscSeqInvalid, span)),
    }
}

/// One step of checked accumulation in `base`: fails outside `i64`.
pub open spec fn spec_acc_step(acc: int, base: int, d: int) -> Option<int> {
    let m = acc * base;
    if m < i64::MIN || m > i64::MAX {
        None
    } else {
        let s = m + d;
        if s < i64::MIN || s > i64::MAX {
            None
        } else {
            Some(s)
        }
    }
}

/// Checked decimal-style accumulation of digit values over `s` from `j`,
/// where each byte contributes `digit_value` in `base`.
pub open spec fn spec_int_accum(s: Seq<u8>, j: int, base: int, acc: int) -> Option<int>
    decreases s.len() - j,
{
    if j < 0 || j >= s.len() {
        Some(acc)
    } else {
        let d = spec_digit_val(s[j], base);
        match spec_acc_step(acc, base, d) {
            Some(acc2) => spec_int_accum(s, j + 1, base, acc2),
            None => None,
        }
    }
}

/// The value a byte contributes as a digit of `base`, exactly as the
/// decoder computes it: hexadecimal letters map through their ranges,
/// everything else counts from the zero digit.
pub open spec fn spec_digit_val(c: u8, base: int) -> int {
    if base == 16 {
        if 0x30 <= c <= 0x39 {
            c - 0x30
        } else if 0x61 <= c <= 0x66 {
            10 + c - 0x61
        } else {
            10 + c - 0x41
        }
    } else {
        c - 0x30
    }
}

/// What decoding an integer literal's span yields: the checked value, or
/// none on overflow.
pub open spec fn spec_decode_int(src: Seq<u8>, span: Span) -> Option<i64> {
    match spec_decode_int_raw(src, span) {
        Some(v) => Some(v as i64),
        None => None,
    }
}

/// The checked accumulation that integer decoding runs, over the
/// mathematical integers.
pub open spec fn spec_decode_int_raw(src: Seq<u8>, span: Span) -> Option<int> {
    let lex = spec_slice(src, span);
    if lex.len() >= 2 && lex[0] == 0x30 && lex[1] == 0x62 {
        spec_int_accum(lex.subrange(2, lex.len() as int), 0, 2, 0)
    } else if lex.len() >= 2 && lex[0] == 0x30 && lex[1] == 0x6F {
        spec_int_accum(lex.subrange(2, lex.len() as int), 0, 8, 0)
    } else if lex.len() >= 2 && lex[0] == 0x30 && lex[1] == 0x78 {
        spec_int_accum(lex.subrange(2, lex.len() as int), 0, 16, 0)
    } else {
        spec_int_accum(lex, 0, 10, 0)
    }
}

/// Whether a float lexeme is valid: when an exponent marker `e` occurs,
/// at least one digit must follow its optional minus sign. This is the
/// one way a float token's text can fail to denote a number.
pub open spec fn spec_float_valid(lex: Seq<u8>) -> bool {
    forall|k: int|
        0 <= k < lex.len() && lex[k] == 0x65 ==> exists|m: int|
            (k + 1 <= m < lex.len() && (#[trigger] lex[m]) != 0x2D) && (0x30 <= lex[m] <= 0x39)
}


/// Remaining tokens from cursor `i`: the parser's progress measure.
pub open spec fn rem(tokens: Seq<Token>, i: int) -> int {
    if i <= tokens.len() {
        tokens.len() - i
    } else {
        0
    }
}

/// A sub-production's cursor, clamped into `[lo, hi]`; the executable
/// parser always stays in that range, so the clamp only serves the
/// termination of the spec mirror.
pub open spec fn adv(i2: int, lo: int, hi: int) -> int {
    if i2 < lo {
        lo
    } else if i2 > hi {
        hi
    } else {
        i2
    }
}

/// An executable optional pattern matches its spec counterpart.
pub open spec fn match_opt_pat(r: Option<Pat>, s: Option<PatV>) -> bool {
    match (r, s) {
        (Some(p), Some(pv)) => pat_view(p) == pv,
        (None, None) => true,
        _ => false,
    }
}

/// An executable optional pattern entry matches its spec counterpart.
pub open spec fn match_opt_pat_entry(r: Option<TupleEntry<Pat>>, s: Option<TupleEntry<PatV>>) -> bool {
    match (r, s) {
        (Some(TupleEntry::Pos(p)), Some(TupleEntry::Pos(pv))) => pat_view(p) == pv,
        (Some(TupleEntry::Named(k, p)), Some(TupleEntry::Named(kv, pv))) => k == kv && pat_view(p)
            == pv,
        (None, None) => true,
        _ => false,
    }
}

/// An executable optional pattern tuple matches its spec counterpart.
pub open spec fn match_opt_pat_tuple(r: Option<Tuple<Pat>>, s: Option<SpecTuple<PatV>>) -> bool {
    match (r, s) {
        (Some(t), Some(tv)) => pat_tuple_view(t) == tv,
        (None, None) => true,
        _ => false,
    }
}

/// What `symbol` does: consume a symbol literal, unescape and intern it.
pub open spec fn spec_symbol(tokens: Seq<Token>, src: Seq<u8>, i: int, strs: Seq<Seq<u8>>) -> SpecParsed<Sym> {
    match spec_accept(tokens, i, TokenKind::Sym) {
        (Some(span), i2) => match spec_unescape(src, span) {
            Ok(bytes) => SpecParsed {
                r: Ok(Some(intern_sym(strs, bytes))),
                i: i2,
                strs: intern_table(strs, bytes),
            },
            Err(e) => SpecParsed { r: Err(e), i: i2, strs },
        },
        (None, _) => SpecParsed { r: Ok(None), i, strs },
    }
}

/// What `string` does: consume a string literal and unescape it.
pub open spec fn spec_string(tokens: Seq<Token>, src: Seq<u8>, i: int, strs: Seq<Seq<u8>>) -> SpecParsed<Seq<u8>> {
    match spec_accept(tokens, i, TokenKind::Str) {
        (Some(span), i2) => match spec_unescape(src, span) {
            Ok(bytes) => SpecParsed { r: Ok(Some(bytes)), i: i2, strs },
            Err(e) => SpecParsed { r: Err(e), i: i2, strs },
        },
        (None, _) => SpecParsed { r: Ok(None), i, strs },
    }
}

/// What `int` does: consume an integer literal and decode it with
/// overflow checking.
pub open spec fn spec_int(tokens: Seq<Token>, src: Seq<u8>, i: int, strs: Seq<Seq<u8>>) -> SpecParsed<i64> {
    match spec_accept(tokens, i, TokenKind::Int) {
        (Some(span), i2) => match spec_decode_int(src, span) {
            Some(v) => SpecParsed { r: Ok(Some(v)), i: i2, strs },
            None => SpecParsed { r: Err(spec_error(ErrorKind::IntInvalid, span)), i: i2, strs },
        },
        (None, _) => SpecParsed { r: Ok(None), i, strs },
    }
}

/// What `float` does: consume a float literal and keep its text when an
/// exponent, if present, has at least one digit.
pub open spec fn spec_float(tokens: Seq<Token>, src: Seq<u8>, i: int, strs: Seq<Seq<u8>>) -> SpecParsed<Seq<u8>> {
    match spec_accept(tokens, i, TokenKind::Float) {
        (Some(span), i2) => {
            let lex = spec_slice(src, span);
            if spec_float_valid(lex) {
                SpecParsed { r: Ok(Some(lex)), i: i2, strs }
            } else {
                SpecParsed { r: Err(spec_error(ErrorKind::FloatInvalid, span)), i: i2, strs }
            }
        },
        (None, _) => SpecParsed { r: Ok(None), i, strs },
    }
}

/// What `bool_lit` does: consume a boolean keyword.
pub open spec fn spec_bool(tokens: Seq<Token>, i: int, strs: Seq<Seq<u8>>) -> SpecParsed<bool> {
    match spec_accept(tokens, i, TokenKind::True) {
        (Some(_), i2) => SpecParsed { r: Ok(Some(true)), i: i2, strs },
        (None, _) => match spec_accept(tokens, i, TokenKind::False) {
            (Some(_), i2) => SpecParsed { r: Ok(Some(false)), i: i2, strs },
            (None, _) => SpecParsed { r: Ok(None), i, strs },
        },
    }
}

/// What `pat` does.
#[verifier::opaque]
pub open spec fn spec_pat(tokens: Seq<Token>, src: Seq<u8>, i: int, strs: Seq<Seq<u8>>) -> (
    Option<PatV>,
    int,
    Seq<Seq<u8>>,
)
    decreases rem(tokens, i), 3int,
{
    let t = spec_pat_tuple(tokens, src, i, strs);
    if t.0 is Some {
        (Some(PatV::Tuple(t.0->Some_0)), t.1, t.2)
    } else {
        let (id, i2, s2) = spec_accept_sym(tokens, src, t.1, t.2, TokenKind::Ident);
        if id is Some {
            (Some(PatV::Ident(id->Some_0)), i2, s2)
        } else {
            let (cx, i3, s3) = spec_accept_sym(tokens, src, i2, s2, TokenKind::CtxIdent);
            if cx is Some {
                (Some(PatV::CtxIdent(cx->Some_0)), i3, s3)
            } else {
                (None, i3, s3)
            }
        }
    }
}

/// What `pat_tuple_entry` does: a named entry `ident: pat`, a bare
/// identifier as a positional identifier pattern, or a positional
/// pattern.
#[verifier::opaque]
pub open spec fn spec_pat_tuple_entry(tokens: Seq<Token>, src: Seq<u8>, i: int, strs: Seq<Seq<u8>>) -> (
    Option<TupleEntry<PatV>>,
    int,
    Seq<Seq<u8>>,
)
    decreases rem(tokens, i), 10int,
{
    let (id, i1, s1) = spec_accept_sym(tokens, src, i, strs, TokenKind::Ident);
    if id is Some {
        let key = id->Some_0;
        match spec_accept(tokens, i1, TokenKind::Colon) {
            (Some(_), i2) => {
                let (p, i3, s3) = spec_pat(tokens, src, adv(i2, i + 1, tokens.len() as int), s1);
                match p {
                    Some(pv) => (Some(TupleEntry::Named(key, pv)), i3, s3),
                    None => (Some(TupleEntry::Named(key, PatV::Ident(key))), i3, s3),
                }
            },
            (None, _) => (Some(TupleEntry::Pos(PatV::Ident(key))), i1, s1),
        }
    } else {
        let (p, i2, s2) = spec_pat(tokens, src, i1, s1);
        match p {
            Some(pv) => (Some(TupleEntry::Pos(pv)), i2, s2),
            None => (None, i2, s2),
        }
    }
}

/// The comma-separated continuation of a pattern tuple.
#[verifier::opaque]
pub open spec fn spec_pat_items(
    tokens: Seq<Token>,
    src: Seq<u8>,
    i: int,
    strs: Seq<Seq<u8>>,
    acc: Seq<TupleEntry<PatV>>,
) -> (Seq<TupleEntry<PatV>>, int, Seq<Seq<u8>>)
    decreases rem(tokens, i), 0int,
{
    match spec_accept(tokens, i, TokenKind::Comma) {
        (Some(_), i1) => {
            let (e, i2, s2) = spec_pat_tuple_entry(tokens, src, i1, strs);
            let i3 = adv(i2, i + 1, tokens.len() as int);
            match e {
                Some(entry) => spec_pat_items(tokens, src, i3, s2, acc.push(entry)),
                None => spec_pat_items(tokens, src, i3, s2, acc),
            }
        },
        (None, _) => (acc, i, strs),
    }
}

/// What `pat_tuple` does: a parenthesised, comma-separated tuple of
/// pattern entries. A missing closing parenthesis yields nothing, with
/// the cursor left where it stood.
#[verifier::opaque]
pub open spec fn spec_pat_tuple(tokens: Seq<Token>, src: Seq<u8>, i: int, strs: Seq<Seq<u8>>) -> (
    Option<SpecTuple<PatV>>,
    int,
    Seq<Seq<u8>>,
)
    decreases rem(tokens, i), 2int,
{
    match spec_accept(tokens, i, TokenKind::LParen) {
        (Some(_), i1) => {
            let (e, i2, s2) = spec_pat_tuple_entry(tokens, src, i1, strs);
            let i3 = adv(i2, i1, tokens.len() as int);
            let (entries, i4, s4) = match e {
                Some(entry) => spec_pat_items(tokens, src, i3, s2, seq![entry]),
                None => (Seq::<TupleEntry<PatV>>::empty(), i3, s2),
            };
            match spec_accept(tokens, i4, TokenKind::RParen) {
                (Some(_), i5) => (Some(spec_from_entries(entries)), i5, s4),
                (None, _) => (None, i4, s4),
            }
        },
        (None, _) => (None, i, strs),
    }
}


/// The outcome of a spec-level loop: its collected result, the cursor
/// after it, and the interner table after it.
pub struct SpecLoop<T> {
    pub r: Result<T, Error>,
    pub i: int,
    pub strs: Seq<Seq<u8>>,
}

/// What `tuple_entry` does: `ident : expr` is a named entry; a failed
/// colon lookahead backtracks the cursor (the interned identifier stays)
/// and any expression is a positional entry.
#[verifier::opaque]
pub open spec fn spec_tuple_entry(tokens: Seq<Token>, src: Seq<u8>, i: int, strs: Seq<Seq<u8>>) -> SpecParsed<TupleEntry<ExprV>>
    decreases rem(tokens, i), 10int,
{
    let (id, i1, s1) = spec_accept_sym(tokens, src, i, strs, TokenKind::Ident);
    if id is Some && spec_accept(tokens, i1, TokenKind::Colon).0 is Some {
        let key = id->Some_0;
        let e = spec_expr(tokens, src, i + 2, s1);
        match e.r {
            Ok(Some(ev)) => SpecParsed {
                r: Ok(Some(TupleEntry::Named(key, ev))),
                i: e.i,
                strs: e.strs,
            },
            Ok(None) => SpecParsed {
                r: Ok(
                    Some(
                        TupleEntry::Named(
                            key,
                            ExprV { ty: TyV::Unknown, kind: ExprKindV::Ident(key) },
                        ),
                    ),
                ),
                i: e.i,
                strs: e.strs,
            },
            Err(err) => SpecParsed { r: Err(err), i: e.i, strs: e.strs },
        }
    } else {
        let e = spec_expr(tokens, src, i, s1);
        match e.r {
            Ok(Some(ev)) => SpecParsed { r: Ok(Some(TupleEntry::Pos(ev))), i: e.i, strs: e.strs },
            Ok(None) => SpecParsed { r: Ok(None), i: e.i, strs: e.strs },
            Err(err) => SpecParsed { r: Err(err), i: e.i, strs: e.strs },
        }
    }
}

/// The comma-separated continuation of a tuple expression.
#[verifier::opaque]
pub open spec fn spec_tuple_items(
    tokens: Seq<Token>,
    src: Seq<u8>,
    i: int,
    strs: Seq<Seq<u8>>,
    acc: Seq<TupleEntry<ExprV>>,
) -> SpecLoop<Seq<TupleEntry<ExprV>>>
    decreases rem(tokens, i), 0int,
{
    match spec_accept(tokens, i, TokenKind::Comma) {
        (Some(_), i1) => {
            let e = spec_tuple_entry(tokens, src, i1, strs);
            let i2 = adv(e.i, i + 1, tokens.len() as int);
            match e.r {
                Ok(Some(entry)) => spec_tuple_items(tokens, src, i2, e.strs, acc.push(entry)),
                Ok(None) => spec_tuple_items(tokens, src, i2, e.strs, acc),
                Err(err) => SpecLoop { r: Err(err), i: i2, strs: e.strs },
            }
        },
        (None, _) => SpecLoop { r: Ok(acc), i, strs },
    }
}

/// What `tuple` does: a parenthesised, comma-separated tuple of entries;
/// a missing closing parenthesis is a delimiter error at the opening one.
#[verifier::opaque]
pub open spec fn spec_tuple(tokens: Seq<Token>, src: Seq<u8>, i: int, strs: Seq<Seq<u8>>) -> SpecParsed<SpecTuple<ExprV>>
    decreases rem(tokens, i), 4int,
{
    match spec_accept(tokens, i, TokenKind::LParen) {
        (Some(lparen), i1) => {
            let e = spec_tuple_entry(tokens, src, i1, strs);
            let i2 = adv(e.i, i1, tokens.len() as int);
            match e.r {
                Err(err) => SpecParsed { r: Err(err), i: i2, strs: e.strs },
                Ok(first) => {
                    let w = match first {
                        Some(entry) => spec_tuple_items(tokens, src, i2, e.strs, seq![entry]),
                        None => SpecLoop {
                            r: Ok(Seq::<TupleEntry<ExprV>>::empty()),
                            i: i2,
                            strs: e.strs,
                        },
                    };
                    match w.r {
                        Err(err) => SpecParsed { r: Err(err), i: w.i, strs: w.strs },
                        Ok(entries) => match spec_accept(tokens, w.i, TokenKind::RParen) {
                            (Some(_), i3) => SpecParsed {
                                r: Ok(Some(spec_from_entries(entries))),
                                i: i3,
                                strs: w.strs,
                            },
                            (None, _) => SpecParsed {
                                r: Err(spec_error(ErrorKind::Delimiters, lparen)),
                                i: w.i,
                                strs: w.strs,
                            },
                        },
                    }
                },
            }
        },
        (None, _) => SpecParsed { r: Ok(None), i, strs },
    }
}

/// The comma-separated continuation of a list literal.
#[verifier::opaque]
pub open spec fn spec_list_items(
    tokens: Seq<Token>,
    src: Seq<u8>,
    i: int,
    strs: Seq<Seq<u8>>,
    acc: Seq<ExprV>,
) -> SpecLoop<Seq<ExprV>>
    decreases rem(tokens, i), 0int,
{
    match spec_accept(tokens, i, TokenKind::Comma) {
        (Some(_), i1) => {
            let e = spec_expr(tokens, src, i1, strs);
            let i2 = adv(e.i, i + 1, tokens.len() as int);
            match e.r {
                Ok(Some(ev)) => spec_list_items(tokens, src, i2, e.strs, acc.push(ev)),
                Ok(None) => spec_list_items(tokens, src, i2, e.strs, acc),
                Err(err) => SpecLoop { r: Err(err), i: i2, strs: e.strs },
            }
        },
        (None, _) => SpecLoop { r: Ok(acc), i, strs },
    }
}

/// What `list` does: a bracketed, comma-separated list of expressions; a
/// missing closing bracket is a delimiter error at the opening one.
#[verifier::opaque]
pub open spec fn spec_list(tokens: Seq<Token>, src: Seq<u8>, i: int, strs: Seq<Seq<u8>>) -> SpecParsed<Seq<ExprV>>
    decreases rem(tokens, i), 4int,
{
    match spec_accept(tokens, i, TokenKind::LBracket) {
        (Some(lbracket), i1) => {
            let e = spec_expr(tokens, src, i1, strs);
            let i2 = adv(e.i, i1, tokens.len() as int);
            match e.r {
                Err(err) => SpecParsed { r: Err(err), i: i2, strs: e.strs },
                Ok(first) => {
                    let w = match first {
                        Some(ev) => spec_list_items(tokens, src, i2, e.strs, seq![ev]),
                        None => SpecLoop { r: Ok(Seq::<ExprV>::empty()), i: i2, strs: e.strs },
                    };
                    match w.r {
                        Err(err) => SpecParsed { r: Err(err), i: w.i, strs: w.strs },
                        Ok(exprs) => match spec_accept(tokens, w.i, TokenKind::RBracket) {
                            (Some(_), i3) => SpecParsed { r: Ok(Some(exprs)), i: i3, strs: w.strs },
                            (None, _) => SpecParsed {
                                r: Err(spec_error(ErrorKind::Delimiters, lbracket)),
                                i: w.i,
                                strs: w.strs,
                            },
                        },
                    }
                },
            }
        },
        (None, _) => SpecParsed { r: Ok(None), i, strs },
    }
}

/// What `stmt` does: a let binding, possibly with parameter sugar turning
/// it into a function, or a bare expression.
#[verifier::opaque]
pub open spec fn spec_stmt(tokens: Seq<Token>, src: Seq<u8>, i: int, strs: Seq<Seq<u8>>) -> SpecParsed<StmtV>
    decreases rem(tokens, i), 11int,
{
    match spec_accept(tokens, i, TokenKind::Let) {
        (Some(_), i1) => {
            let (p, i2, s2) = spec_pat(tokens, src, i1, strs);
            match p {
                None => SpecParsed { r: Err(spec_invalid_token(tokens, i2)), i: i2, strs: s2 },
                Some(pv) => {
                    let (args, i3, s3) = spec_pat_tuple(
                        tokens,
                        src,
                        adv(i2, i, tokens.len() as int),
                        s2,
                    );
                    match spec_accept(tokens, i3, TokenKind::Eq) {
                        (None, _) => SpecParsed {
                            r: Err(spec_invalid_token(tokens, i3)),
                            i: i3,
                            strs: s3,
                        },
                        (Some(_), i4) => {
                            let e = spec_expr(tokens, src, adv(i4, i + 1, tokens.len() as int), s3);
                            match e.r {
                                Err(err) => SpecParsed { r: Err(err), i: e.i, strs: e.strs },
                                Ok(None) => SpecParsed {
                                    r: Err(spec_invalid_token(tokens, e.i)),
                                    i: e.i,
                                    strs: e.strs,
                                },
                                Ok(Some(ev)) => match args {
                                    Some(argsv) => SpecParsed {
                                        r: Ok(
                                            Some(
                                                StmtV::Let(
                                                    pv,
                                                    ExprV {
                                                        ty: TyV::Unknown,
                                                        kind: ExprKindV::Fn(argsv, Box::new(ev)),
                                                    },
                                                ),
                                            ),
                                        ),
                                        i: e.i,
                                        strs: e.strs,
                                    },
                                    None => SpecParsed {
                                        r: Ok(Some(StmtV::Let(pv, ev))),
                                        i: e.i,
                                        strs: e.strs,
                                    },
                                },
                            }
                        },
                    }
                },
            }
        },
        (None, _) => {
            let e = spec_expr(tokens, src, i, strs);
            match e.r {
                Ok(Some(ev)) => SpecParsed { r: Ok(Some(StmtV::Expr(ev))), i: e.i, strs: e.strs },
                Ok(None) => SpecParsed { r: Ok(None), i: e.i, strs: e.strs },
                Err(err) => SpecParsed { r: Err(err), i: e.i, strs: e.strs },
            }
        },
    }
}

/// The comma-separated continuation of a statement sequence.
#[verifier::opaque]
pub open spec fn spec_stmts_rest(
    tokens: Seq<Token>,
    src: Seq<u8>,
    i: int,
    strs: Seq<Seq<u8>>,
    acc: Seq<StmtV>,
) -> SpecLoop<Seq<StmtV>>
    decreases rem(tokens, i), 0int,
{
    match spec_accept(tokens, i, TokenKind::Comma) {
        (Some(_), i1) => {
            let e = spec_stmt(tokens, src, i1, strs);
            let i2 = adv(e.i, i + 1, tokens.len() as int);
            match e.r {
                Ok(Some(st)) => spec_stmts_rest(tokens, src, i2, e.strs, acc.push(st)),
                Ok(None) => spec_stmts_rest(tokens, src, i2, e.strs, acc),
                Err(err) => SpecLoop { r: Err(err), i: i2, strs: e.strs },
            }
        },
        (None, _) => SpecLoop { r: Ok(acc), i, strs },
    }
}

/// What `stmts` does: a possibly empty, comma-separated statement
/// sequence.
#[verifier::opaque]
pub open spec fn spec_stmts(tokens: Seq<Token>, src: Seq<u8>, i: int, strs: Seq<Seq<u8>>) -> SpecLoop<Seq<StmtV>>
    decreases rem(tokens, i), 12int,
{
    let e = spec_stmt(tokens, src, i, strs);
    let i2 = adv(e.i, i, tokens.len() as int);
    match e.r {
        Err(err) => SpecLoop { r: Err(err), i: i2, strs: e.strs },
        Ok(None) => SpecLoop { r: Ok(Seq::<StmtV>::empty()), i: i2, strs: e.strs },
        Ok(Some(st)) => spec_stmts_rest(tokens, src, i2, e.strs, seq![st]),
    }
}

/// What `block` does: a braced statement sequence, with the collapses: an
/// empty block is `Void`, a block holding exactly one expression
/// statement is that expression.
#[verifier::opaque]
pub open spec fn spec_block(tokens: Seq<Token>, src: Seq<u8>, i: int, strs: Seq<Seq<u8>>) -> SpecParsed<ExprV>
    decreases rem(tokens, i), 4int,
{
    match spec_accept(tokens, i, TokenKind::LBrace) {
        (Some(lbrace), i1) => {
            let w = spec_stmts(tokens, src, i1, strs);
            let i2 = adv(w.i, i1, tokens.len() as int);
            match w.r {
                Err(err) => SpecParsed { r: Err(err), i: i2, strs: w.strs },
                Ok(sts) => match spec_accept(tokens, i2, TokenKind::RBrace) {
                    (None, _) => SpecParsed {
                        r: Err(spec_error(ErrorKind::Delimiters, lbrace)),
                        i: i2,
                        strs: w.strs,
                    },
                    (Some(_), i3) => {
                        if sts.len() == 0 {
                            SpecParsed {
                                r: Ok(Some(ExprV { ty: TyV::Unknown, kind: ExprKindV::Void })),
                                i: i3,
                                strs: w.strs,
                            }
                        } else if sts.len() == 1 && sts[0] is Expr {
                            SpecParsed { r: Ok(Some(sts[0]->Expr_0)), i: i3, strs: w.strs }
                        } else {
                            SpecParsed {
                                r: Ok(
                                    Some(ExprV { ty: TyV::Unknown, kind: ExprKindV::Block(sts) }),
                                ),
                                i: i3,
                                strs: w.strs,
                            }
                        }
                    },
                },
            }
        },
        (None, _) => SpecParsed { r: Ok(None), i, strs },
    }
}

/// The literal tail of an atom: identifiers, context identifiers,
/// symbol, string, integer, float and boolean literals.
#[verifier::opaque]
pub open spec fn spec_atom_lit(tokens: Seq<Token>, src: Seq<u8>, i: int, strs: Seq<Seq<u8>>) -> SpecParsed<ExprV> {
    let (id, i4, s4) = spec_accept_sym(tokens, src, i, strs, TokenKind::Ident);
    if id is Some {
        SpecParsed {
            r: Ok(Some(ExprV { ty: TyV::Unknown, kind: ExprKindV::Ident(id->Some_0) })),
            i: i4,
            strs: s4,
        }
    } else {
        let (cx, i5, s5) = spec_accept_sym(tokens, src, i4, s4, TokenKind::CtxIdent);
        if cx is Some {
            SpecParsed {
                r: Ok(Some(ExprV { ty: TyV::Unknown, kind: ExprKindV::CtxIdent(cx->Some_0) })),
                i: i5,
                strs: s5,
            }
        } else {
            let sy = spec_symbol(tokens, src, i5, s5);
            if !(sy.r is Ok && sy.r->Ok_0 is None) {
                match sy.r {
                    Ok(Some(symv)) => SpecParsed {
                        r: Ok(Some(ExprV { ty: TyV::Unknown, kind: ExprKindV::Sym(symv) })),
                        i: sy.i,
                        strs: sy.strs,
                    },
                    _ => SpecParsed { r: Err(sy.r->Err_0), i: sy.i, strs: sy.strs },
                }
            } else {
                let st = spec_string(tokens, src, sy.i, sy.strs);
                if !(st.r is Ok && st.r->Ok_0 is None) {
                    match st.r {
                        Ok(Some(sv)) => SpecParsed {
                            r: Ok(Some(ExprV { ty: TyV::Unknown, kind: ExprKindV::Str(sv) })),
                            i: st.i,
                            strs: st.strs,
                        },
                        _ => SpecParsed { r: Err(st.r->Err_0), i: st.i, strs: st.strs },
                    }
                } else {
                    let n = spec_int(tokens, src, st.i, st.strs);
                    if !(n.r is Ok && n.r->Ok_0 is None) {
                        match n.r {
                            Ok(Some(v)) => SpecParsed {
                                r: Ok(Some(ExprV { ty: TyV::Unknown, kind: ExprKindV::Int(v) })),
                                i: n.i,
                                strs: n.strs,
                            },
                            _ => SpecParsed { r: Err(n.r->Err_0), i: n.i, strs: n.strs },
                        }
                    } else {
                        let f = spec_float(tokens, src, n.i, n.strs);
                        if !(f.r is Ok && f.r->Ok_0 is None) {
                            match f.r {
                                Ok(Some(fv)) => SpecParsed {
                                    r: Ok(
                                        Some(
                                            ExprV { ty: TyV::Unknown, kind: ExprKindV::Float(fv) },
                                        ),
                                    ),
                                    i: f.i,
                                    strs: f.strs,
                                },
                                _ => SpecParsed { r: Err(f.r->Err_0), i: f.i, strs: f.strs },
                            }
                        } else {
                            let bo = spec_bool(tokens, f.i, f.strs);
                            match bo.r {
                                Ok(Some(bv)) => SpecParsed {
                                    r: Ok(
                                        Some(
                                            ExprV { ty: TyV::Unknown, kind: ExprKindV::Bool(bv) },
                                        ),
                                    ),
                                    i: bo.i,
                                    strs: bo.strs,
                                },
                                _ => SpecParsed { r: Ok(None), i: bo.i, strs: bo.strs },
                            }
                        }
                    }
                }
            }
        }
    }
}

/// What `atom` does: each closed-form expression in turn.
#[verifier::opaque]
pub open spec fn spec_atom(tokens: Seq<Token>, src: Seq<u8>, i: int, strs: Seq<Seq<u8>>) -> SpecParsed<ExprV>
    decreases rem(tokens, i), 5int,
{
    let t = spec_tuple(tokens, src, i, strs);
    if !(t.r is Ok && t.r->Ok_0 is None) {
        match t.r {
            Ok(Some(tv)) => SpecParsed {
                r: Ok(Some(ExprV { ty: TyV::Unknown, kind: ExprKindV::Tuple(tv) })),
                i: t.i,
                strs: t.strs,
            },
            _ => SpecParsed { r: Err(t.r->Err_0), i: t.i, strs: t.strs },
        }
    } else {
        let l = spec_list(tokens, src, adv(t.i, i, tokens.len() as int), t.strs);
        if !(l.r is Ok && l.r->Ok_0 is None) {
            match l.r {
                Ok(Some(lv)) => SpecParsed {
                    r: Ok(Some(ExprV { ty: TyV::Unknown, kind: ExprKindV::List(lv) })),
                    i: l.i,
                    strs: l.strs,
                },
                _ => SpecParsed { r: Err(l.r->Err_0), i: l.i, strs: l.strs },
            }
        } else {
            let b = spec_block(tokens, src, adv(l.i, i, tokens.len() as int), l.strs);
            if !(b.r is Ok && b.r->Ok_0 is None) {
                b
            } else {
                spec_atom_lit(tokens, src, adv(b.i, i, tokens.len() as int), b.strs)
            }
        }
    }
}

/// The fold of repeated call-argument tuples after an atom: `f(x)(y)`.
#[verifier::opaque]
pub open spec fn spec_call_args(tokens: Seq<Token>, src: Seq<u8>, i: int, strs: Seq<Seq<u8>>, f: ExprV) -> SpecParsed<ExprV>
    decreases rem(tokens, i), 5int,
{
    if spec_accept(tokens, i, TokenKind::LParen).0 is None {
        SpecParsed { r: Ok(Some(f)), i, strs }
    } else {
        let t = spec_tuple(tokens, src, i, strs);
        match t.r {
            Err(err) => SpecParsed { r: Err(err), i: t.i, strs: t.strs },
            Ok(None) => SpecParsed { r: Ok(Some(f)), i: t.i, strs: t.strs },
            Ok(Some(tv)) => spec_call_args(
                tokens,
                src,
                adv(t.i, i + 1, tokens.len() as int),
                t.strs,
                ExprV { ty: TyV::Unknown, kind: ExprKindV::Call(Box::new(f), tv) },
            ),
        }
    }
}

/// The Pratt loop over binary operators: operators weaker than the
/// minimum precedence are left for the caller.
#[verifier::opaque]
pub open spec fn spec_binops(
    tokens: Seq<Token>,
    src: Seq<u8>,
    i: int,
    strs: Seq<Seq<u8>>,
    min_prec: u8,
    left: ExprV,
) -> SpecParsed<ExprV>
    decreases rem(tokens, i), 0int,
{
    match tok_at(tokens, i) {
        Some(t) => match spec_bin_op_of(t.kind) {
            Some((op, l_prec, r_prec)) => {
                if l_prec < min_prec {
                    SpecParsed { r: Ok(Some(left)), i, strs }
                } else {
                    let e = spec_expr_prec(tokens, src, i + 1, strs, r_prec);
                    let i2 = adv(e.i, i + 1, tokens.len() as int);
                    match e.r {
                        Ok(Some(rv)) => spec_binops(
                            tokens,
                            src,
                            i2,
                            e.strs,
                            min_prec,
                            ExprV {
                                ty: TyV::Unknown,
                                kind: ExprKindV::BinOp(op, Box::new(left), Box::new(rv)),
                            },
                        ),
                        Ok(None) => SpecParsed {
                            r: Err(spec_invalid_token(tokens, i2)),
                            i: i2,
                            strs: e.strs,
                        },
                        Err(err) => SpecParsed { r: Err(err), i: i2, strs: e.strs },
                    }
                }
            },
            None => SpecParsed { r: Ok(Some(left)), i, strs },
        },
        None => SpecParsed { r: Ok(Some(left)), i, strs },
    }
}

/// What `expr_with_precedence` does: a unary operator or an atom with its
/// call arguments, then the binary-operator fold.
#[verifier::opaque]
pub open spec fn spec_expr_prec(tokens: Seq<Token>, src: Seq<u8>, i: int, strs: Seq<Seq<u8>>, min_prec: u8) -> SpecParsed<ExprV>
    decreases rem(tokens, i), 6int,
{
    let un = match tok_at(tokens, i) {
        Some(t) => spec_un_op_of(t.kind),
        None => None,
    };
    match un {
        Some((op, r_prec)) => {
            let e = spec_expr_prec(tokens, src, i + 1, strs, r_prec);
            let i2 = adv(e.i, i + 1, tokens.len() as int);
            match e.r {
                Ok(Some(rv)) => spec_binops(
                    tokens,
                    src,
                    i2,
                    e.strs,
                    min_prec,
                    ExprV { ty: TyV::Unknown, kind: ExprKindV::UnOp(op, Box::new(rv)) },
                ),
                Ok(None) => SpecParsed {
                    r: Err(spec_invalid_token(tokens, i2)),
                    i: i2,
                    strs: e.strs,
                },
                Err(err) => SpecParsed { r: Err(err), i: i2, strs: e.strs },
            }
        },
        None => {
            let a = spec_atom(tokens, src, i, strs);
            match a.r {
                Err(err) => SpecParsed { r: Err(err), i: a.i, strs: a.strs },
                Ok(None) => SpecParsed { r: Ok(None), i: a.i, strs: a.strs },
                Ok(Some(av)) => {
                    let c = spec_call_args(
                        tokens,
                        src,
                        adv(a.i, i + 1, tokens.len() as int),
                        a.strs,
                        av,
                    );
                    match c.r {
                        Err(err) => SpecParsed { r: Err(err), i: c.i, strs: c.strs },
                        Ok(None) => SpecParsed { r: Ok(None), i: c.i, strs: c.strs },
                        Ok(Some(cv)) => spec_binops(
                            tokens,
                            src,
                            adv(c.i, i + 1, tokens.len() as int),
                            c.strs,
                            min_prec,
                            cv,
                        ),
                    }
                },
            }
        },
    }
}

/// What `function_args` does: `|`-delimited, comma-separated parameter
/// patterns; a missing closing bar is an invalid token.
#[verifier::opaque]
pub open spec fn spec_function_args(tokens: Seq<Token>, src: Seq<u8>, i: int, strs: Seq<Seq<u8>>) -> SpecParsed<SpecTuple<PatV>>
    decreases rem(tokens, i), 6int,
{
    match spec_accept(tokens, i, TokenKind::Or) {
        (Some(_), i1) => {
            let (e, i2, s2) = spec_pat_tuple_entry(tokens, src, i1, strs);
            let i3 = adv(i2, i1, tokens.len() as int);
            let (args, i4, s4) = match e {
                Some(entry) => spec_pat_items(tokens, src, i3, s2, seq![entry]),
                None => (Seq::<TupleEntry<PatV>>::empty(), i3, s2),
            };
            match spec_accept(tokens, i4, TokenKind::Or) {
                (Some(_), i5) => SpecParsed { r: Ok(Some(spec_from_entries(args))), i: i5, strs: s4 },
                (None, _) => SpecParsed { r: Err(spec_invalid_token(tokens, i4)), i: i4, strs: s4 },
            }
        },
        (None, _) => SpecParsed { r: Ok(None), i, strs },
    }
}

/// What `function` does: a parameter list and one body expression, or
/// `Void` when the body is absent.
#[verifier::opaque]
pub open spec fn spec_function(tokens: Seq<Token>, src: Seq<u8>, i: int, strs: Seq<Seq<u8>>) -> SpecParsed<ExprV>
    decreases rem(tokens, i), 7int,
{
    if spec_accept(tokens, i, TokenKind::Or).0 is None {
        SpecParsed { r: Ok(None), i, strs }
    } else {
        let a = spec_function_args(tokens, src, i, strs);
        match a.r {
            Err(err) => SpecParsed { r: Err(err), i: a.i, strs: a.strs },
            Ok(None) => SpecParsed { r: Ok(None), i: a.i, strs: a.strs },
            Ok(Some(argsv)) => {
                let e = spec_expr(tokens, src, adv(a.i, i + 1, tokens.len() as int), a.strs);
                let body = match e.r {
                    Ok(Some(ev)) => ev,
                    _ => ExprV { ty: TyV::Unknown, kind: ExprKindV::Void },
                };
                match e.r {
                    Err(err) => SpecParsed { r: Err(err), i: e.i, strs: e.strs },
                    _ => SpecParsed {
                        r: Ok(
                            Some(
                                ExprV {
                                    ty: TyV::Unknown,
                                    kind: ExprKindV::Fn(argsv, Box::new(body)),
                                },
                            ),
                        ),
                        i: e.i,
                        strs: e.strs,
                    },
                }
            },
        }
    }
}

/// What `if_else` does: a condition, a braced then-branch, and an else
/// branch that is a chained if or a braced block.
#[verifier::opaque]
pub open spec fn spec_if_else(tokens: Seq<Token>, src: Seq<u8>, i: int, strs: Seq<Seq<u8>>) -> SpecParsed<ExprV>
    decreases rem(tokens, i), 7int,
{
    match spec_accept(tokens, i, TokenKind::If) {
        (Some(_), i1) => {
            let c = spec_expr(tokens, src, i1, strs);
            let i2 = adv(c.i, i + 1, tokens.len() as int);
            match c.r {
                Err(err) => SpecParsed { r: Err(err), i: i2, strs: c.strs },
                Ok(None) => SpecParsed {
                    r: Err(spec_invalid_token(tokens, i2)),
                    i: i2,
                    strs: c.strs,
                },
                Ok(Some(cond)) => {
                    let t = spec_block(tokens, src, i2, c.strs);
                    let i3 = adv(t.i, i + 1, tokens.len() as int);
                    match t.r {
                        Err(err) => SpecParsed { r: Err(err), i: i3, strs: t.strs },
                        Ok(None) => SpecParsed {
                            r: Err(spec_invalid_token(tokens, i3)),
                            i: i3,
                            strs: t.strs,
                        },
                        Ok(Some(then_v)) => match spec_accept(tokens, i3, TokenKind::Else) {
                            (None, _) => SpecParsed {
                                r: Err(spec_invalid_token(tokens, i3)),
                                i: i3,
                                strs: t.strs,
                            },
                            (Some(_), i4) => {
                                let el = spec_if_else(tokens, src, i4, t.strs);
                                let i5 = adv(el.i, i + 1, tokens.len() as int);
                                match el.r {
                                    Err(err) => SpecParsed { r: Err(err), i: i5, strs: el.strs },
                                    Ok(Some(ev)) => SpecParsed {
                                        r: Ok(
                                            Some(
                                                ExprV {
                                                    ty: TyV::Unknown,
                                                    kind: ExprKindV::IfElse(
                                                        Box::new(cond),
                                                        Box::new(then_v),
                                                        Box::new(ev),
                                                    ),
                                                },
                                            ),
                                        ),
                                        i: i5,
                                        strs: el.strs,
                                    },
                                    Ok(None) => {
                                        let b = spec_block(tokens, src, i5, el.strs);
                                        let i6 = adv(b.i, i + 1, tokens.len() as int);
                                        match b.r {
                                            Err(err) => SpecParsed {
                                                r: Err(err),
                                                i: i6,
                                                strs: b.strs,
                                            },
                                            Ok(None) => SpecParsed {
                                                r: Err(spec_invalid_token(tokens, i6)),
                                                i: i6,
                                                strs: b.strs,
                                            },
                                            Ok(Some(bv)) => SpecParsed {
                                                r: Ok(
                                                    Some(
                                                        ExprV {
                                                            ty: TyV::Unknown,
                                                            kind: ExprKindV::IfElse(
                                                                Box::new(cond),
                                                                Box::new(then_v),
                                                                Box::new(bv),
                                                            ),
                                                        },
                                                    ),
                                                ),
                                                i: i6,
                                                strs: b.strs,
                                            },
                                        }
                                    },
                                }
                            },
                        },
                    }
                },
            }
        },
        (None, _) => SpecParsed { r: Ok(None), i, strs },
    }
}

/// What `for_loop` does: `for` is reserved but has no grammar yet, so a
/// `for` token is reported as an invalid token.
#[verifier::opaque]
pub open spec fn spec_for_loop(tokens: Seq<Token>, src: Seq<u8>, i: int, strs: Seq<Seq<u8>>) -> SpecParsed<ExprV>
    decreases rem(tokens, i), 7int,
{
    match spec_accept(tokens, i, TokenKind::For) {
        (Some(_), i1) => SpecParsed { r: Err(spec_invalid_token(tokens, i1)), i: i1, strs },
        (None, _) => SpecParsed { r: Ok(None), i, strs },
    }
}

/// What `expr` does: a function literal, an if-else, the reserved `for`,
/// or precedence climbing from the minimum precedence.
#[verifier::opaque]
pub open spec fn spec_expr(tokens: Seq<Token>, src: Seq<u8>, i: int, strs: Seq<Seq<u8>>) -> SpecParsed<ExprV>
    decreases rem(tokens, i), 8int,
{
    let f = spec_function(tokens, src, i, strs);
    if !(f.r is Ok && f.r->Ok_0 is None) {
        f
    } else {
        let g = spec_if_else(tokens, src, adv(f.i, i, tokens.len() as int), f.strs);
        if !(g.r is Ok && g.r->Ok_0 is None) {
            g
        } else {
            let h = spec_for_loop(tokens, src, adv(g.i, i, tokens.len() as int), g.strs);
            if !(h.r is Ok && h.r->Ok_0 is None) {
                h
            } else {
                spec_expr_prec(tokens, src, adv(h.i, i, tokens.len() as int), h.strs, 0)
            }
        }
    }
}


/// The dotted continuation of a module path; a dot not followed by an
/// identifier stays consumed and ends the path.
#[verifier::opaque]
pub open spec fn spec_segments(
    tokens: Seq<Token>,
    src: Seq<u8>,
    i: int,
    strs: Seq<Seq<u8>>,
    acc: Seq<Sym>,
) -> (Seq<Sym>, int, Seq<Seq<u8>>)
    decreases rem(tokens, i), 0int,
{
    match spec_accept(tokens, i, TokenKind::Period) {
        (Some(_), i1) => {
            let (id, i2, s2) = spec_accept_sym(tokens, src, i1, strs, TokenKind::Ident);
            match id {
                Some(seg) => spec_segments(tokens, src, i2, s2, acc.push(seg)),
                None => (acc, i1, strs),
            }
        },
        (None, _) => (acc, i, strs),
    }
}

/// What `mod_path` does: an optional leading dot marking a local
/// path, then dot-separated segments.
#[verifier::opaque]
pub open spec fn spec_mod_path(tokens: Seq<Token>, src: Seq<u8>, i: int, strs: Seq<Seq<u8>>) -> SpecParsed<ModPathV>
    decreases rem(tokens, i), 11int,
{
    let (dot, i1) = spec_accept(tokens, i, TokenKind::Period);
    let local = dot is Some;
    let (id, i2, s2) = spec_accept_sym(tokens, src, i1, strs, TokenKind::Ident);
    match id {
        Some(seg) => {
            let (segs, i3, s3) = spec_segments(
                tokens,
                src,
                adv(i2, i, tokens.len() as int),
                s2,
                seq![seg],
            );
            SpecParsed { r: Ok(Some(ModPathV { local, segments: segs })), i: i3, strs: s3 }
        },
        None => SpecParsed { r: Ok(None), i, strs },
    }
}

/// The comma-separated continuation of a binding list.
#[verifier::opaque]
pub open spec fn spec_bindings_rest(
    tokens: Seq<Token>,
    src: Seq<u8>,
    i: int,
    strs: Seq<Seq<u8>>,
    acc: Seq<(Sym, Sym)>,
) -> (Seq<(Sym, Sym)>, int, Seq<Seq<u8>>)
    decreases rem(tokens, i), 0int,
{
    match spec_accept(tokens, i, TokenKind::Comma) {
        (Some(_), i1) => {
            let (id, i2, s2) = spec_accept_sym(tokens, src, i1, strs, TokenKind::Ident);
            match id {
                Some(b) => spec_bindings_rest(tokens, src, i2, s2, acc.push((b, b))),
                None => spec_bindings_rest(tokens, src, i2, s2, acc),
            }
        },
        (None, _) => (acc, i, strs),
    }
}

/// What `bindings` does: a parenthesised, comma-separated list of names,
/// each binding a name to itself.
#[verifier::opaque]
pub open spec fn spec_bindings(tokens: Seq<Token>, src: Seq<u8>, i: int, strs: Seq<Seq<u8>>) -> SpecParsed<Seq<(Sym, Sym)>>
    decreases rem(tokens, i), 11int,
{
    match spec_accept(tokens, i, TokenKind::LParen) {
        (Some(_), i1) => {
            let (id, i2, s2) = spec_accept_sym(tokens, src, i1, strs, TokenKind::Ident);
            let (bs, i3, s3) = match id {
                Some(b) => spec_bindings_rest(tokens, src, i2, s2, seq![(b, b)]),
                None => (Seq::<(Sym, Sym)>::empty(), i2, s2),
            };
            match spec_accept(tokens, i3, TokenKind::RParen) {
                (Some(_), i4) => SpecParsed { r: Ok(Some(bs)), i: i4, strs: s3 },
                (None, _) => SpecParsed { r: Err(spec_invalid_token(tokens, i3)), i: i3, strs: s3 },
            }
        },
        (None, _) => SpecParsed { r: Ok(None), i, strs },
    }
}

/// What `dep` does: a module path and its bindings.
#[verifier::opaque]
pub open spec fn spec_dep(tokens: Seq<Token>, src: Seq<u8>, i: int, strs: Seq<Seq<u8>>) -> SpecParsed<DepV>
    decreases rem(tokens, i), 12int,
{
    let p = spec_mod_path(tokens, src, i, strs);
    match p.r {
        Err(err) => SpecParsed { r: Err(err), i: p.i, strs: p.strs },
        Ok(None) => SpecParsed { r: Ok(None), i: p.i, strs: p.strs },
        Ok(Some(path)) => {
            let b = spec_bindings(tokens, src, adv(p.i, i, tokens.len() as int), p.strs);
            match b.r {
                Err(err) => SpecParsed { r: Err(err), i: b.i, strs: b.strs },
                Ok(None) => SpecParsed {
                    r: Err(spec_invalid_token(tokens, b.i)),
                    i: b.i,
                    strs: b.strs,
                },
                Ok(Some(bindings)) => SpecParsed {
                    r: Ok(Some(DepV { path, bindings })),
                    i: b.i,
                    strs: b.strs,
                },
            }
        },
    }
}

/// The comma-separated continuation of a dependency list.
#[verifier::opaque]
pub open spec fn spec_deps_rest(
    tokens: Seq<Token>,
    src: Seq<u8>,
    i: int,
    strs: Seq<Seq<u8>>,
    acc: Seq<DepV>,
) -> SpecLoop<Seq<DepV>>
    decreases rem(tokens, i), 0int,
{
    match spec_accept(tokens, i, TokenKind::Comma) {
        (Some(_), i1) => {
            let d = spec_dep(tokens, src, i1, strs);
            let i2 = adv(d.i, i + 1, tokens.len() as int);
            match d.r {
                Ok(Some(dv)) => spec_deps_rest(tokens, src, i2, d.strs, acc.push(dv)),
                Ok(None) => spec_deps_rest(tokens, src, i2, d.strs, acc),
                Err(err) => SpecLoop { r: Err(err), i: i2, strs: d.strs },
            }
        },
        (None, _) => SpecLoop { r: Ok(acc), i, strs },
    }
}

/// What `deps` does: an optional braced `use` list of dependencies.
#[verifier::opaque]
pub open spec fn spec_deps(tokens: Seq<Token>, src: Seq<u8>, i: int, strs: Seq<Seq<u8>>) -> SpecLoop<Seq<DepV>>
    decreases rem(tokens, i), 13int,
{
    match spec_accept(tokens, i, TokenKind::Use) {
        (None, _) => SpecLoop { r: Ok(Seq::<DepV>::empty()), i, strs },
        (Some(_), i1) => match spec_accept(tokens, i1, TokenKind::LBrace) {
            (None, _) => SpecLoop { r: Err(spec_invalid_token(tokens, i1)), i: i1, strs },
            (Some(_), i2) => {
                let d = spec_dep(tokens, src, i2, strs);
                let i3 = adv(d.i, i2, tokens.len() as int);
                match d.r {
                    Err(err) => SpecLoop { r: Err(err), i: i3, strs: d.strs },
                    Ok(first) => {
                        let w = match first {
                            Some(dv) => spec_deps_rest(tokens, src, i3, d.strs, seq![dv]),
                            None => SpecLoop { r: Ok(Seq::<DepV>::empty()), i: i3, strs: d.strs },
                        };
                        match w.r {
                            Err(err) => SpecLoop { r: Err(err), i: w.i, strs: w.strs },
                            Ok(ds) => match spec_accept(tokens, w.i, TokenKind::RBrace) {
                                (Some(_), i4) => SpecLoop { r: Ok(ds), i: i4, strs: w.strs },
                                (None, _) => SpecLoop {
                                    r: Err(spec_invalid_token(tokens, w.i)),
                                    i: w.i,
                                    strs: w.strs,
                                },
                            },
                        }
                    },
                }
            },
        },
    }
}

/// Whether any definition is a bare expression statement.
pub open spec fn spec_has_expr_stmt(defs: Seq<StmtV>) -> bool {
    exists|k: int| 0 <= k < defs.len() && defs[k] is Expr
}

/// What `defs` does: the statements of a module body, where a bare
/// expression at module level is an error.
#[verifier::opaque]
pub open spec fn spec_defs(tokens: Seq<Token>, src: Seq<u8>, i: int, strs: Seq<Seq<u8>>) -> SpecLoop<Seq<StmtV>>
    decreases rem(tokens, i), 13int,
{
    let w = spec_stmts(tokens, src, i, strs);
    match w.r {
        Err(err) => SpecLoop { r: Err(err), i: w.i, strs: w.strs },
        Ok(sts) => {
            if spec_has_expr_stmt(sts) {
                SpecLoop {
                    r: Err(
                        spec_error(
                            ErrorKind::NoUnboundExprAtModuleLevel,
                            spec_invalid_span(tokens, w.i),
                        ),
                    ),
                    i: w.i,
                    strs: w.strs,
                }
            } else {
                SpecLoop { r: Ok(sts), i: w.i, strs: w.strs }
            }
        },
    }
}

/// What `module` does: dependencies, an optional comma, then the
/// definitions.
#[verifier::opaque]
pub open spec fn spec_module(tokens: Seq<Token>, src: Seq<u8>, i: int, strs: Seq<Seq<u8>>) -> SpecLoop<ModV>
    decreases rem(tokens, i), 14int,
{
    let d = spec_deps(tokens, src, i, strs);
    match d.r {
        Err(err) => SpecLoop { r: Err(err), i: d.i, strs: d.strs },
        Ok(deps) => {
            let (_c, i1) = spec_accept(tokens, adv(d.i, i, tokens.len() as int), TokenKind::Comma);
            let w = spec_defs(tokens, src, i1, d.strs);
            match w.r {
                Err(err) => SpecLoop { r: Err(err), i: w.i, strs: w.strs },
                Ok(defs) => SpecLoop { r: Ok(ModV { deps, defs }), i: w.i, strs: w.strs },
            }
        },
    }
}

/// What `parse_expr` returns: the tokens' single expression, or `Void`
/// when the source holds none.
#[verifier::opaque]
pub open spec fn spec_parse_expr(src: Seq<u8>, strs: Seq<Seq<u8>>) -> (Result<ExprV, Error>, Seq<Seq<u8>>) {
    match spec_tokenize(src) {
        Err(e) => (Err(e), strs),
        Ok(toks) => {
            let p = spec_expr(toks, src, 0, strs);
            match p.r {
                Err(err) => (Err(err), p.strs),
                Ok(Some(ev)) => (Ok(ev), p.strs),
                Ok(None) => (Ok(ExprV { ty: TyV::Unknown, kind: ExprKindV::Void }), p.strs),
            }
        },
    }
}

/// What `parse_stmt` returns: the tokens' single statement, or a bare
/// `Void` expression statement when the source holds none.
#[verifier::opaque]
pub open spec fn spec_parse_stmt(src: Seq<u8>, strs: Seq<Seq<u8>>) -> (Result<StmtV, Error>, Seq<Seq<u8>>) {
    match spec_tokenize(src) {
        Err(e) => (Err(e), strs),
        Ok(toks) => {
            let p = spec_stmt(toks, src, 0, strs);
            match p.r {
                Err(err) => (Err(err), p.strs),
                Ok(Some(sv)) => (Ok(sv), p.strs),
                Ok(None) => (
                    Ok(StmtV::Expr(ExprV { ty: TyV::Unknown, kind: ExprKindV::Void })),
                    p.strs,
                ),
            }
        },
    }
}

/// What `parse_module` returns.
#[verifier::opaque]
pub open spec fn spec_parse_module(src: Seq<u8>, strs: Seq<Seq<u8>>) -> (Result<ModV, Error>, Seq<Seq<u8>>) {
    match spec_tokenize(src) {
        Err(e) => (Err(e), strs),
        Ok(toks) => {
            let p = spec_module(toks, src, 0, strs);
            match p.r {
                Err(err) => (Err(err), p.strs),
                Ok(mv) => (Ok(mv), p.strs),
            }
        },
    }
}

impl<'src> Parser<'src> {
    /// A parser over `source` and its `tokens`, at the first token.
    fn new(source: &'src [u8], tokens: Vec<Token>) -> (r: Parser<'src>)
        ensures
            r.source@ == source@,
            r.tokens@ == tokens@,
            r.index == 0,
    {
        Parser { source, tokens, index: 0 }
    }

    /// Consumes the next token when it has the wanted kind, returning its
    /// span.
    fn accept(&mut self, kind: TokenKind) -> (r: Option<Span>)
        ensures
            final(self).source@ == old(self).source@,
            final(self).tokens@ == old(self).tokens@,
            (r, final(self).index as int) == spec_accept(old(self).tokens@, old(self).index as int, kind),
    {
        if self.index < self.tokens.len() && token_kind_eq(self.tokens[self.index].kind, kind) {
            let span = self.tokens[self.index].span;
            self.index = self.index + 1;
            Some(span)
        } else {
            None
        }
    }

    /// The error for an expected-but-missing production at the cursor.
    fn invalid_token(&self) -> (r: Error)
        ensures
            r == spec_invalid_token(self.tokens@, self.index as int),
    {
        let span = if self.index < self.tokens.len() {
            self.tokens[self.index].span
        } else if self.index >= 1 && self.index - 1 < self.tokens.len() {
            self.tokens[self.index - 1].span
        } else {
            Span { start: 0, end: 0 }
        };
        Error::at(ErrorKind::InvalidToken, span)
    }

    /// Consumes a token of `kind` and interns its lexeme.
    fn accept_sym(&mut self, it: &mut Interner, kind: TokenKind) -> (r: Option<Sym>)
        ensures
            final(self).source@ == old(self).source@,
            final(self).tokens@ == old(self).tokens@,
            (r, final(self).index as int, final(it)@) == spec_accept_sym(
                old(self).tokens@,
                old(self).source@,
                old(self).index as int,
                old(it)@,
                kind,
            ),
    {
        match self.accept(kind) {
            Some(span) => {
                let lex = span_slice(self.source, span);
                Some(it.intern(lex.as_slice()))
            }
            None => None,
        }
    }

    /// Consumes an identifier token, interning it.
    fn ident(&mut self, it: &mut Interner) -> (r: Option<Sym>)
        ensures
            final(self).source@ == old(self).source@,
            final(self).tokens@ == old(self).tokens@,
            (r, final(self).index as int, final(it)@) == spec_accept_sym(
                old(self).tokens@,
                old(self).source@,
                old(self).index as int,
                old(it)@,
                TokenKind::Ident,
            ),
    {
        self.accept_sym(it, TokenKind::Ident)
    }

    /// Consumes a context identifier token, interning it.
    fn ctx_ident(&mut self, it: &mut Interner) -> (r: Option<Sym>)
        ensures
            final(self).source@ == old(self).source@,
            final(self).tokens@ == old(self).tokens@,
            (r, final(self).index as int, final(it)@) == spec_accept_sym(
                old(self).tokens@,
                old(self).source@,
                old(self).index as int,
                old(it)@,
                TokenKind::CtxIdent,
            ),
    {
        self.accept_sym(it, TokenKind::CtxIdent)
    }

    /// Consumes a unary operator, returning it with its binding power.
    fn accept_un_op(&mut self) -> (r: Option<(UnOp, u8)>)
        ensures
            final(self).source@ == old(self).source@,
            final(self).tokens@ == old(self).tokens@,
            ({
                let i = old(self).index as int;
                match tok_at(old(self).tokens@, i) {
                    Some(t) => match spec_un_op_of(t.kind) {
                        Some(p) => r == Some(p) && final(self).index == i + 1,
                        None => r is None && final(self).index == i,
                    },
                    None => r is None && final(self).index == i,
                }
            }),
    {
        if self.index < self.tokens.len() {
            let result = match self.tokens[self.index].kind {
                TokenKind::Minus => (UnOp::Neg, 20u8),
                TokenKind::Not => (UnOp::Not, 20u8),
                TokenKind::Tilde => (UnOp::BitNot, 20u8),
                _ => {
                    return None;
                },
            };
            self.index = self.index + 1;
            Some(result)
        } else {
            None
        }
    }

    /// Consumes a binary operator, returning it with its binding powers.
    fn accept_bin_op(&mut self) -> (r: Option<(BinOp, u8, u8)>)
        ensures
            final(self).source@ == old(self).source@,
            final(self).tokens@ == old(self).tokens@,
            ({
                let i = old(self).index as int;
                match tok_at(old(self).tokens@, i) {
                    Some(t) => match spec_bin_op_of(t.kind) {
                        Some(p) => r == Some(p) && final(self).index == i + 1,
                        None => r is None && final(self).index == i,
                    },
                    None => r is None && final(self).index == i,
                }
            }),
    {
        if self.index < self.tokens.len() {
            let result = match self.tokens[self.index].kind {
                TokenKind::OrOr => (BinOp::Or, 0u8, 1u8),
                TokenKind::AndAnd => (BinOp::And, 2u8, 3u8),
                TokenKind::EqEq => (BinOp::Eq, 4u8, 5u8),
                TokenKind::NotEq => (BinOp::NotEq, 4u8, 5u8),
                TokenKind::Lt => (BinOp::Lt, 4u8, 5u8),
                TokenKind::LtEq => (BinOp::LtEq, 4u8, 5u8),
                TokenKind::Gt => (BinOp::Gt, 4u8, 5u8),
                TokenKind::GtEq => (BinOp::GtEq, 4u8, 5u8),
                TokenKind::Or => (BinOp::BitOr, 6u8, 7u8),
                TokenKind::Caret => (BinOp::Xor, 8u8, 9u8),
                TokenKind::And => (BinOp::BitAnd, 10u8, 11u8),
                TokenKind::LtLt => (BinOp::ShiftL, 12u8, 13u8),
                TokenKind::GtGt => (BinOp::ShiftR, 12u8, 13u8),
                TokenKind::Plus => (BinOp::Add, 14u8, 15u8),
                TokenKind::Minus => (BinOp::Sub, 14u8, 15u8),
                TokenKind::Star => (BinOp::Mul, 16u8, 17u8),
                TokenKind::Slash => (BinOp::Div, 16u8, 17u8),
                TokenKind::Percent => (BinOp::Mod, 16u8, 17u8),
                TokenKind::StarStar => (BinOp::Exp, 18u8, 19u8),
                TokenKind::Period => (BinOp::Dot, 20u8, 21u8),
                _ => {
                    return None;
                },
            };
            self.index = self.index + 1;
            Some(result)
        } else {
            None
        }
    }

    /// Decodes the escapes in a quoted literal's span.
    #[verifier::loop_isolation(false)]
    fn unescape(&self, span: Span) -> (r: Result<Vec<u8>, Error>)
        ensures
            match r {
                Ok(v) => spec_unescape(self.source@, span) == Ok::<Seq<u8>, Error>(v@),
                Err(e) => spec_unescape(self.source@, span) == Err::<Seq<u8>, Error>(e),
            },
    {
        let lex = span_slice(self.source, span);
        let inner_len = if lex.len() >= 2 {
            lex.len() - 2
        } else {
            0
        };
        let ghost inner = if lex@.len() >= 2 {
            lex@.subrange(1, lex@.len() - 1)
        } else {
            Seq::<u8>::empty()
        };
        let mut out: Vec<u8> = Vec::new();
        let mut j: usize = 0;
        proof {
            assert(spec_unescape_bytes(inner, inner.len() as int) == Ok::<Seq<u8>, ()>(
                Seq::empty(),
            ));
        }
        while j < inner_len
            invariant
                inner_len == inner.len(),
                lex@.len() >= 2 ==> inner =~= lex@.subrange(1, lex@.len() - 1),
                j <= inner_len,
                forall|k: int| 0 <= k < inner.len() ==> inner[k] == lex@[k + 1],
                ({
                    match spec_unescape_bytes(inner, j as int) {
                        Ok(rest) => spec_unescape_bytes(inner, 0) == Ok::<Seq<u8>, ()>(out@ + rest),
                        Err(e) => spec_unescape_bytes(inner, 0) == Err::<Seq<u8>, ()>(e),
                    }
                }),
            decreases inner_len - j,
        {
            let c = lex[j + 1];
            if c == 0x5C {
                if j + 1 >= inner_len {
                    return Err(Error::at(ErrorKind::StringEscSeqInvalid, span));
                }
                let c2 = lex[j + 2];
                let (b, consumed): (u8, usize) = if c2 == 0x5C {
                    (0x5C, 2)
                } else if c2 == 0x22 {
                    (0x22, 2)
                } else if c2 == 0x27 {
                    (0x27, 2)
                } else if c2 == 0x61 {
                    (0x07, 2)
                } else if c2 == 0x62 {
                    (0x08, 2)
                } else if c2 == 0x74 {
                    (0x09, 2)
                } else if c2 == 0x76 {
                    (0x0B, 2)
                } else if c2 == 0x66 {
                    (0x0C, 2)
                } else if c2 == 0x6E {
                    (0x0A, 2)
                } else if c2 == 0x72 {
                    (0x0D, 2)
                } else if c2 == 0x30 {
                    (0x00, 2)
                } else if c2 == 0x78 {
                    if j + 3 >= inner_len {
                        return Err(Error::at(ErrorKind::StringEscSeqInvalid, span));
                    }
                    let a = hex_val(lex[j + 3]);
                    let bb = hex_val(lex[j + 4]);
                    match (a, bb) {
                        (Some(av), Some(bv)) => {
                            let value = 16 * av + bv;
                            if value > 127 {
                                return Err(Error::at(ErrorKind::StringEscSeqInvalid, span));
                            }
                            (value, 4)
                        },
                        _ => {
                            return Err(Error::at(ErrorKind::StringEscSeqInvalid, span));
                        },
                    }
                } else {
                    return Err(Error::at(ErrorKind::StringEscSeqInvalid, span));
                };
                let ghost prev = out@;
                out.push(b);
                proof {
                    assert(out@ =~= prev + seq![b]);
                    assert forall|rest: Seq<u8>| true implies (prev + (seq![b] + rest)) =~= (out@
                        + rest) by {}
                }
                j = j + consumed;
            } else {
                let ghost prev = out@;
                out.push(c);
                proof {
                    assert(out@ =~= prev + seq![c]);
                    assert forall|rest: Seq<u8>| true implies (prev + (seq![c] + rest)) =~= (out@
                        + rest) by {}
                }
                j = j + 1;
            }
        }
        proof {
            assert(out@ + Seq::<u8>::empty() =~= out@);
        }
        Ok(out)
    }

    /// Consumes a symbol literal, unescaping and interning its text.
    fn symbol(&mut self, it: &mut Interner) -> (r: Result<Option<Sym>, Error>)
        ensures
            final(self).source@ == old(self).source@,
            final(self).tokens@ == old(self).tokens@,
            ({
                let s = spec_symbol(old(self).tokens@, old(self).source@, old(self).index as int, old(it)@);
                final(self).index == s.i && final(it)@ == s.strs && match (r, s.r) {
                    (Ok(Some(a)), Ok(Some(b))) => a == b,
                    (Ok(None), Ok(None)) => true,
                    (Err(a), Err(b)) => a == b,
                    _ => false,
                }
            }),
    {
        match self.accept(TokenKind::Sym) {
            Some(span) => {
                match self.unescape(span) {
                    Ok(bytes) => Ok(Some(it.intern(bytes.as_slice()))),
                    Err(e) => Err(e),
                }
            }
            None => Ok(None),
        }
    }

    /// Consumes a string literal, unescaping its text.
    fn string(&mut self) -> (r: Result<Option<Vec<u8>>, Error>)
        ensures
            final(self).source@ == old(self).source@,
            final(self).tokens@ == old(self).tokens@,
            ({
                let s = spec_string(old(self).tokens@, old(self).source@, old(self).index as int, Seq::empty());
                final(self).index == s.i && match (r, s.r) {
                    (Ok(Some(a)), Ok(Some(b))) => a@ == b,
                    (Ok(None), Ok(None)) => true,
                    (Err(a), Err(b)) => a == b,
                    _ => false,
                }
            }),
    {
        match self.accept(TokenKind::Str) {
            Some(span) => {
                match self.unescape(span) {
                    Ok(bytes) => Ok(Some(bytes)),
                    Err(e) => Err(e),
                }
            }
            None => Ok(None),
        }
    }

    /// Consumes an integer literal and decodes it, with binary, octal and
    /// hexadecimal prefixes, reporting overflow as an invalid integer.
    #[verifier::loop_isolation(false)]
    fn int_lit(&mut self) -> (r: Result<Option<i64>, Error>)
        ensures
            final(self).source@ == old(self).source@,
            final(self).tokens@ == old(self).tokens@,
            ({
                let s = spec_int(old(self).tokens@, old(self).source@, old(self).index as int, Seq::empty());
                final(self).index == s.i && match (r, s.r) {
                    (Ok(Some(a)), Ok(Some(b))) => a == b,
                    (Ok(None), Ok(None)) => true,
                    (Err(a), Err(b)) => a == b,
                    _ => false,
                }
            }),
    {
        let ghost src0 = self.source@;
        let span = match self.accept(TokenKind::Int) {
            Some(span) => span,
            None => {
                return Ok(None);
            },
        };
        let lex = span_slice(self.source, span);
        let (base, start): (i64, usize) = if lex.len() >= 2 && lex[0] == 0x30 && lex[1] == 0x62 {
            (2, 2)
        } else if lex.len() >= 2 && lex[0] == 0x30 && lex[1] == 0x6F {
            (8, 2)
        } else if lex.len() >= 2 && lex[0] == 0x30 && lex[1] == 0x78 {
            (16, 2)
        } else {
            (10, 0)
        };
        let ghost digits = lex@.subrange(start as int, lex@.len() as int);
        let mut value: i64 = 0;
        let mut k: usize = start;
        while k < lex.len()
            invariant
                start <= k <= lex@.len(),
                digits =~= lex@.subrange(start as int, lex@.len() as int),
                spec_int_accum(digits, k - start, base as int, value as int) == spec_int_accum(
                    digits,
                    0,
                    base as int,
                    0,
                ),
            decreases lex@.len() - k,
        {
            let c = lex[k];
            let d: i64 = if base == 16 {
                if 0x30 <= c && c <= 0x39 {
                    (c - 0x30) as i64
                } else if 0x61 <= c && c <= 0x66 {
                    10 + (c - 0x61) as i64
                } else {
                    10 + (c as i64 - 0x41)
                }
            } else {
                (c as i64) - 0x30
            };
            proof {
                assert(digits[k - start] == lex@[k as int]);
                assert(d as int == spec_digit_val(c, base as int));
            }
            let m = match value.checked_mul(base) {
                Some(m) => m,
                None => {
                    proof {
                        if start == 0 {
                            assert(lex@.subrange(0, lex@.len() as int) =~= lex@);
                        }
                        assert(spec_acc_step(value as int, base as int, d as int) is None);
                        assert(spec_int_accum(digits, k - start, base as int, value as int) is None);
                        assert(spec_decode_int_raw(src0, span) is None);
                    }
                    return Err(Error::at(ErrorKind::IntInvalid, span));
                },
            };
            value = match m.checked_add(d) {
                Some(v) => v,
                None => {
                    proof {
                        if start == 0 {
                            assert(lex@.subrange(0, lex@.len() as int) =~= lex@);
                        }
                        assert(spec_acc_step(value as int, base as int, d as int) is None);
                        assert(spec_int_accum(digits, k - start, base as int, value as int) is None);
                        assert(spec_decode_int_raw(src0, span) is None);
                    }
                    return Err(Error::at(ErrorKind::IntInvalid, span));
                },
            };
            k = k + 1;
        }
        proof {
            if start == 0 {
                assert(lex@.subrange(0, lex@.len() as int) =~= lex@);
            }
            let tokens = old(self).tokens@;
            let src = old(self).source@;
            let i0 = old(self).index as int;
            assert(spec_accept(tokens, i0, TokenKind::Int).0 == Some(span));
            assert(lex@ == spec_slice(src, span));
            assert(digits.len() == lex@.len() - start);
            assert(spec_int_accum(digits, digits.len() as int, base as int, value as int)
                == Some(value as int));
            assert(spec_int_accum(digits, 0, base as int, 0) == Some(value as int));
            assert(spec_decode_int_raw(src, span) == Some(value as int));
            assert(spec_decode_int(src, span) == Some(value));
        }
        Ok(Some(value))
    }

    /// Consumes a float literal, keeping its text; an exponent with no
    /// digit is an invalid float.
    #[verifier::loop_isolation(false)]
    fn float(&mut self) -> (r: Result<Option<Vec<u8>>, Error>)
        ensures
            final(self).source@ == old(self).source@,
            final(self).tokens@ == old(self).tokens@,
            ({
                let s = spec_float(old(self).tokens@, old(self).source@, old(self).index as int, Seq::empty());
                final(self).index == s.i && match (r, s.r) {
                    (Ok(Some(a)), Ok(Some(b))) => a@ == b,
                    (Ok(None), Ok(None)) => true,
                    (Err(a), Err(b)) => a == b,
                    _ => false,
                }
            }),
    {
        let span = match self.accept(TokenKind::Float) {
            Some(span) => span,
            None => {
                return Ok(None);
            },
        };
        let lex = span_slice(self.source, span);
        let mut seen = false;
        let mut k: usize = lex.len();
        while k > 0
            invariant
                k <= lex@.len(),
                seen == exists|m: int| k <= m < lex@.len() && 0x30 <= #[trigger] lex@[m] <= 0x39,
                forall|p: int|
                    k <= p < lex@.len() && lex@[p] == 0x65 ==> exists|m: int|
                        p < m < lex@.len() && 0x30 <= #[trigger] lex@[m] <= 0x39,
            decreases k,
        {
            k = k - 1;
            let c = lex[k];
            if 0x30 <= c && c <= 0x39 {
                seen = true;
            } else if c == 0x65 && !seen {
                return Err(Error::at(ErrorKind::FloatInvalid, span));
            }
        }
        Ok(Some(lex))
    }

    /// Consumes a boolean keyword.
    fn bool_lit(&mut self) -> (r: Result<Option<bool>, Error>)
        ensures
            final(self).source@ == old(self).source@,
            final(self).tokens@ == old(self).tokens@,
            ({
                let s = spec_bool(old(self).tokens@, old(self).index as int, Seq::empty());
                final(self).index == s.i && match (r, s.r) {
                    (Ok(Some(a)), Ok(Some(b))) => a == b,
                    (Ok(None), Ok(None)) => true,
                    (Err(a), Err(b)) => a == b,
                    _ => false,
                }
            }),
    {
        if self.accept(TokenKind::True).is_some() {
            Ok(Some(true))
        } else if self.accept(TokenKind::False).is_some() {
            Ok(Some(false))
        } else {
            Ok(None)
        }
    }

    /// Parses a pattern: a pattern tuple, an identifier or a context
    /// identifier.
    #[verifier::rlimit(100)]
    #[verifier::spinoff_prover]
    fn pat(&mut self, it: &mut Interner) -> (r: Option<Pat>)
        requires
            old(self).index <= old(self).tokens@.len(),
        ensures
            final(self).source@ == old(self).source@,
            final(self).tokens@ == old(self).tokens@,
            old(self).index <= final(self).index <= old(self).tokens@.len(),
            ({
                let (s, i2, strs2) = spec_pat(
                    old(self).tokens@,
                    old(self).source@,
                    old(self).index as int,
                    old(it)@,
                );
                final(self).index == i2 && final(it)@ == strs2 && match_opt_pat(r, s)
            }),
        decreases rem(old(self).tokens@, old(self).index as int), 3int,
    {
        proof {
            reveal(spec_pat);
        }
        if let Some(members) = self.pat_tuple(it) {
            Some(Pat::Tuple(members))
        } else if let Some(ident) = self.ident(it) {
            Some(Pat::Ident(ident))
        } else if let Some(ctx_ident) = self.ctx_ident(it) {
            Some(Pat::CtxIdent(ctx_ident))
        } else {
            None
        }
    }

    /// Parses one entry of a pattern tuple.
    #[verifier::rlimit(100)]
    #[verifier::spinoff_prover]
    fn pat_tuple_entry(&mut self, it: &mut Interner) -> (r: Option<TupleEntry<Pat>>)
        requires
            old(self).index <= old(self).tokens@.len(),
        ensures
            final(self).source@ == old(self).source@,
            final(self).tokens@ == old(self).tokens@,
            old(self).index <= final(self).index <= old(self).tokens@.len(),
            ({
                let (s, i2, strs2) = spec_pat_tuple_entry(
                    old(self).tokens@,
                    old(self).source@,
                    old(self).index as int,
                    old(it)@,
                );
                final(self).index == i2 && final(it)@ == strs2 && match_opt_pat_entry(r, s)
            }),
        decreases rem(old(self).tokens@, old(self).index as int), 10int,
    {
        proof {
            reveal(spec_pat_tuple_entry);
        }
        if let Some(identifier) = self.ident(it) {
            if self.accept(TokenKind::Colon).is_some() {
                let pattern = match self.pat(it) {
                    Some(p) => p,
                    None => Pat::Ident(identifier),
                };
                Some(TupleEntry::Named(identifier, pattern))
            } else {
                Some(TupleEntry::Pos(Pat::Ident(identifier)))
            }
        } else if let Some(pattern) = self.pat(it) {
            Some(TupleEntry::Pos(pattern))
        } else {
            None
        }
    }

    /// Parses a parenthesised tuple of pattern entries.
    #[verifier::loop_isolation(false)]
    #[verifier::rlimit(100)]
    #[verifier::spinoff_prover]
    fn pat_tuple(&mut self, it: &mut Interner) -> (r: Option<Tuple<Pat>>)
        requires
            old(self).index <= old(self).tokens@.len(),
        ensures
            final(self).source@ == old(self).source@,
            final(self).tokens@ == old(self).tokens@,
            old(self).index <= final(self).index <= old(self).tokens@.len(),
            ({
                let (s, i2, strs2) = spec_pat_tuple(
                    old(self).tokens@,
                    old(self).source@,
                    old(self).index as int,
                    old(it)@,
                );
                final(self).index == i2 && final(it)@ == strs2 && match_opt_pat_tuple(r, s)
            }),
        decreases rem(old(self).tokens@, old(self).index as int), 2int,
    {
        proof {
            reveal(spec_pat_tuple);
            reveal(spec_pat_items);
        }
        let ghost tok0 = self.tokens@;
        let ghost src0 = self.source@;
        let ghost idx0 = self.index as int;
        let i = self.index;
        if self.accept(TokenKind::LParen).is_some() {
            let ghost i1 = self.index as int;
            let ghost it1 = it@;
            let mut entries: Vec<TupleEntry<Pat>> = Vec::new();
            if let Some(entry) = self.pat_tuple_entry(it) {
                entries.push(entry);
                proof {
                    assert(entries@.drop_last() =~= Seq::<TupleEntry<Pat>>::empty());
                    lemma_pat_entries_view(entries@);
                    let (e, i2p, s2) = spec_pat_tuple_entry(tok0, src0, i1, it1);
                    assert(match_opt_pat_entry(Some(entries@[0]), e));
                    assert(pat_entries_view(entries@) =~= seq![e->Some_0]);
                }
                let ghost target = spec_pat_items(
                    tok0,
                    src0,
                    self.index as int,
                    it@,
                    pat_entries_view(entries@),
                );
                loop
                    invariant
                        self.source@ == src0,
                        self.tokens@ == tok0,
                        idx0 < i1,
                        idx0 <= tok0.len(),
                        i1 <= self.index as int,
                        self.index <= tok0.len(),
                        spec_pat_items(
                            tok0,
                            src0,
                            self.index as int,
                            it@,
                            pat_entries_view(entries@),
                        ) == target,
                    decreases rem(tok0, self.index as int),
                {
                    if self.accept(TokenKind::Comma).is_none() {
                        break ;
                    }
                    proof {
                        assert(rem(tok0, self.index as int) < rem(tok0, idx0));
                    }
                    if let Some(e2) = self.pat_tuple_entry(it) {
                        let ghost prev = entries@;
                        entries.push(e2);
                        proof {
                            assert(entries@.drop_last() =~= prev);
                        }
                    }
                }
            }
            let r = match self.accept(TokenKind::RParen) {
                Some(_) => {
                    proof {
                        lemma_from_entries_pats(entries@);
                    }
                    Some(Tuple::from_entries(entries))
                }
                None => None,
            };
            proof {
                let (sres, si, ss) = spec_pat_tuple(tok0, src0, idx0, old(it)@);
                assert(self.index as int == si);
                assert(it@ == ss);
                assert(match_opt_pat_tuple(r, sres));
            }
            r
        } else {
            self.index = i;
            None
        }
    }

    /// Parses one tuple entry: `ident : expr` named, else positional.
    #[verifier::rlimit(100)]
    #[verifier::spinoff_prover]
    fn tuple_entry(&mut self, it: &mut Interner) -> (r: Result<Option<TupleEntry<Expr>>, Error>)
        requires
            old(self).index <= old(self).tokens@.len(),
        ensures
            final(self).source@ == old(self).source@,
            final(self).tokens@ == old(self).tokens@,
            old(self).index <= final(self).index <= old(self).tokens@.len(),
            ({
                let s = spec_tuple_entry(
                    old(self).tokens@,
                    old(self).source@,
                    old(self).index as int,
                    old(it)@,
                );
                final(self).index == s.i && final(it)@ == s.strs && match (r, s.r) {
                    (Ok(Some(TupleEntry::Pos(e))), Ok(Some(TupleEntry::Pos(ev)))) => expr_view(e)
                        == ev,
                    (
                        Ok(Some(TupleEntry::Named(k, e))),
                        Ok(Some(TupleEntry::Named(kv, ev))),
                    ) => k == kv && expr_view(e) == ev,
                    (Ok(None), Ok(None)) => true,
                    (Err(a), Err(b)) => a == b,
                    _ => false,
                }
            }),
        decreases rem(old(self).tokens@, old(self).index as int), 10int,
    {
        proof {
            reveal(spec_tuple_entry);
        }
        let i = self.index;
        if let Some(identifier) = self.ident(it) {
            if self.accept(TokenKind::Colon).is_some() {
                return match self.expr(it) {
                    Err(e) => Err(e),
                    Ok(Some(expr)) => Ok(Some(TupleEntry::Named(identifier, expr))),
                    Ok(None) => Ok(
                        Some(
                            TupleEntry::Named(
                                identifier,
                                Expr::unknown(ExprKind::Ident(identifier)),
                            ),
                        ),
                    ),
                };
            }
            self.index = i;
        }
        match self.expr(it) {
            Err(e) => Err(e),
            Ok(Some(expr)) => Ok(Some(TupleEntry::Pos(expr))),
            Ok(None) => Ok(None),
        }
    }

    /// Parses the comma-separated continuation of a tuple expression.
    #[verifier::rlimit(100)]
    #[verifier::spinoff_prover]
    fn tuple_items(&mut self, it: &mut Interner, entries: &mut Vec<TupleEntry<Expr>>) -> (r:
        Result<(), Error>)
        requires
            old(self).index <= old(self).tokens@.len(),
        ensures
            final(self).source@ == old(self).source@,
            final(self).tokens@ == old(self).tokens@,
            old(self).index <= final(self).index <= old(self).tokens@.len(),
            ({
                let s = spec_tuple_items(
                    old(self).tokens@,
                    old(self).source@,
                    old(self).index as int,
                    old(it)@,
                    expr_entries_view(old(entries)@),
                );
                final(self).index == s.i && final(it)@ == s.strs && match (r, s.r) {
                    (Ok(()), Ok(accv)) => expr_entries_view(final(entries)@) == accv,
                    (Err(a), Err(b)) => a == b,
                    _ => false,
                }
            }),
        decreases rem(old(self).tokens@, old(self).index as int), 0int,
    {
        proof {
            reveal(spec_tuple_items);
        }
        if self.accept(TokenKind::Comma).is_none() {
            return Ok(());
        }
        match self.tuple_entry(it) {
            Err(e) => Err(e),
            Ok(Some(entry)) => {
                let ghost prev = entries@;
                entries.push(entry);
                proof {
                    assert(entries@.drop_last() =~= prev);
                }
                self.tuple_items(it, entries)
            },
            Ok(None) => self.tuple_items(it, entries),
        }
    }

    /// Parses a parenthesised tuple of entries.
    #[verifier::rlimit(100)]
    #[verifier::spinoff_prover]
    fn tuple(&mut self, it: &mut Interner) -> (r: Result<Option<Tuple<Expr>>, Error>)
        requires
            old(self).index <= old(self).tokens@.len(),
        ensures
            final(self).source@ == old(self).source@,
            final(self).tokens@ == old(self).tokens@,
            old(self).index <= final(self).index <= old(self).tokens@.len(),
            r matches Ok(Some(_)) ==> old(self).index < final(self).index,
            ({
                let s = spec_tuple(
                    old(self).tokens@,
                    old(self).source@,
                    old(self).index as int,
                    old(it)@,
                );
                final(self).index == s.i && final(it)@ == s.strs && match (r, s.r) {
                    (Ok(Some(t)), Ok(Some(tv))) => expr_tuple_view(t) == tv,
                    (Ok(None), Ok(None)) => true,
                    (Err(a), Err(b)) => a == b,
                    _ => false,
                }
            }),
        decreases rem(old(self).tokens@, old(self).index as int), 4int,
    {
        proof {
            reveal(spec_tuple);
        }
        let ghost tok0 = self.tokens@;
        let ghost src0 = self.source@;
        let i = self.index;
        let lparen_span = match self.accept(TokenKind::LParen) {
            Some(span) => span,
            None => {
                self.index = i;
                return Ok(None);
            },
        };
        let ghost i1 = self.index as int;
        let ghost it1 = it@;
        let mut entries: Vec<TupleEntry<Expr>> = Vec::new();
        match self.tuple_entry(it) {
            Err(e) => {
                return Err(e);
            },
            Ok(Some(entry)) => {
                entries.push(entry);
                proof {
                    assert(entries@.drop_last() =~= Seq::<TupleEntry<Expr>>::empty());
                    lemma_expr_entries_view(entries@);
                    let e = spec_tuple_entry(tok0, src0, i1, it1);
                    assert(expr_entries_view(entries@) =~= seq![e.r->Ok_0->Some_0]);
                }
                match self.tuple_items(it, &mut entries) {
                    Err(e) => {
                        return Err(e);
                    },
                    Ok(()) => {},
                }
            },
            Ok(None) => {},
        }
        match self.accept(TokenKind::RParen) {
            Some(_) => {
                proof {
                    lemma_from_entries_exprs(entries@);
                }
                Ok(Some(Tuple::from_entries(entries)))
            },
            None => Err(Error::at(ErrorKind::Delimiters, lparen_span)),
        }
    }

    /// Parses the comma-separated continuation of a list literal.
    #[verifier::rlimit(100)]
    #[verifier::spinoff_prover]
    fn list_items(&mut self, it: &mut Interner, exprs: &mut Vec<Expr>) -> (r: Result<(), Error>)
        requires
            old(self).index <= old(self).tokens@.len(),
        ensures
            final(self).source@ == old(self).source@,
            final(self).tokens@ == old(self).tokens@,
            old(self).index <= final(self).index <= old(self).tokens@.len(),
            ({
                let s = spec_list_items(
                    old(self).tokens@,
                    old(self).source@,
                    old(self).index as int,
                    old(it)@,
                    crate::ast::exprs_view(old(exprs)@),
                );
                final(self).index == s.i && final(it)@ == s.strs && match (r, s.r) {
                    (Ok(()), Ok(accv)) => crate::ast::exprs_view(final(exprs)@) == accv,
                    (Err(a), Err(b)) => a == b,
                    _ => false,
                }
            }),
        decreases rem(old(self).tokens@, old(self).index as int), 0int,
    {
        proof {
            reveal(spec_list_items);
        }
        if self.accept(TokenKind::Comma).is_none() {
            return Ok(());
        }
        match self.expr(it) {
            Err(e) => Err(e),
            Ok(Some(expr)) => {
                let ghost prev = exprs@;
                exprs.push(expr);
                proof {
                    assert(exprs@.drop_last() =~= prev);
                }
                self.list_items(it, exprs)
            },
            Ok(None) => self.list_items(it, exprs),
        }
    }

    /// Parses a bracketed list of expressions.
    #[verifier::rlimit(100)]
    #[verifier::spinoff_prover]
    fn list(&mut self, it: &mut Interner) -> (r: Result<Option<Vec<Expr>>, Error>)
        requires
            old(self).index <= old(self).tokens@.len(),
        ensures
            final(self).source@ == old(self).source@,
            final(self).tokens@ == old(self).tokens@,
            old(self).index <= final(self).index <= old(self).tokens@.len(),
            r matches Ok(Some(_)) ==> old(self).index < final(self).index,
            ({
                let s = spec_list(
                    old(self).tokens@,
                    old(self).source@,
                    old(self).index as int,
                    old(it)@,
                );
                final(self).index == s.i && final(it)@ == s.strs && match (r, s.r) {
                    (Ok(Some(v)), Ok(Some(sv))) => crate::ast::exprs_view(v@) == sv,
                    (Ok(None), Ok(None)) => true,
                    (Err(a), Err(b)) => a == b,
                    _ => false,
                }
            }),
        decreases rem(old(self).tokens@, old(self).index as int), 4int,
    {
        proof {
            reveal(spec_list);
        }
        let ghost tok0 = self.tokens@;
        let ghost src0 = self.source@;
        let ghost i0 = self.index as int;
        let lbracket_span = match self.accept(TokenKind::LBracket) {
            Some(span) => span,
            None => {
                return Ok(None);
            },
        };
        let ghost i1 = self.index as int;
        let ghost it1 = it@;
        let mut exprs: Vec<Expr> = Vec::new();
        match self.expr(it) {
            Err(e) => {
                return Err(e);
            },
            Ok(Some(expr)) => {
                exprs.push(expr);
                proof {
                    assert(exprs@.drop_last() =~= Seq::<Expr>::empty());
                    lemma_exprs_view(exprs@);
                    let e = spec_expr(tok0, src0, i1, it1);
                    assert(crate::ast::exprs_view(exprs@) =~= seq![e.r->Ok_0->Some_0]);
                }
                match self.list_items(it, &mut exprs) {
                    Err(e) => {
                        return Err(e);
                    },
                    Ok(()) => {},
                }
            },
            Ok(None) => {},
        }
        match self.accept(TokenKind::RBracket) {
            Some(_) => {
                proof {
                    assert(crate::ast::exprs_view(Seq::<Expr>::empty()) =~= Seq::<ExprV>::empty());
                }
                Ok(Some(exprs))
            },
            None => Err(Error::at(ErrorKind::Delimiters, lbracket_span)),
        }
    }

    /// Parses a statement: a let binding (with optional parameter sugar)
    /// or a bare expression.
    #[verifier::rlimit(100)]
    #[verifier::spinoff_prover]
    fn stmt(&mut self, it: &mut Interner) -> (r: Result<Option<Stmt>, Error>)
        requires
            old(self).index <= old(self).tokens@.len(),
        ensures
            final(self).source@ == old(self).source@,
            final(self).tokens@ == old(self).tokens@,
            old(self).index <= final(self).index <= old(self).tokens@.len(),
            ({
                let s = spec_stmt(
                    old(self).tokens@,
                    old(self).source@,
                    old(self).index as int,
                    old(it)@,
                );
                final(self).index == s.i && final(it)@ == s.strs && match (r, s.r) {
                    (Ok(Some(st)), Ok(Some(sv))) => stmt_view(st) == sv,
                    (Ok(None), Ok(None)) => true,
                    (Err(a), Err(b)) => a == b,
                    _ => false,
                }
            }),
        decreases rem(old(self).tokens@, old(self).index as int), 11int,
    {
        proof {
            reveal(spec_stmt);
        }
        if self.accept(TokenKind::Let).is_some() {
            let pattern = match self.pat(it) {
                Some(p) => p,
                None => {
                    return Err(self.invalid_token());
                },
            };
            let args = self.pat_tuple(it);
            if self.accept(TokenKind::Eq).is_none() {
                return Err(self.invalid_token());
            }
            let expr = match self.expr(it) {
                Err(e) => {
                    return Err(e);
                },
                Ok(None) => {
                    return Err(self.invalid_token());
                },
                Ok(Some(e)) => e,
            };
            if let Some(args) = args {
                Ok(
                    Some(
                        Stmt::Let(
                            pattern,
                            Expr::unknown(ExprKind::Fn(args, Box::new(expr))),
                        ),
                    ),
                )
            } else {
                Ok(Some(Stmt::Let(pattern, expr)))
            }
        } else {
            match self.expr(it) {
                Err(e) => Err(e),
                Ok(Some(expr)) => Ok(Some(Stmt::Expr(expr))),
                Ok(None) => Ok(None),
            }
        }
    }

    /// Parses the comma-separated continuation of a statement sequence.
    #[verifier::rlimit(100)]
    #[verifier::spinoff_prover]
    fn stmts_rest(&mut self, it: &mut Interner, statements: &mut Vec<Stmt>) -> (r: Result<(), Error>)
        requires
            old(self).index <= old(self).tokens@.len(),
        ensures
            final(self).source@ == old(self).source@,
            final(self).tokens@ == old(self).tokens@,
            old(self).index <= final(self).index <= old(self).tokens@.len(),
            ({
                let s = spec_stmts_rest(
                    old(self).tokens@,
                    old(self).source@,
                    old(self).index as int,
                    old(it)@,
                    stmts_view(old(statements)@),
                );
                final(self).index == s.i && final(it)@ == s.strs && match (r, s.r) {
                    (Ok(()), Ok(accv)) => stmts_view(final(statements)@) == accv,
                    (Err(a), Err(b)) => a == b,
                    _ => false,
                }
            }),
        decreases rem(old(self).tokens@, old(self).index as int), 0int,
    {
        proof {
            reveal(spec_stmts_rest);
        }
        if self.accept(TokenKind::Comma).is_none() {
            return Ok(());
        }
        match self.stmt(it) {
            Err(e) => Err(e),
            Ok(Some(st)) => {
                let ghost prev = statements@;
                statements.push(st);
                proof {
                    assert(statements@.drop_last() =~= prev);
                }
                self.stmts_rest(it, statements)
            },
            Ok(None) => self.stmts_rest(it, statements),
        }
    }

    /// Parses a possibly empty, comma-separated statement sequence.
    #[verifier::rlimit(100)]
    #[verifier::spinoff_prover]
    fn stmts(&mut self, it: &mut Interner) -> (r: Result<Vec<Stmt>, Error>)
        requires
            old(self).index <= old(self).tokens@.len(),
        ensures
            final(self).source@ == old(self).source@,
            final(self).tokens@ == old(self).tokens@,
            old(self).index <= final(self).index <= old(self).tokens@.len(),
            ({
                let s = spec_stmts(
                    old(self).tokens@,
                    old(self).source@,
                    old(self).index as int,
                    old(it)@,
                );
                final(self).index == s.i && final(it)@ == s.strs && match (r, s.r) {
                    (Ok(v), Ok(sv)) => stmts_view(v@) == sv,
                    (Err(a), Err(b)) => a == b,
                    _ => false,
                }
            }),
        decreases rem(old(self).tokens@, old(self).index as int), 12int,
    {
        proof {
            reveal(spec_stmts);
        }
        let ghost tok0 = self.tokens@;
        let ghost src0 = self.source@;
        let ghost i0 = self.index as int;
        let ghost it0 = it@;
        let mut statements: Vec<Stmt> = Vec::new();
        match self.stmt(it) {
            Err(e) => {
                return Err(e);
            },
            Ok(None) => {
                proof {
                    assert(stmts_view(statements@) =~= Seq::<StmtV>::empty());
                }
                return Ok(statements);
            },
            Ok(Some(st)) => {
                statements.push(st);
                proof {
                    assert(statements@.drop_last() =~= Seq::<Stmt>::empty());
                    lemma_stmts_view(statements@);
                    let e = spec_stmt(tok0, src0, i0, it0);
                    assert(stmts_view(statements@) =~= seq![e.r->Ok_0->Some_0]);
                }
                match self.stmts_rest(it, &mut statements) {
                    Err(e) => Err(e),
                    Ok(()) => Ok(statements),
                }
            },
        }
    }

    /// Parses a braced block, with the empty and single-expression
    /// collapses.
    #[verifier::rlimit(100)]
    #[verifier::spinoff_prover]
    fn block(&mut self, it: &mut Interner) -> (r: Result<Option<Expr>, Error>)
        requires
            old(self).index <= old(self).tokens@.len(),
        ensures
            final(self).source@ == old(self).source@,
            final(self).tokens@ == old(self).tokens@,
            old(self).index <= final(self).index <= old(self).tokens@.len(),
            r matches Ok(Some(_)) ==> old(self).index < final(self).index,
            ({
                let s = spec_block(
                    old(self).tokens@,
                    old(self).source@,
                    old(self).index as int,
                    old(it)@,
                );
                final(self).index == s.i && final(it)@ == s.strs && match (r, s.r) {
                    (Ok(Some(e)), Ok(Some(ev))) => expr_view(e) == ev,
                    (Ok(None), Ok(None)) => true,
                    (Err(a), Err(b)) => a == b,
                    _ => false,
                }
            }),
        decreases rem(old(self).tokens@, old(self).index as int), 4int,
    {
        proof {
            reveal(spec_block);
        }
        let left_brace_span = match self.accept(TokenKind::LBrace) {
            Some(span) => span,
            None => {
                return Ok(None);
            },
        };
        let mut statements = match self.stmts(it) {
            Err(e) => {
                return Err(e);
            },
            Ok(v) => v,
        };
        if self.accept(TokenKind::RBrace).is_none() {
            return Err(Error::at(ErrorKind::Delimiters, left_brace_span));
        }
        proof {
            lemma_stmts_view(statements@);
        }
        if statements.len() == 0 {
            Ok(Some(Expr::unknown(ExprKind::Void)))
        } else if statements.len() == 1 {
            let ghost all = statements@;
            let only = statements.remove(0);
            match only {
                Stmt::Expr(e) => Ok(Some(e)),
                other => {
                    statements.insert(0, other);
                    proof {
                        assert(statements@ =~= all);
                    }
                    Ok(Some(Expr::unknown(ExprKind::Block(statements))))
                },
            }
        } else {
            Ok(Some(Expr::unknown(ExprKind::Block(statements))))
        }
    }

    /// Parses the literal tail of an atom.
    #[verifier::rlimit(100)]
    #[verifier::spinoff_prover]
    fn atom_lit(&mut self, it: &mut Interner) -> (r: Result<Option<Expr>, Error>)
        ensures
            final(self).source@ == old(self).source@,
            final(self).tokens@ == old(self).tokens@,
            old(self).index <= final(self).index,
            final(self).index as int <= vstd::math::max(
                old(self).index as int,
                old(self).tokens@.len() as int,
            ),
            r matches Ok(Some(_)) ==> old(self).index < final(self).index,
            ({
                let s = spec_atom_lit(
                    old(self).tokens@,
                    old(self).source@,
                    old(self).index as int,
                    old(it)@,
                );
                final(self).index == s.i && final(it)@ == s.strs && match (r, s.r) {
                    (Ok(Some(e)), Ok(Some(ev))) => expr_view(e) == ev,
                    (Ok(None), Ok(None)) => true,
                    (Err(a), Err(b)) => a == b,
                    _ => false,
                }
            }),
    {
        proof {
            reveal(spec_atom_lit);
        }
        if let Some(ident) = self.ident(it) {
            return Ok(Some(Expr::unknown(ExprKind::Ident(ident))));
        }
        if let Some(ctx_ident) = self.ctx_ident(it) {
            return Ok(Some(Expr::unknown(ExprKind::CtxIdent(ctx_ident))));
        }
        match self.symbol(it) {
            Err(e) => {
                return Err(e);
            },
            Ok(Some(sym)) => {
                return Ok(Some(Expr::unknown(ExprKind::Sym(sym))));
            },
            Ok(None) => {},
        }
        match self.string() {
            Err(e) => {
                return Err(e);
            },
            Ok(Some(string)) => {
                return Ok(Some(Expr::unknown(ExprKind::Str(string))));
            },
            Ok(None) => {},
        }
        match self.int_lit() {
            Err(e) => {
                return Err(e);
            },
            Ok(Some(value)) => {
                return Ok(Some(Expr::unknown(ExprKind::Int(value))));
            },
            Ok(None) => {},
        }
        match self.float() {
            Err(e) => {
                return Err(e);
            },
            Ok(Some(lexeme)) => {
                return Ok(Some(Expr::unknown(ExprKind::Float(lexeme))));
            },
            Ok(None) => {},
        }
        match self.bool_lit() {
            Err(e) => Err(e),
            Ok(Some(value)) => Ok(Some(Expr::unknown(ExprKind::Bool(value)))),
            Ok(None) => Ok(None),
        }
    }

    /// Parses an atom: each closed-form expression in turn.
    #[verifier::rlimit(100)]
    #[verifier::spinoff_prover]
    fn atom(&mut self, it: &mut Interner) -> (r: Result<Option<Expr>, Error>)
        requires
            old(self).index <= old(self).tokens@.len(),
        ensures
            final(self).source@ == old(self).source@,
            final(self).tokens@ == old(self).tokens@,
            old(self).index <= final(self).index <= old(self).tokens@.len(),
            r matches Ok(Some(_)) ==> old(self).index < final(self).index,
            ({
                let s = spec_atom(
                    old(self).tokens@,
                    old(self).source@,
                    old(self).index as int,
                    old(it)@,
                );
                final(self).index == s.i && final(it)@ == s.strs && match (r, s.r) {
                    (Ok(Some(e)), Ok(Some(ev))) => expr_view(e) == ev,
                    (Ok(None), Ok(None)) => true,
                    (Err(a), Err(b)) => a == b,
                    _ => false,
                }
            }),
        decreases rem(old(self).tokens@, old(self).index as int), 5int,
    {
        proof {
            reveal(spec_atom);
        }
        match self.tuple(it) {
            Err(e) => {
                return Err(e);
            },
            Ok(Some(tuple)) => {
                return Ok(Some(Expr::unknown(ExprKind::Tuple(tuple))));
            },
            Ok(None) => {},
        }
        match self.list(it) {
            Err(e) => {
                return Err(e);
            },
            Ok(Some(list)) => {
                return Ok(Some(Expr::unknown(ExprKind::List(list))));
            },
            Ok(None) => {},
        }
        match self.block(it) {
            Err(e) => {
                return Err(e);
            },
            Ok(Some(block)) => {
                return Ok(Some(block));
            },
            Ok(None) => {},
        }
        self.atom_lit(it)
    }

    /// Folds repeated call-argument tuples onto a callee: `f(x)(y)`.
    #[verifier::rlimit(100)]
    #[verifier::spinoff_prover]
    fn call_args(&mut self, it: &mut Interner, f: Expr) -> (r: Result<Expr, Error>)
        requires
            old(self).index <= old(self).tokens@.len(),
        ensures
            final(self).source@ == old(self).source@,
            final(self).tokens@ == old(self).tokens@,
            old(self).index <= final(self).index <= old(self).tokens@.len(),
            ({
                let s = spec_call_args(
                    old(self).tokens@,
                    old(self).source@,
                    old(self).index as int,
                    old(it)@,
                    expr_view(f),
                );
                final(self).index == s.i && final(it)@ == s.strs && match (r, s.r) {
                    (Ok(e), Ok(Some(ev))) => expr_view(e) == ev,
                    (Err(a), Err(b)) => a == b,
                    _ => false,
                }
            }),
        decreases rem(old(self).tokens@, old(self).index as int), 5int,
    {
        proof {
            reveal(spec_call_args);
            reveal(spec_tuple);
        }
        match self.tuple(it) {
            Err(e) => Err(e),
            Ok(None) => Ok(f),
            Ok(Some(args)) => self.call_args(
                it,
                Expr::unknown(ExprKind::Call(Box::new(f), args)),
            ),
        }
    }

    /// The Pratt fold over binary operators at or above `min_prec`.
    #[verifier::rlimit(100)]
    #[verifier::spinoff_prover]
    fn binops(&mut self, it: &mut Interner, min_prec: u8, left: Expr) -> (r: Result<Expr, Error>)
        requires
            old(self).index <= old(self).tokens@.len(),
        ensures
            final(self).source@ == old(self).source@,
            final(self).tokens@ == old(self).tokens@,
            old(self).index <= final(self).index <= old(self).tokens@.len(),
            ({
                let s = spec_binops(
                    old(self).tokens@,
                    old(self).source@,
                    old(self).index as int,
                    old(it)@,
                    min_prec,
                    expr_view(left),
                );
                final(self).index == s.i && final(it)@ == s.strs && match (r, s.r) {
                    (Ok(e), Ok(Some(ev))) => expr_view(e) == ev,
                    (Err(a), Err(b)) => a == b,
                    _ => false,
                }
            }),
        decreases rem(old(self).tokens@, old(self).index as int), 0int,
    {
        proof {
            reveal(spec_binops);
        }
        match self.accept_bin_op() {
            None => Ok(left),
            Some((bin_op, l_prec, r_prec)) => {
                if l_prec < min_prec {
                    self.index = self.index - 1;
                    return Ok(left);
                }
                match self.expr_with_precedence(it, r_prec) {
                    Err(e) => Err(e),
                    Ok(None) => Err(self.invalid_token()),
                    Ok(Some(right)) => self.binops(
                        it,
                        min_prec,
                        Expr::unknown(ExprKind::BinOp(bin_op, Box::new(left), Box::new(right))),
                    ),
                }
            },
        }
    }

    /// Precedence climbing: a unary operator or an atom with its calls,
    /// then the binary fold.
    #[verifier::rlimit(100)]
    #[verifier::spinoff_prover]
    fn expr_with_precedence(&mut self, it: &mut Interner, min_prec: u8) -> (r: Result<
        Option<Expr>,
        Error,
    >)
        requires
            old(self).index <= old(self).tokens@.len(),
        ensures
            final(self).source@ == old(self).source@,
            final(self).tokens@ == old(self).tokens@,
            old(self).index <= final(self).index <= old(self).tokens@.len(),
            ({
                let s = spec_expr_prec(
                    old(self).tokens@,
                    old(self).source@,
                    old(self).index as int,
                    old(it)@,
                    min_prec,
                );
                final(self).index == s.i && final(it)@ == s.strs && match (r, s.r) {
                    (Ok(Some(e)), Ok(Some(ev))) => expr_view(e) == ev,
                    (Ok(None), Ok(None)) => true,
                    (Err(a), Err(b)) => a == b,
                    _ => false,
                }
            }),
        decreases rem(old(self).tokens@, old(self).index as int), 6int,
    {
        proof {
            reveal(spec_expr_prec);
        }
        if let Some((un_op, r_prec)) = self.accept_un_op() {
            match self.expr_with_precedence(it, r_prec) {
                Err(e) => Err(e),
                Ok(None) => Err(self.invalid_token()),
                Ok(Some(right)) => {
                    let left = Expr::unknown(ExprKind::UnOp(un_op, Box::new(right)));
                    match self.binops(it, min_prec, left) {
                        Err(e) => Err(e),
                        Ok(result) => Ok(Some(result)),
                    }
                },
            }
        } else {
            match self.atom(it) {
                Err(e) => Err(e),
                Ok(None) => Ok(None),
                Ok(Some(a)) => {
                    match self.call_args(it, a) {
                        Err(e) => Err(e),
                        Ok(c) => match self.binops(it, min_prec, c) {
                            Err(e) => Err(e),
                            Ok(result) => Ok(Some(result)),
                        },
                    }
                },
            }
        }
    }

    /// Parses a function's parameter list between bars.
    #[verifier::loop_isolation(false)]
    #[verifier::rlimit(100)]
    #[verifier::spinoff_prover]
    fn function_args(&mut self, it: &mut Interner) -> (r: Result<Option<Tuple<Pat>>, Error>)
        requires
            old(self).index <= old(self).tokens@.len(),
        ensures
            final(self).source@ == old(self).source@,
            final(self).tokens@ == old(self).tokens@,
            old(self).index <= final(self).index <= old(self).tokens@.len(),
            r matches Ok(Some(_)) ==> old(self).index < final(self).index,
            ({
                let s = spec_function_args(
                    old(self).tokens@,
                    old(self).source@,
                    old(self).index as int,
                    old(it)@,
                );
                final(self).index == s.i && final(it)@ == s.strs && match (r, s.r) {
                    (Ok(Some(t)), Ok(Some(tv))) => pat_tuple_view(t) == tv,
                    (Ok(None), Ok(None)) => true,
                    (Err(a), Err(b)) => a == b,
                    _ => false,
                }
            }),
        decreases rem(old(self).tokens@, old(self).index as int), 6int,
    {
        proof {
            reveal(spec_function_args);
            reveal(spec_pat_items);
        }
        let ghost tok0 = self.tokens@;
        let ghost src0 = self.source@;
        let ghost idx0 = self.index as int;
        if self.accept(TokenKind::Or).is_none() {
            return Ok(None);
        }
        let ghost i1 = self.index as int;
        let ghost it1 = it@;
        let mut args: Vec<TupleEntry<Pat>> = Vec::new();
        if let Some(arg) = self.pat_tuple_entry(it) {
            args.push(arg);
            proof {
                assert(args@.drop_last() =~= Seq::<TupleEntry<Pat>>::empty());
                lemma_pat_entries_view(args@);
                let (e, i2p, s2) = spec_pat_tuple_entry(tok0, src0, i1, it1);
                assert(match_opt_pat_entry(Some(args@[0]), e));
                assert(pat_entries_view(args@) =~= seq![e->Some_0]);
            }
            let ghost target = spec_pat_items(
                tok0,
                src0,
                self.index as int,
                it@,
                pat_entries_view(args@),
            );
            loop
                invariant
                    self.source@ == src0,
                    self.tokens@ == tok0,
                    idx0 < i1,
                    idx0 <= tok0.len(),
                    i1 <= self.index as int,
                    self.index <= tok0.len(),
                    spec_pat_items(
                        tok0,
                        src0,
                        self.index as int,
                        it@,
                        pat_entries_view(args@),
                    ) == target,
                decreases rem(tok0, self.index as int),
            {
                if self.accept(TokenKind::Comma).is_none() {
                    break ;
                }
                proof {
                    assert(rem(tok0, self.index as int) < rem(tok0, idx0));
                }
                if let Some(a2) = self.pat_tuple_entry(it) {
                    let ghost prev = args@;
                    args.push(a2);
                    proof {
                        assert(args@.drop_last() =~= prev);
                    }
                }
            }
        }
        if self.accept(TokenKind::Or).is_none() {
            return Err(self.invalid_token());
        }
        proof {
            lemma_from_entries_pats(args@);
        }
        Ok(Some(Tuple::from_entries(args)))
    }

    /// Parses a function literal: a parameter list and a body, or `Void`
    /// when the body is absent.
    #[verifier::rlimit(100)]
    #[verifier::spinoff_prover]
    fn function(&mut self, it: &mut Interner) -> (r: Result<Option<Expr>, Error>)
        requires
            old(self).index <= old(self).tokens@.len(),
        ensures
            final(self).source@ == old(self).source@,
            final(self).tokens@ == old(self).tokens@,
            old(self).index <= final(self).index <= old(self).tokens@.len(),
            ({
                let s = spec_function(
                    old(self).tokens@,
                    old(self).source@,
                    old(self).index as int,
                    old(it)@,
                );
                final(self).index == s.i && final(it)@ == s.strs && match (r, s.r) {
                    (Ok(Some(e)), Ok(Some(ev))) => expr_view(e) == ev,
                    (Ok(None), Ok(None)) => true,
                    (Err(a), Err(b)) => a == b,
                    _ => false,
                }
            }),
        decreases rem(old(self).tokens@, old(self).index as int), 7int,
    {
        proof {
            reveal(spec_function);
            reveal(spec_function_args);
        }
        match self.function_args(it) {
            Err(e) => Err(e),
            Ok(None) => Ok(None),
            Ok(Some(args)) => {
                match self.expr(it) {
                    Err(e) => Err(e),
                    Ok(Some(body)) => Ok(
                        Some(Expr::unknown(ExprKind::Fn(args, Box::new(body)))),
                    ),
                    Ok(None) => Ok(
                        Some(
                            Expr::unknown(
                                ExprKind::Fn(args, Box::new(Expr::unknown(ExprKind::Void))),
                            ),
                        ),
                    ),
                }
            },
        }
    }

    /// Parses an if-else expression.
    #[verifier::rlimit(100)]
    #[verifier::spinoff_prover]
    fn if_else(&mut self, it: &mut Interner) -> (r: Result<Option<Expr>, Error>)
        requires
            old(self).index <= old(self).tokens@.len(),
        ensures
            final(self).source@ == old(self).source@,
            final(self).tokens@ == old(self).tokens@,
            old(self).index <= final(self).index <= old(self).tokens@.len(),
            ({
                let s = spec_if_else(
                    old(self).tokens@,
                    old(self).source@,
                    old(self).index as int,
                    old(it)@,
                );
                final(self).index == s.i && final(it)@ == s.strs && match (r, s.r) {
                    (Ok(Some(e)), Ok(Some(ev))) => expr_view(e) == ev,
                    (Ok(None), Ok(None)) => true,
                    (Err(a), Err(b)) => a == b,
                    _ => false,
                }
            }),
        decreases rem(old(self).tokens@, old(self).index as int), 7int,
    {
        proof {
            reveal(spec_if_else);
        }
        if self.accept(TokenKind::If).is_none() {
            return Ok(None);
        }
        let condition = match self.expr(it) {
            Err(e) => {
                return Err(e);
            },
            Ok(None) => {
                return Err(self.invalid_token());
            },
            Ok(Some(c)) => c,
        };
        let if_expr = match self.block(it) {
            Err(e) => {
                return Err(e);
            },
            Ok(None) => {
                return Err(self.invalid_token());
            },
            Ok(Some(b)) => b,
        };
        if self.accept(TokenKind::Else).is_none() {
            return Err(self.invalid_token());
        }
        let else_expr = match self.if_else(it) {
            Err(e) => {
                return Err(e);
            },
            Ok(Some(chained)) => chained,
            Ok(None) => match self.block(it) {
                Err(e) => {
                    return Err(e);
                },
                Ok(None) => {
                    return Err(self.invalid_token());
                },
                Ok(Some(b)) => b,
            },
        };
        Ok(
            Some(
                Expr::unknown(
                    ExprKind::IfElse(
                        Box::new(condition),
                        Box::new(if_expr),
                        Box::new(else_expr),
                    ),
                ),
            ),
        )
    }

    /// `for` is reserved but has no grammar yet: a `for` token is an
    /// invalid token.
    #[verifier::rlimit(100)]
    #[verifier::spinoff_prover]
    fn for_loop(&mut self, it: &mut Interner) -> (r: Result<Option<Expr>, Error>)
        requires
            old(self).index <= old(self).tokens@.len(),
        ensures
            final(self).source@ == old(self).source@,
            final(self).tokens@ == old(self).tokens@,
            old(self).index <= final(self).index <= old(self).tokens@.len(),
            ({
                let s = spec_for_loop(
                    old(self).tokens@,
                    old(self).source@,
                    old(self).index as int,
                    old(it)@,
                );
                final(self).index == s.i && final(it)@ == s.strs && match (r, s.r) {
                    (Ok(Some(e)), Ok(Some(ev))) => expr_view(e) == ev,
                    (Ok(None), Ok(None)) => true,
                    (Err(a), Err(b)) => a == b,
                    _ => false,
                }
            }),
        decreases rem(old(self).tokens@, old(self).index as int), 7int,
    {
        proof {
            reveal(spec_for_loop);
        }
        if self.accept(TokenKind::For).is_some() {
            Err(self.invalid_token())
        } else {
            Ok(None)
        }
    }

    /// Parses an expression: a function literal, an if-else, the reserved
    /// `for`, or precedence climbing from the minimum precedence.
    #[verifier::rlimit(100)]
    #[verifier::spinoff_prover]
    fn expr(&mut self, it: &mut Interner) -> (r: Result<Option<Expr>, Error>)
        requires
            old(self).index <= old(self).tokens@.len(),
        ensures
            final(self).source@ == old(self).source@,
            final(self).tokens@ == old(self).tokens@,
            old(self).index <= final(self).index <= old(self).tokens@.len(),
            ({
                let s = spec_expr(
                    old(self).tokens@,
                    old(self).source@,
                    old(self).index as int,
                    old(it)@,
                );
                final(self).index == s.i && final(it)@ == s.strs && match (r, s.r) {
                    (Ok(Some(e)), Ok(Some(ev))) => expr_view(e) == ev,
                    (Ok(None), Ok(None)) => true,
                    (Err(a), Err(b)) => a == b,
                    _ => false,
                }
            }),
        decreases rem(old(self).tokens@, old(self).index as int), 8int,
    {
        proof {
            reveal(spec_expr);
        }
        match self.function(it) {
            Err(e) => {
                return Err(e);
            },
            Ok(Some(f)) => {
                return Ok(Some(f));
            },
            Ok(None) => {},
        }
        match self.if_else(it) {
            Err(e) => {
                return Err(e);
            },
            Ok(Some(e)) => {
                return Ok(Some(e));
            },
            Ok(None) => {},
        }
        match self.for_loop(it) {
            Err(e) => {
                return Err(e);
            },
            Ok(Some(e)) => {
                return Ok(Some(e));
            },
            Ok(None) => {},
        }
        self.expr_with_precedence(it, 0)
    }

    /// Parses the dotted continuation of a module path.
    #[verifier::rlimit(100)]
    #[verifier::spinoff_prover]
    fn segments_rest(&mut self, it: &mut Interner, segments: &mut Vec<Sym>) -> (r: ())
        requires
            old(self).index <= old(self).tokens@.len(),
        ensures
            final(self).source@ == old(self).source@,
            final(self).tokens@ == old(self).tokens@,
            old(self).index <= final(self).index <= old(self).tokens@.len(),
            ({
                let (segs, i2, s2) = spec_segments(
                    old(self).tokens@,
                    old(self).source@,
                    old(self).index as int,
                    old(it)@,
                    old(segments)@,
                );
                final(self).index == i2 && final(it)@ == s2 && final(segments)@ == segs
            }),
        decreases rem(old(self).tokens@, old(self).index as int), 0int,
    {
        proof {
            reveal(spec_segments);
        }
        if self.accept(TokenKind::Period).is_none() {
            return ;
        }
        if let Some(segment) = self.ident(it) {
            segments.push(segment);
            self.segments_rest(it, segments)
        }
    }

    /// Parses a module path: an optional leading dot, then dot-separated
    /// segments.
    #[verifier::rlimit(100)]
    #[verifier::spinoff_prover]
    fn mod_path(&mut self, it: &mut Interner) -> (r: Result<Option<ModPath>, Error>)
        requires
            old(self).index <= old(self).tokens@.len(),
        ensures
            final(self).source@ == old(self).source@,
            final(self).tokens@ == old(self).tokens@,
            old(self).index <= final(self).index <= old(self).tokens@.len(),
            ({
                let s = spec_mod_path(
                    old(self).tokens@,
                    old(self).source@,
                    old(self).index as int,
                    old(it)@,
                );
                final(self).index == s.i && final(it)@ == s.strs && match (r, s.r) {
                    (Ok(Some(p)), Ok(Some(pv))) => mod_path_view(p) == pv,
                    (Ok(None), Ok(None)) => true,
                    (Err(a), Err(b)) => a == b,
                    _ => false,
                }
            }),
        decreases rem(old(self).tokens@, old(self).index as int), 11int,
    {
        proof {
            reveal(spec_mod_path);
        }
        let i = self.index;
        let local = self.accept(TokenKind::Period).is_some();
        if let Some(segment) = self.ident(it) {
            let mut segments: Vec<Sym> = Vec::new();
            segments.push(segment);
            proof {
                assert(segments@ =~= seq![segment]);
            }
            self.segments_rest(it, &mut segments);
            Ok(Some(ModPath { local, segments }))
        } else {
            self.index = i;
            Ok(None)
        }
    }

    /// Parses the comma-separated continuation of a binding list.
    #[verifier::rlimit(100)]
    #[verifier::spinoff_prover]
    fn bindings_rest(&mut self, it: &mut Interner, bindings: &mut Vec<(Sym, Sym)>) -> (r: ())
        requires
            old(self).index <= old(self).tokens@.len(),
        ensures
            final(self).source@ == old(self).source@,
            final(self).tokens@ == old(self).tokens@,
            old(self).index <= final(self).index <= old(self).tokens@.len(),
            ({
                let (bs, i2, s2) = spec_bindings_rest(
                    old(self).tokens@,
                    old(self).source@,
                    old(self).index as int,
                    old(it)@,
                    old(bindings)@,
                );
                final(self).index == i2 && final(it)@ == s2 && final(bindings)@ == bs
            }),
        decreases rem(old(self).tokens@, old(self).index as int), 0int,
    {
        proof {
            reveal(spec_bindings_rest);
        }
        if self.accept(TokenKind::Comma).is_none() {
            return ;
        }
        if let Some(binding) = self.ident(it) {
            bindings.push((binding, binding));
        }
        self.bindings_rest(it, bindings)
    }

    /// Parses a parenthesised binding list; each name binds to itself.
    #[verifier::rlimit(100)]
    #[verifier::spinoff_prover]
    fn bindings(&mut self, it: &mut Interner) -> (r: Result<Option<Vec<(Sym, Sym)>>, Error>)
        requires
            old(self).index <= old(self).tokens@.len(),
        ensures
            final(self).source@ == old(self).source@,
            final(self).tokens@ == old(self).tokens@,
            old(self).index <= final(self).index <= old(self).tokens@.len(),
            ({
                let s = spec_bindings(
                    old(self).tokens@,
                    old(self).source@,
                    old(self).index as int,
                    old(it)@,
                );
                final(self).index == s.i && final(it)@ == s.strs && match (r, s.r) {
                    (Ok(Some(v)), Ok(Some(sv))) => v@ == sv,
                    (Ok(None), Ok(None)) => true,
                    (Err(a), Err(b)) => a == b,
                    _ => false,
                }
            }),
        decreases rem(old(self).tokens@, old(self).index as int), 11int,
    {
        proof {
            reveal(spec_bindings);
        }
        if self.accept(TokenKind::LParen).is_none() {
            return Ok(None);
        }
        let mut bindings: Vec<(Sym, Sym)> = Vec::new();
        if let Some(binding) = self.ident(it) {
            bindings.push((binding, binding));
            proof {
                assert(bindings@ =~= seq![(binding, binding)]);
            }
            self.bindings_rest(it, &mut bindings);
        }
        if self.accept(TokenKind::RParen).is_none() {
            return Err(self.invalid_token());
        }
        Ok(Some(bindings))
    }

    /// Parses one dependency: a module path and its bindings.
    #[verifier::rlimit(100)]
    #[verifier::spinoff_prover]
    fn dep(&mut self, it: &mut Interner) -> (r: Result<Option<Dep>, Error>)
        requires
            old(self).index <= old(self).tokens@.len(),
        ensures
            final(self).source@ == old(self).source@,
            final(self).tokens@ == old(self).tokens@,
            old(self).index <= final(self).index <= old(self).tokens@.len(),
            ({
                let s = spec_dep(
                    old(self).tokens@,
                    old(self).source@,
                    old(self).index as int,
                    old(it)@,
                );
                final(self).index == s.i && final(it)@ == s.strs && match (r, s.r) {
                    (Ok(Some(d)), Ok(Some(dv))) => dep_view(d) == dv,
                    (Ok(None), Ok(None)) => true,
                    (Err(a), Err(b)) => a == b,
                    _ => false,
                }
            }),
        decreases rem(old(self).tokens@, old(self).index as int), 12int,
    {
        proof {
            reveal(spec_dep);
        }
        match self.mod_path(it) {
            Err(e) => Err(e),
            Ok(None) => Ok(None),
            Ok(Some(path)) => {
                match self.bindings(it) {
                    Err(e) => Err(e),
                    Ok(None) => Err(self.invalid_token()),
                    Ok(Some(bindings)) => Ok(Some(Dep { path, bindings })),
                }
            },
        }
    }

    /// Parses the comma-separated continuation of a dependency list.
    #[verifier::rlimit(100)]
    #[verifier::spinoff_prover]
    fn deps_rest(&mut self, it: &mut Interner, deps: &mut Vec<Dep>) -> (r: Result<(), Error>)
        requires
            old(self).index <= old(self).tokens@.len(),
        ensures
            final(self).source@ == old(self).source@,
            final(self).tokens@ == old(self).tokens@,
            old(self).index <= final(self).index <= old(self).tokens@.len(),
            ({
                let s = spec_deps_rest(
                    old(self).tokens@,
                    old(self).source@,
                    old(self).index as int,
                    old(it)@,
                    deps_view(old(deps)@),
                );
                final(self).index == s.i && final(it)@ == s.strs && match (r, s.r) {
                    (Ok(()), Ok(accv)) => deps_view(final(deps)@) == accv,
                    (Err(a), Err(b)) => a == b,
                    _ => false,
                }
            }),
        decreases rem(old(self).tokens@, old(self).index as int), 0int,
    {
        proof {
            reveal(spec_deps_rest);
        }
        if self.accept(TokenKind::Comma).is_none() {
            return Ok(());
        }
        match self.dep(it) {
            Err(e) => Err(e),
            Ok(Some(d)) => {
                let ghost prev = deps@;
                deps.push(d);
                proof {
                    assert(deps@.drop_last() =~= prev);
                }
                self.deps_rest(it, deps)
            },
            Ok(None) => self.deps_rest(it, deps),
        }
    }

    /// Parses an optional `use { ... }` dependency list.
    #[verifier::rlimit(100)]
    #[verifier::spinoff_prover]
    fn deps(&mut self, it: &mut Interner) -> (r: Result<Vec<Dep>, Error>)
        requires
            old(self).index <= old(self).tokens@.len(),
        ensures
            final(self).source@ == old(self).source@,
            final(self).tokens@ == old(self).tokens@,
            old(self).index <= final(self).index <= old(self).tokens@.len(),
            ({
                let s = spec_deps(
                    old(self).tokens@,
                    old(self).source@,
                    old(self).index as int,
                    old(it)@,
                );
                final(self).index == s.i && final(it)@ == s.strs && match (r, s.r) {
                    (Ok(v), Ok(sv)) => deps_view(v@) == sv,
                    (Err(a), Err(b)) => a == b,
                    _ => false,
                }
            }),
        decreases rem(old(self).tokens@, old(self).index as int), 13int,
    {
        proof {
            reveal(spec_deps);
        }
        let ghost tok0 = self.tokens@;
        let ghost src0 = self.source@;
        let mut deps: Vec<Dep> = Vec::new();
        if self.accept(TokenKind::Use).is_none() {
            proof {
                assert(deps_view(deps@) =~= Seq::<DepV>::empty());
            }
            return Ok(deps);
        }
        if self.accept(TokenKind::LBrace).is_none() {
            return Err(self.invalid_token());
        }
        let ghost i2 = self.index as int;
        let ghost it2 = it@;
        match self.dep(it) {
            Err(e) => {
                return Err(e);
            },
            Ok(Some(d)) => {
                deps.push(d);
                proof {
                    assert(deps@.drop_last() =~= Seq::<Dep>::empty());
                    lemma_deps_view(deps@);
                    let e = spec_dep(tok0, src0, i2, it2);
                    assert(deps_view(deps@) =~= seq![e.r->Ok_0->Some_0]);
                }
                match self.deps_rest(it, &mut deps) {
                    Err(e) => {
                        return Err(e);
                    },
                    Ok(()) => {},
                }
            },
            Ok(None) => {
                proof {
                    assert(deps_view(deps@) =~= Seq::<DepV>::empty());
                }
            },
        }
        if self.accept(TokenKind::RBrace).is_none() {
            return Err(self.invalid_token());
        }
        Ok(deps)
    }

    /// Parses a module body's definitions; a bare expression at module
    /// level is an error.
    #[verifier::rlimit(100)]
    #[verifier::spinoff_prover]
    #[verifier::loop_isolation(false)]
    fn defs(&mut self, it: &mut Interner) -> (r: Result<Vec<Stmt>, Error>)
        requires
            old(self).index <= old(self).tokens@.len(),
        ensures
            final(self).source@ == old(self).source@,
            final(self).tokens@ == old(self).tokens@,
            old(self).index <= final(self).index <= old(self).tokens@.len(),
            ({
                let s = spec_defs(
                    old(self).tokens@,
                    old(self).source@,
                    old(self).index as int,
                    old(it)@,
                );
                final(self).index == s.i && final(it)@ == s.strs && match (r, s.r) {
                    (Ok(v), Ok(sv)) => stmts_view(v@) == sv,
                    (Err(a), Err(b)) => a == b,
                    _ => false,
                }
            }),
        decreases rem(old(self).tokens@, old(self).index as int), 13int,
    {
        proof {
            reveal(spec_defs);
        }
        let def = match self.stmts(it) {
            Err(e) => {
                return Err(e);
            },
            Ok(v) => v,
        };
        proof {
            lemma_stmts_view(def@);
        }
        let ghost n = def@.len();
        let mut k: usize = 0;
        while k < def.len()
            invariant
                k <= def@.len(),
                forall|j: int| 0 <= j < k ==> !(#[trigger] stmts_view(def@)[j] is Expr),
            decreases def@.len() - k,
        {
            if let Stmt::Expr(_) = &def[k] {
                proof {
                    assert(stmts_view(def@)[k as int] is Expr);
                    assert(spec_has_expr_stmt(stmts_view(def@)));
                }
                return Err(
                    Error::at(
                        ErrorKind::NoUnboundExprAtModuleLevel,
                        self.invalid_token().span,
                    ),
                );
            }
            k = k + 1;
        }
        proof {
            assert(!spec_has_expr_stmt(stmts_view(def@)));
        }
        Ok(def)
    }

    /// Parses a whole module: dependencies, an optional comma, then
    /// definitions.
    #[verifier::rlimit(100)]
    #[verifier::spinoff_prover]
    fn module(&mut self, it: &mut Interner) -> (r: Result<Mod, Error>)
        requires
            old(self).index <= old(self).tokens@.len(),
        ensures
            final(self).source@ == old(self).source@,
            final(self).tokens@ == old(self).tokens@,
            old(self).index <= final(self).index <= old(self).tokens@.len(),
            ({
                let s = spec_module(
                    old(self).tokens@,
                    old(self).source@,
                    old(self).index as int,
                    old(it)@,
                );
                final(self).index == s.i && final(it)@ == s.strs && match (r, s.r) {
                    (Ok(m), Ok(mv)) => mod_view(m) == mv,
                    (Err(a), Err(b)) => a == b,
                    _ => false,
                }
            }),
        decreases rem(old(self).tokens@, old(self).index as int), 14int,
    {
        proof {
            reveal(spec_module);
        }
        let deps = match self.deps(it) {
            Err(e) => {
                return Err(e);
            },
            Ok(v) => v,
        };
        let _comma = self.accept(TokenKind::Comma);
        let defs = match self.defs(it) {
            Err(e) => {
                return Err(e);
            },
            Ok(v) => v,
        };
        Ok(Mod { deps, defs })
    }
}

/// The value of a hexadecimal digit byte.
fn hex_val(c: u8) -> (r: Option<u8>)
    ensures
        r == spec_hex_val(c),
{
    if 0x30 <= c && c <= 0x39 {
        Some(c - 0x30)
    } else if 0x61 <= c && c <= 0x66 {
        Some(10 + c - 0x61)
    } else if 0x41 <= c && c <= 0x46 {
        Some(10 + c - 0x41)
    } else {
        None
    }
}

/// Token kinds compare by variant.
fn token_kind_eq(a: TokenKind, b: TokenKind) -> (r: bool)
    ensures
        r == (a == b),
{
    a == b
}


/// The shapes of a sequence of pattern entries.
pub open spec fn pat_entries_view(v: Seq<TupleEntry<Pat>>) -> Seq<TupleEntry<PatV>>
    decreases v,
{
    if v.len() == 0 {
        Seq::empty()
    } else {
        pat_entries_view(v.drop_last()).push(
            match v.last() {
                TupleEntry::Pos(p) => TupleEntry::Pos(pat_view(p)),
                TupleEntry::Named(k, p) => TupleEntry::Named(k, pat_view(p)),
            },
        )
    }
}

/// `pat_entries_view` maps the sequence elementwise.
pub proof fn lemma_pat_entries_view(v: Seq<TupleEntry<Pat>>)
    ensures
        pat_entries_view(v).len() == v.len(),
        forall|i: int|
            0 <= i < v.len() ==> #[trigger] pat_entries_view(v)[i] == (match v[i] {
                TupleEntry::Pos(p) => TupleEntry::Pos(pat_view(p)),
                TupleEntry::Named(k, p) => TupleEntry::Named(k, pat_view(p)),
            }),
    decreases v,
{
    if v.len() > 0 {
        lemma_pat_entries_view(v.drop_last());
    }
}

/// Viewing commutes with collecting pattern entries into a tuple shape.
pub proof fn lemma_from_entries_pats(entries: Seq<TupleEntry<Pat>>)
    ensures
        ({
            let t = spec_from_entries(entries);
            let tv = spec_from_entries(pat_entries_view(entries));
            tv.keys == t.keys && tv.data == crate::ast::pats_view(t.data)
        }),
    decreases entries,
{
    lemma_pat_entries_view(entries);
    if entries.len() == 0 {
        assert(crate::ast::pats_view(Seq::<Pat>::empty()) =~= Seq::<PatV>::empty());
    } else {
        lemma_from_entries_pats(entries.drop_last());
        lemma_pat_entries_view(entries.drop_last());
        assert(pat_entries_view(entries).drop_last() =~= pat_entries_view(entries.drop_last()));
        let t = spec_from_entries(entries.drop_last());
        lemma_pats_view(t.data);
        match entries.last() {
            TupleEntry::Pos(p) => {
                lemma_pats_insert_commutes(
                    t.data,
                    crate::tuple::spec_named_offset(t.keys, t.data.len() as int),
                    p,
                );
            },
            TupleEntry::Named(k, p) => {
                let ofs = crate::tuple::spec_named_offset(t.keys, t.data.len() as int);
                crate::tuple::lemma_bsearch_bounds(t.keys, k, 0, t.keys.len() as int);
                match crate::tuple::spec_bsearch(t.keys, k, 0, t.keys.len() as int) {
                    Ok(idx) => {
                        if ofs + idx < t.data.len() {
                            lemma_pats_update_commutes(t.data, ofs + idx, p);
                        } else {
                            lemma_pats_push_commutes(t.data, p);
                        }
                    },
                    Err(idx) => {
                        lemma_pats_insert_commutes(
                            t.data,
                            if ofs + idx <= t.data.len() {
                                ofs + idx
                            } else {
                                t.data.len() as int
                            },
                            p,
                        );
                    },
                }
            },
        }
    }
}

/// Viewing commutes with inserting a pattern into a data sequence.
pub proof fn lemma_pats_insert_commutes(data: Seq<Pat>, at: int, p: Pat)
    requires
        0 <= at <= data.len(),
    ensures
        crate::ast::pats_view(data.insert(at, p)) == crate::ast::pats_view(data).insert(
            at,
            pat_view(p),
        ),
{
    lemma_pats_view(data);
    lemma_pats_view(data.insert(at, p));
    assert(crate::ast::pats_view(data.insert(at, p)) =~= crate::ast::pats_view(data).insert(
        at,
        pat_view(p),
    ));
}

/// Viewing commutes with updating a pattern in a data sequence.
pub proof fn lemma_pats_update_commutes(data: Seq<Pat>, at: int, p: Pat)
    requires
        0 <= at < data.len(),
    ensures
        crate::ast::pats_view(data.update(at, p)) == crate::ast::pats_view(data).update(
            at,
            pat_view(p),
        ),
{
    lemma_pats_view(data);
    lemma_pats_view(data.update(at, p));
    assert(crate::ast::pats_view(data.update(at, p)) =~= crate::ast::pats_view(data).update(
        at,
        pat_view(p),
    ));
}

/// Viewing commutes with appending a pattern to a data sequence.
pub proof fn lemma_pats_push_commutes(data: Seq<Pat>, p: Pat)
    ensures
        crate::ast::pats_view(data.push(p)) == crate::ast::pats_view(data).push(pat_view(p)),
{
    lemma_pats_view(data);
    lemma_pats_view(data.push(p));
    assert(crate::ast::pats_view(data.push(p)) =~= crate::ast::pats_view(data).push(pat_view(p)));
}

/// The shapes of a sequence of expression entries.
pub open spec fn expr_entries_view(v: Seq<TupleEntry<Expr>>) -> Seq<TupleEntry<ExprV>>
    decreases v,
{
    if v.len() == 0 {
        Seq::empty()
    } else {
        expr_entries_view(v.drop_last()).push(
            match v.last() {
                TupleEntry::Pos(e) => TupleEntry::Pos(expr_view(e)),
                TupleEntry::Named(k, e) => TupleEntry::Named(k, expr_view(e)),
            },
        )
    }
}

/// `expr_entries_view` maps the sequence elementwise.
pub proof fn lemma_expr_entries_view(v: Seq<TupleEntry<Expr>>)
    ensures
        expr_entries_view(v).len() == v.len(),
        forall|i: int|
            0 <= i < v.len() ==> #[trigger] expr_entries_view(v)[i] == (match v[i] {
                TupleEntry::Pos(e) => TupleEntry::Pos(expr_view(e)),
                TupleEntry::Named(k, e) => TupleEntry::Named(k, expr_view(e)),
            }),
    decreases v,
{
    if v.len() > 0 {
        lemma_expr_entries_view(v.drop_last());
    }
}

/// Viewing commutes with inserting an expression into a data sequence.
pub proof fn lemma_exprs_insert_commutes(data: Seq<Expr>, at: int, e: Expr)
    requires
        0 <= at <= data.len(),
    ensures
        crate::ast::exprs_view(data.insert(at, e)) == crate::ast::exprs_view(data).insert(
            at,
            expr_view(e),
        ),
{
    lemma_exprs_view(data);
    lemma_exprs_view(data.insert(at, e));
    assert(crate::ast::exprs_view(data.insert(at, e)) =~= crate::ast::exprs_view(data).insert(
        at,
        expr_view(e),
    ));
}

/// Viewing commutes with updating an expression in a data sequence.
pub proof fn lemma_exprs_update_commutes(data: Seq<Expr>, at: int, e: Expr)
    requires
        0 <= at < data.len(),
    ensures
        crate::ast::exprs_view(data.update(at, e)) == crate::ast::exprs_view(data).update(
            at,
            expr_view(e),
        ),
{
    lemma_exprs_view(data);
    lemma_exprs_view(data.update(at, e));
    assert(crate::ast::exprs_view(data.update(at, e)) =~= crate::ast::exprs_view(data).update(
        at,
        expr_view(e),
    ));
}

/// Viewing commutes with appending an expression to a data sequence.
pub proof fn lemma_exprs_push_commutes(data: Seq<Expr>, e: Expr)
    ensures
        crate::ast::exprs_view(data.push(e)) == crate::ast::exprs_view(data).push(expr_view(e)),
{
    lemma_exprs_view(data);
    lemma_exprs_view(data.push(e));
    assert(crate::ast::exprs_view(data.push(e)) =~= crate::ast::exprs_view(data).push(expr_view(e)));
}

/// Viewing commutes with collecting expression entries into a tuple shape.
pub proof fn lemma_from_entries_exprs(entries: Seq<TupleEntry<Expr>>)
    ensures
        ({
            let t = spec_from_entries(entries);
            let tv = spec_from_entries(expr_entries_view(entries));
            tv.keys == t.keys && tv.data == crate::ast::exprs_view(t.data)
        }),
    decreases entries,
{
    lemma_expr_entries_view(entries);
    if entries.len() == 0 {
        assert(crate::ast::exprs_view(Seq::<Expr>::empty()) =~= Seq::<ExprV>::empty());
    } else {
        lemma_from_entries_exprs(entries.drop_last());
        lemma_expr_entries_view(entries.drop_last());
        assert(expr_entries_view(entries).drop_last() =~= expr_entries_view(entries.drop_last()));
        let t = spec_from_entries(entries.drop_last());
        lemma_exprs_view(t.data);
        match entries.last() {
            TupleEntry::Pos(e) => {
                lemma_exprs_insert_commutes(
                    t.data,
                    crate::tuple::spec_named_offset(t.keys, t.data.len() as int),
                    e,
                );
            },
            TupleEntry::Named(k, e) => {
                let ofs = crate::tuple::spec_named_offset(t.keys, t.data.len() as int);
                crate::tuple::lemma_bsearch_bounds(t.keys, k, 0, t.keys.len() as int);
                match crate::tuple::spec_bsearch(t.keys, k, 0, t.keys.len() as int) {
                    Ok(idx) => {
                        if ofs + idx < t.data.len() {
                            lemma_exprs_update_commutes(t.data, ofs + idx, e);
                        } else {
                            lemma_exprs_push_commutes(t.data, e);
                        }
                    },
                    Err(idx) => {
                        lemma_exprs_insert_commutes(
                            t.data,
                            if ofs + idx <= t.data.len() {
                                ofs + idx
                            } else {
                                t.data.len() as int
                            },
                            e,
                        );
                    },
                }
            },
        }
    }
}


/// Parses one expression out of `source`, or `Void` when the source holds
/// none: exactly what `spec_parse_expr` describes.
#[verifier::rlimit(100)]
#[verifier::spinoff_prover]
pub fn parse_expr(source: &[u8], interner: &mut Interner) -> (r: Result<Expr, Error>)
    ensures
        ({
            let (sr, strs2) = spec_parse_expr(source@, old(interner)@);
            final(interner)@ == strs2 && match (r, sr) {
                (Ok(e), Ok(ev)) => expr_view(e) == ev,
                (Err(a), Err(b)) => a == b,
                _ => false,
            }
        }),
{
    proof {
        reveal(spec_parse_expr);
    }
    let tokens = match tokenize(source) {
        Ok(t) => t,
        Err(e) => {
            return Err(e);
        },
    };
    let mut parser = Parser::new(source, tokens);
    match parser.expr(interner) {
        Err(e) => Err(e),
        Ok(Some(expr)) => Ok(expr),
        Ok(None) => Ok(Expr::unknown(ExprKind::Void)),
    }
}

/// Parses one statement out of `source`, or a bare `Void` expression
/// statement when the source holds none: exactly what `spec_parse_stmt`
/// describes.
#[verifier::rlimit(100)]
#[verifier::spinoff_prover]
pub fn parse_stmt(source: &[u8], interner: &mut Interner) -> (r: Result<Stmt, Error>)
    ensures
        ({
            let (sr, strs2) = spec_parse_stmt(source@, old(interner)@);
            final(interner)@ == strs2 && match (r, sr) {
                (Ok(st), Ok(sv)) => stmt_view(st) == sv,
                (Err(a), Err(b)) => a == b,
                _ => false,
            }
        }),
{
    proof {
        reveal(spec_parse_stmt);
    }
    let tokens = match tokenize(source) {
        Ok(t) => t,
        Err(e) => {
            return Err(e);
        },
    };
    let mut parser = Parser::new(source, tokens);
    match parser.stmt(interner) {
        Err(e) => Err(e),
        Ok(Some(stmt)) => Ok(stmt),
        Ok(None) => Ok(Stmt::Expr(Expr::unknown(ExprKind::Void))),
    }
}

/// Parses a whole module out of `source`: exactly what
/// `spec_parse_module` describes.
#[verifier::rlimit(100)]
#[verifier::spinoff_prover]
pub fn parse_module(source: &[u8], interner: &mut Interner) -> (r: Result<Mod, Error>)
    ensures
        ({
            let (sr, strs2) = spec_parse_module(source@, old(interner)@);
            final(interner)@ == strs2 && match (r, sr) {
                (Ok(m), Ok(mv)) => mod_view(m) == mv,
                (Err(a), Err(b)) => a == b,
                _ => false,
            }
        }),
{
    proof {
        reveal(spec_parse_module);
    }
    let tokens = match tokenize(source) {
        Ok(t) => t,
        Err(e) => {
            return Err(e);
        },
    };
    let mut parser = Parser::new(source, tokens);
    parser.module(interner)
}

} // verus!
