//! Laws of the language, stated once and proved from the spec mirrors
//! that the executable functions are verified against.

use vstd::prelude::*;
use crate::ast::{BinOp, ExprKindV, ExprV};
use crate::eval::{spec_apply_bin, spec_eval_expr};
use crate::lexer::{LexSt, Token, TokenKind, at_byte, spec_is_closer, spec_next, spec_whitespace};
use crate::parser::{spec_block, spec_stmts};
use crate::span::Span;
use crate::sym::Sym;
use crate::ty::TyV;
use crate::value::{ScopeV, ValueV};

verus! {

/// Integer arithmetic is total: addition, subtraction and multiplication
/// always produce a value (wrapping on overflow); division and remainder
/// produce one exactly when the divisor is nonzero and the quotient
/// representable; exponentiation exactly when the exponent is not
/// negative.
pub proof fn lemma_int_arithmetic_total(op: BinOp, x: i64, y: i64)
    ensures
        op == BinOp::Add || op == BinOp::Sub || op == BinOp::Mul ==> spec_apply_bin(
            op,
            ValueV::Int(x),
            ValueV::Int(y),
        ) is Ok,
        op == BinOp::Div || op == BinOp::Mod ==> (spec_apply_bin(
            op,
            ValueV::Int(x),
            ValueV::Int(y),
        ) is Ok <==> y != 0 && !(x == i64::MIN && y == -1)),
        op == BinOp::Exp ==> (spec_apply_bin(op, ValueV::Int(x), ValueV::Int(y)) is Ok <==> y
            >= 0),
{
}

/// The boolean literal `true`.
pub open spec fn true_lit() -> ExprV {
    ExprV { ty: TyV::Unknown, kind: ExprKindV::Bool(true) }
}

/// The boolean literal `false`.
pub open spec fn false_lit() -> ExprV {
    ExprV { ty: TyV::Unknown, kind: ExprKindV::Bool(false) }
}

/// Short-circuit of `||`: `true || e` evaluates to `true` without
/// evaluating `e` — whatever `e` is, even one that would fault, the
/// result is the boolean and the scopes are untouched.
pub proof fn lemma_or_short_circuit(fuel: nat, e: ExprV, arena: Seq<ScopeV>, scope: int, ctx: int)
    requires
        fuel >= 2,
    ensures
        spec_eval_expr(
            fuel,
            ExprV {
                ty: TyV::Unknown,
                kind: ExprKindV::BinOp(BinOp::Or, Box::new(true_lit()), Box::new(e)),
            },
            arena,
            scope,
            ctx,
        ) == (Ok::<ValueV, crate::eval::Error>(ValueV::Bool(true)), arena),
{
    let f = (fuel - 1) as nat;
    assert(spec_eval_expr(f, true_lit(), arena, scope, ctx) == (
        Ok::<ValueV, crate::eval::Error>(ValueV::Bool(true)),
        arena,
    ));
}

/// Short-circuit of `&&`: `false && e` evaluates to `false` without
/// evaluating `e`.
pub proof fn lemma_and_short_circuit(fuel: nat, e: ExprV, arena: Seq<ScopeV>, scope: int, ctx: int)
    requires
        fuel >= 2,
    ensures
        spec_eval_expr(
            fuel,
            ExprV {
                ty: TyV::Unknown,
                kind: ExprKindV::BinOp(BinOp::And, Box::new(false_lit()), Box::new(e)),
            },
            arena,
            scope,
            ctx,
        ) == (Ok::<ValueV, crate::eval::Error>(ValueV::Bool(false)), arena),
{
    let f = (fuel - 1) as nat;
    assert(spec_eval_expr(f, false_lit(), arena, scope, ctx) == (
        Ok::<ValueV, crate::eval::Error>(ValueV::Bool(false)),
        arena,
    ));
}

/// The block collapse: a braced block whose statements parse to exactly
/// one expression statement parses to that expression itself, not to a
/// block node.
pub proof fn lemma_block_single_expression(tokens: Seq<Token>, src: Seq<u8>, i: int, strs: Seq<Seq<u8>>)
    requires
        crate::parser::spec_accept(tokens, i, crate::lexer::TokenKind::LBrace).0 is Some,
        ({
            let w = spec_stmts(tokens, src, i + 1, strs);
            &&& w.r is Ok
            &&& w.r->Ok_0.len() == 1
            &&& w.r->Ok_0[0] is Expr
            &&& i + 1 <= w.i <= tokens.len()
            &&& crate::parser::spec_accept(tokens, w.i, crate::lexer::TokenKind::RBrace).0 is Some
        }),
    ensures
        ({
            let w = spec_stmts(tokens, src, i + 1, strs);
            spec_block(tokens, src, i, strs).r == Ok::<Option<ExprV>, crate::error::Error>(Some(w.r->Ok_0[0]->Expr_0))
        }),
{
    reveal(spec_block);
}

/// How the synthetic comma arms: skipping whitespace from a state with no
/// comma pending leaves one pending exactly when the last emitted token
/// is a statement-closer and the skipped stretch crossed a newline.
pub proof fn lemma_auto_comma_arming(src: Seq<u8>, st: LexSt)
    requires
        !st.pending,
    ensures
        ({
            let stw = spec_whitespace(src, st);
            stw.pending <==> (spec_is_closer(st.last) && exists|k: int|
                st.end <= k < stw.end && #[trigger] at_byte(src, k) == 0x0A)
        }),
    decreases src.len() - st.end,
{
    lemma_run_arming(src, st, |c: u8| crate::lexer::spec_is_space(c));
    crate::lexer::lemma_run_bounds(src, st, |c: u8| crate::lexer::spec_is_space(c));
    let st1 = crate::lexer::spec_run(src, st, |c: u8| crate::lexer::spec_is_space(c));
    if at_byte(src, st1.end) == 0x23 {
        let stb = crate::lexer::spec_bump(src, st1);
        let st2 = crate::lexer::spec_run(src, stb, |c: u8| c != 0x0A);
        let stw = spec_whitespace(src, st2);
        crate::lexer::lemma_run_bounds(src, stb, |c: u8| c != 0x0A);
        lemma_run_arming(src, stb, |c: u8| c != 0x0A);
        crate::lexer::lemma_whitespace_bounds(src, st2);
        assert(stb.pending == st1.pending);
        assert(st2.pending == st1.pending);
        if st1.pending {
            // A newline was crossed while the closer was the last token:
            // the flag stays armed through the rest of the whitespace.
            lemma_whitespace_keeps_pending(src, st2);
            assert(spec_is_closer(st.last));
            assert(exists|k: int| st.end <= k < st1.end && #[trigger] at_byte(src, k) == 0x0A);
            assert(exists|k: int| st.end <= k < stw.end && #[trigger] at_byte(src, k) == 0x0A) by {
                let w = choose|k: int|
                    st.end <= k < st1.end && #[trigger] at_byte(src, k) == 0x0A;
                assert(st.end <= w < stw.end && at_byte(src, w) == 0x0A);
            }
        } else {
            lemma_auto_comma_arming(src, st2);
            assert(st2.last == st.last);
            if spec_is_closer(st.last) {
                // Under a closer, no newline was crossed so far; the rest
                // of the whitespace decides, and its range decides alike.
                assert(!(exists|k: int|
                    st.end <= k < st1.end && #[trigger] at_byte(src, k) == 0x0A));
                assert(stw.pending <==> (exists|k: int|
                    st2.end <= k < stw.end && #[trigger] at_byte(src, k) == 0x0A));
                if exists|k: int| st.end <= k < stw.end && #[trigger] at_byte(src, k) == 0x0A {
                    let w = choose|k: int|
                        st.end <= k < stw.end && #[trigger] at_byte(src, k) == 0x0A;
                    if w < st1.end {
                        assert(false);
                    } else if w == st1.end {
                        assert(at_byte(src, w) == 0x23);
                    } else if w < st2.end {
                        assert(at_byte(src, w) != 0x0A);
                    } else {
                        assert(st2.end <= w < stw.end && at_byte(src, w) == 0x0A);
                    }
                }
                if exists|k: int| st2.end <= k < stw.end && #[trigger] at_byte(src, k) == 0x0A {
                    let w = choose|k: int|
                        st2.end <= k < stw.end && #[trigger] at_byte(src, k) == 0x0A;
                    assert(st.end <= w < stw.end && at_byte(src, w) == 0x0A);
                }
            }
        }
    }
}

/// A maximal run arms the pending comma exactly when it crosses a
/// newline after a statement-closer; otherwise it leaves the flag as it
/// found it. Every byte the run passed satisfied its predicate.
pub proof fn lemma_run_arming(src: Seq<u8>, st: LexSt, pred: spec_fn(u8) -> bool)
    ensures
        ({
            let r = crate::lexer::spec_run(src, st, pred);
            r.pending == if exists|k: int|
                st.end <= k < r.end && #[trigger] at_byte(src, k) == 0x0A {
                spec_is_closer(st.last)
            } else {
                st.pending
            }
        }),
        ({
            let r = crate::lexer::spec_run(src, st, pred);
            forall|k: int|
                st.end <= k < r.end ==> #[trigger] at_byte(src, k) != 0 && pred(at_byte(src, k))
        }),
    decreases src.len() - st.end,
{
    let c = at_byte(src, st.end);
    let r = crate::lexer::spec_run(src, st, pred);
    if c != 0 && pred(c) {
        let stb = crate::lexer::spec_bump(src, st);
        lemma_run_arming(src, stb, pred);
        crate::lexer::lemma_run_bounds(src, stb, pred);
        if c == 0x0A {
            assert(st.end <= st.end < r.end && at_byte(src, st.end) == 0x0A);
            if !(exists|k: int| stb.end <= k < r.end && #[trigger] at_byte(src, k) == 0x0A) {
                assert(r.pending == spec_is_closer(st.last));
            }
        } else {
            assert forall|k: int| st.end <= k < r.end && #[trigger] at_byte(src, k) == 0x0A implies
                stb.end <= k < r.end by {}
        }
    } else {
        assert(forall|k: int| !(st.end <= k < r.end && #[trigger] at_byte(src, k) == 0x0A));
    }
}

/// Once the pending comma is armed, skipping more whitespace cannot
/// disarm it while the last emitted token stays a closer; with it armed,
/// it stays armed.
pub proof fn lemma_whitespace_keeps_pending(src: Seq<u8>, st: LexSt)
    requires
        st.pending,
        spec_is_closer(st.last),
    ensures
        spec_whitespace(src, st).pending,
    decreases src.len() - st.end,
{
    lemma_run_keeps_pending(src, st, |c: u8| crate::lexer::spec_is_space(c));
    let st1 = crate::lexer::spec_run(src, st, |c: u8| crate::lexer::spec_is_space(c));
    if at_byte(src, st1.end) == 0x23 {
        let stb = crate::lexer::spec_bump(src, st1);
        let st2 = crate::lexer::spec_run(src, stb, |c: u8| c != 0x0A);
        crate::lexer::lemma_run_bounds(src, st, |c: u8| crate::lexer::spec_is_space(c));
        crate::lexer::lemma_run_bounds(src, stb, |c: u8| c != 0x0A);
        lemma_run_keeps_pending(src, stb, |c: u8| c != 0x0A);
        lemma_whitespace_keeps_pending(src, st2);
    }
}

/// A run never disarms a pending comma whose last token is a closer.
pub proof fn lemma_run_keeps_pending(src: Seq<u8>, st: LexSt, pred: spec_fn(u8) -> bool)
    requires
        st.pending,
        spec_is_closer(st.last),
    ensures
        crate::lexer::spec_run(src, st, pred).pending,
    decreases src.len() - st.end,
{
    let c = at_byte(src, st.end);
    if c != 0 && pred(c) {
        lemma_run_keeps_pending(src, crate::lexer::spec_bump(src, st), pred);
    }
}

/// The synthetic comma: when the pending flag is armed after whitespace,
/// the next token is a comma with a zero-width span at the cursor, and
/// the flag is cleared.
pub proof fn lemma_synthetic_comma(src: Seq<u8>, st: LexSt)
    ensures
        ({
            let stw = spec_whitespace(src, st);
            stw.pending ==> spec_next(src, st) == (
                Some(
                    Ok::<Token, crate::error::Error>(
                        Token {
                            kind: TokenKind::Comma,
                            span: Span { start: stw.end as usize, end: stw.end as usize },
                        },
                    ),
                ),
                LexSt {
                    start: stw.end,
                    end: stw.end,
                    last: Some(TokenKind::Comma),
                    pending: false,
                },
            )
        }),
{
}

/// `keys_sorted` makes the binary search complete: a key present in a
/// strictly sorted key array is found at its position.
pub proof fn lemma_sorted_key_found(keys: Seq<Sym>, key: Sym, j: int, lo: int, hi: int)
    requires
        crate::tuple::keys_sorted(keys),
        0 <= lo <= j < hi <= keys.len(),
        keys[j] == key,
    ensures
        crate::tuple::spec_bsearch(keys, key, lo, hi) == Ok::<int, int>(j),
    decreases hi - lo,
{
    let mid = lo + (hi - lo) / 2;
    if keys[mid].0 < key.0 {
        assert(mid < j);
        lemma_sorted_key_found(keys, key, j, mid + 1, hi);
    } else if keys[mid].0 > key.0 {
        assert(j < mid);
        lemma_sorted_key_found(keys, key, j, lo, mid);
    } else {
        assert(keys[mid].0 == key.0);
        if mid < j {
            assert(keys[mid].0 < keys[j].0);
        } else if j < mid {
            assert(keys[j].0 < keys[mid].0);
        }
        assert(mid == j);
        assert(keys[mid] == keys[j]);
    }
}

/// Named dot lookup on a well-formed tuple: when `key` sits at position
/// `j` of the sorted key array, the lookup yields the matching named
/// item, the `j`-th entry after the positional prefix.
pub proof fn lemma_named_lookup(keys: Seq<Sym>, data_len: int, key: Sym, j: int)
    requires
        crate::tuple::keys_sorted(keys),
        keys.len() <= data_len,
        0 <= j < keys.len(),
        keys[j] == key,
    ensures
        crate::tuple::spec_key_position(keys, data_len, key) == Some(
            crate::tuple::spec_named_offset(keys, data_len) + j,
        ),
{
    lemma_sorted_key_found(keys, key, j, 0, keys.len() as int);
}


/// Where a token's lexeme sits: each emitted token's span begins exactly
/// where the skipped whitespace ends and ends exactly at the new cursor.
/// With `lemma_spans_tile` this says the lexemes, with the skipped
/// whitespace and comments between them, lay the source back end to end.
#[verifier::rlimit(100)]
#[verifier::spinoff_prover]
pub proof fn lemma_next_token_span(src: Seq<u8>, st: LexSt)
    requires
        0 <= st.end <= src.len(),
        src.len() <= usize::MAX,
    ensures
        ({
            let stw = spec_whitespace(src, st);
            let (r, st2) = spec_next(src, st);
            r matches Some(Ok(t)) ==> st.end <= stw.end && t.span.start as int == stw.end
                && t.span.end as int == st2.end && stw.end <= st2.end <= src.len()
        }),
{
    crate::lexer::lemma_whitespace_bounds(src, st);
    let stw = spec_whitespace(src, st);
    let st0 = LexSt { start: stw.end, end: stw.end, last: stw.last, pending: stw.pending };
    if !st0.pending {
        crate::lexer::lemma_run_bounds(
            src,
            crate::lexer::spec_bump(src, st0),
            |c: u8| crate::lexer::spec_is_ident_rest(c),
        );
        crate::lexer::lemma_run_bounds(
            src,
            crate::lexer::spec_bump(src, crate::lexer::spec_bump(src, st0)),
            |b: u8| crate::lexer::spec_is_bin_digit(b),
        );
        crate::lexer::lemma_run_bounds(
            src,
            crate::lexer::spec_bump(src, crate::lexer::spec_bump(src, st0)),
            |b: u8| crate::lexer::spec_is_oct_digit(b),
        );
        crate::lexer::lemma_run_bounds(
            src,
            crate::lexer::spec_bump(src, crate::lexer::spec_bump(src, st0)),
            |b: u8| crate::lexer::spec_is_hex_digit(b),
        );
        lemma_scan_quoted_span(src, crate::lexer::spec_bump(src, st0), 0x27, TokenKind::Sym);
        lemma_scan_quoted_span(src, crate::lexer::spec_bump(src, st0), 0x22, TokenKind::Str);
        let st1 = crate::lexer::spec_run(
            src,
            crate::lexer::spec_bump(src, st0),
            |b: u8| crate::lexer::spec_is_digit(b),
        );
        crate::lexer::lemma_run_bounds(
            src,
            crate::lexer::spec_bump(src, st0),
            |b: u8| crate::lexer::spec_is_digit(b),
        );
        if at_byte(src, st1.end) == 0x2E {
            let st2 = crate::lexer::spec_run(
                src,
                crate::lexer::spec_bump(src, st1),
                |b: u8| crate::lexer::spec_is_digit(b),
            );
            crate::lexer::lemma_run_bounds(
                src,
                crate::lexer::spec_bump(src, st1),
                |b: u8| crate::lexer::spec_is_digit(b),
            );
            if at_byte(src, st2.end) == 0x65 {
                let st3 = crate::lexer::spec_bump(src, st2);
                let st4 = if at_byte(src, st3.end) == 0x2D {
                    crate::lexer::spec_bump(src, st3)
                } else {
                    st3
                };
                crate::lexer::lemma_run_bounds(src, st4, |b: u8| crate::lexer::spec_is_digit(b));
            }
        } else if at_byte(src, st1.end) == 0x65 {
            let st2 = crate::lexer::spec_bump(src, st1);
            let st3 = if at_byte(src, st2.end) == 0x2D {
                crate::lexer::spec_bump(src, st2)
            } else {
                st2
            };
            crate::lexer::lemma_run_bounds(src, st3, |b: u8| crate::lexer::spec_is_digit(b));
        }
    }
}

/// Quoted scans keep the lexeme's start and report spans at the cursor.
pub proof fn lemma_scan_quoted_span(src: Seq<u8>, st: LexSt, delim: u8, kind: TokenKind)
    ensures
        ({
            let (r, st2) = crate::lexer::spec_scan_quoted(src, st, delim, kind);
            st.end <= st2.end && (st.end <= src.len() ==> st2.end <= src.len()) && st2.start
                == st.start && (r matches Some(Ok(t)) ==> t.span.start == st2.start as usize
                && t.span.end == st2.end as usize)
        }),
    decreases src.len() - st.end,
{
    let c = at_byte(src, st.end);
    if c == 0 {
    } else if c == 0x5C {
        let st1 = crate::lexer::spec_bump(src, st);
        if at_byte(src, st1.end) != 0 {
            lemma_scan_quoted_span(src, crate::lexer::spec_bump(src, st1), delim, kind);
        }
    } else if c == delim {
    } else {
        lemma_scan_quoted_span(src, crate::lexer::spec_bump(src, st), delim, kind);
    }
}

/// The token spans of a whole stream tile the source in order: each span
/// lies within the source, spans never overlap, and what lies between two
/// consecutive spans is exactly the whitespace and comments the lexer
/// skipped. Synthetic commas contribute zero-width spans.
pub proof fn lemma_spans_tile(src: Seq<u8>, st: LexSt, acc: Seq<Token>)
    requires
        0 <= st.end <= src.len(),
        src.len() <= usize::MAX,
        forall|j: int|
            0 <= j < acc.len() ==> (#[trigger] acc[j].span).start <= acc[j].span.end
                && acc[j].span.end as int <= st.end,
        forall|j: int|
            0 < j < acc.len() ==> (#[trigger] acc[j].span).start >= acc[j - 1].span.end,
    ensures
        ({
            match crate::lexer::spec_tokens_from(src, st, acc) {
                Ok(toks) => (forall|j: int|
                    0 <= j < toks.len() ==> (#[trigger] toks[j].span).start <= toks[j].span.end
                        && toks[j].span.end as int <= src.len()) && (forall|j: int|
                    0 < j < toks.len() ==> (#[trigger] toks[j].span).start >= toks[j
                        - 1].span.end),
                Err(_) => true,
            }
        }),
    decreases crate::lexer::spec_lex_measure(src, st),
{
    crate::lexer::lemma_next_progress(src, st);
    lemma_next_token_span(src, st);
    match spec_next(src, st) {
        (None, _) => {
        },
        (Some(Ok(t)), st2) => {
            let acc2 = acc.push(t);
            assert(forall|j: int|
                0 <= j < acc.len() ==> (#[trigger] acc2[j]) == acc[j]);
            lemma_spans_tile(src, st2, acc2);
        },
        (Some(Err(_)), _) => {
        },
    }
}

/// The tiling of a full tokenisation: every token of `spec_tokenize` lies
/// within the source, in order and without overlap.
pub proof fn lemma_tokenize_spans_tile(src: Seq<u8>)
    requires
        src.len() <= usize::MAX,
    ensures
        ({
            match crate::lexer::spec_tokenize(src) {
                Ok(toks) => (forall|j: int|
                    0 <= j < toks.len() ==> (#[trigger] toks[j].span).start <= toks[j].span.end
                        && toks[j].span.end as int <= src.len()) && (forall|j: int|
                    0 < j < toks.len() ==> (#[trigger] toks[j].span).start >= toks[j
                        - 1].span.end),
                Err(_) => true,
            }
        }),
{
    lemma_spans_tile(
        src,
        LexSt { start: 0, end: 0, last: None, pending: false },
        Seq::empty(),
    );
}


/// An identifier expression shape for the interned spelling of `t`'s
/// lexeme.
pub open spec fn ident_of(src: Seq<u8>, strs: Seq<Seq<u8>>, t: Token) -> ExprV {
    ExprV {
        ty: TyV::Unknown,
        kind: ExprKindV::Ident(
            crate::sym::intern_sym(strs, crate::span::spec_slice(src, t.span)),
        ),
    }
}

/// An identifier token parses as an identifier atom, one cursor step.
pub proof fn lemma_ident_atom(tokens: Seq<Token>, src: Seq<u8>, i: int, strs: Seq<Seq<u8>>)
    requires
        0 <= i < tokens.len(),
        tokens[i].kind == TokenKind::Ident,
    ensures
        ({
            let a = crate::parser::spec_atom(tokens, src, i, strs);
            a.r == Ok::<Option<ExprV>, crate::error::Error>(Some(ident_of(src, strs, tokens[i])))
                && a.i == i + 1 && a.strs == crate::sym::intern_table(
                strs,
                crate::span::spec_slice(src, tokens[i].span),
            )
        }),
{
    reveal(crate::parser::spec_atom);
    reveal(crate::parser::spec_tuple);
    reveal(crate::parser::spec_list);
    reveal(crate::parser::spec_block);
    reveal(crate::parser::spec_atom_lit);
}

/// No opening parenthesis, no call arguments: the callee passes through.
pub proof fn lemma_no_call_args(tokens: Seq<Token>, src: Seq<u8>, i: int, strs: Seq<Seq<u8>>, f: ExprV)
    requires
        i >= tokens.len() || tokens[i].kind != TokenKind::LParen,
    ensures
        crate::parser::spec_call_args(tokens, src, i, strs, f) == (crate::parser::SpecParsed {
            r: Ok::<Option<ExprV>, crate::error::Error>(Some(f)),
            i,
            strs,
        }),
{
    reveal(crate::parser::spec_call_args);
}

/// No binary operator at or above the minimum precedence: the climb ends
/// with the operand it has.
pub proof fn lemma_binops_end(
    tokens: Seq<Token>,
    src: Seq<u8>,
    i: int,
    strs: Seq<Seq<u8>>,
    min_prec: u8,
    left: ExprV,
)
    requires
        i >= tokens.len() || i < 0 || crate::parser::spec_bin_op_of(tokens[i].kind) is None,
    ensures
        crate::parser::spec_binops(tokens, src, i, strs, min_prec, left)
            == (crate::parser::SpecParsed {
            r: Ok::<Option<ExprV>, crate::error::Error>(Some(left)),
            i,
            strs,
        }),
{
    reveal(crate::parser::spec_binops);
}

/// A lone identifier climbs to itself: the atom, no call arguments, and
/// an ended fold.
#[verifier::rlimit(100)]
#[verifier::spinoff_prover]
pub proof fn lemma_ident_climb(
    tokens: Seq<Token>,
    src: Seq<u8>,
    i: int,
    strs: Seq<Seq<u8>>,
    min_prec: u8,
)
    requires
        0 <= i < tokens.len(),
        tokens[i].kind == TokenKind::Ident,
        i + 1 >= tokens.len() || crate::parser::spec_bin_op_of(tokens[i + 1].kind) is None,
        i + 1 >= tokens.len() || tokens[i + 1].kind != TokenKind::LParen,
    ensures
        ({
            let p = crate::parser::spec_expr_prec(tokens, src, i, strs, min_prec);
            p.r == Ok::<Option<ExprV>, crate::error::Error>(Some(ident_of(src, strs, tokens[i])))
                && p.i == i + 1 && p.strs == crate::sym::intern_table(
                strs,
                crate::span::spec_slice(src, tokens[i].span),
            )
        }),
{
    reveal_with_fuel(crate::parser::spec_expr_prec, 1);
    lemma_ident_atom(tokens, src, i, strs);
    let s2 = crate::sym::intern_table(strs, crate::span::spec_slice(src, tokens[i].span));
    let idv = ident_of(src, strs, tokens[i]);
    lemma_no_call_args(tokens, src, i + 1, s2, idv);
    lemma_binops_end(tokens, src, i + 1, s2, min_prec, idv);
    let a = crate::parser::spec_atom(tokens, src, i, strs);
    assert(a.r == Ok::<Option<ExprV>, crate::error::Error>(Some(idv)));
    assert(crate::parser::adv(a.i, i + 1, tokens.len() as int) == i + 1);
    let cc = crate::parser::spec_call_args(tokens, src, i + 1, s2, idv);
    assert(cc.r == Ok::<Option<ExprV>, crate::error::Error>(Some(idv)) && cc.i == i + 1
        && cc.strs == s2);
    assert(crate::parser::adv(cc.i, i + 1, tokens.len() as int) == i + 1);
    let bb = crate::parser::spec_binops(tokens, src, i + 1, s2, min_prec, idv);
    assert(bb.r == Ok::<Option<ExprV>, crate::error::Error>(Some(idv)) && bb.i == i + 1
        && bb.strs == s2);
    assert(crate::parser::spec_expr_prec(tokens, src, i, strs, min_prec) == bb);
}

/// Operator precedence: over a stream `a o1 b o2 c` of identifiers and
/// binary operators, a left binding power of `o1` below that of `o2`
/// parses as `a o1 (b o2 c)` — the tighter operator binds its operands
/// first.
#[verifier::rlimit(100)]
#[verifier::spinoff_prover]
pub proof fn lemma_precedence(
    tokens: Seq<Token>,
    src: Seq<u8>,
    strs: Seq<Seq<u8>>,
    o1: BinOp,
    l1: u8,
    r1: u8,
    o2: BinOp,
    l2: u8,
    r2: u8,
)
    requires
        tokens.len() == 5,
        tokens[0].kind == TokenKind::Ident,
        tokens[2].kind == TokenKind::Ident,
        tokens[4].kind == TokenKind::Ident,
        crate::parser::spec_bin_op_of(tokens[1].kind) == Some((o1, l1, r1)),
        crate::parser::spec_bin_op_of(tokens[3].kind) == Some((o2, l2, r2)),
        l1 < l2,
    ensures
        ({
            let p = crate::parser::spec_expr(tokens, src, 0, strs);
            let a = ident_of(src, strs, tokens[0]);
            let s1 = crate::sym::intern_table(strs, crate::span::spec_slice(src, tokens[0].span));
            let b = ident_of(src, s1, tokens[2]);
            let s2 = crate::sym::intern_table(s1, crate::span::spec_slice(src, tokens[2].span));
            let c = ident_of(src, s2, tokens[4]);
            p.r == Ok::<Option<ExprV>, crate::error::Error>(
                Some(
                    ExprV {
                        ty: TyV::Unknown,
                        kind: ExprKindV::BinOp(
                            o1,
                            Box::new(a),
                            Box::new(
                                ExprV {
                                    ty: TyV::Unknown,
                                    kind: ExprKindV::BinOp(o2, Box::new(b), Box::new(c)),
                                },
                            ),
                        ),
                    },
                ),
            )
        }),
{
    reveal(crate::parser::spec_expr);
    reveal(crate::parser::spec_function);
    reveal(crate::parser::spec_if_else);
    reveal(crate::parser::spec_for_loop);
    reveal(crate::parser::spec_expr_prec);
    reveal_with_fuel(crate::parser::spec_binops, 2);
    assert(r1 == l1 + 1);
    let a = ident_of(src, strs, tokens[0]);
    let s1 = crate::sym::intern_table(strs, crate::span::spec_slice(src, tokens[0].span));
    let b = ident_of(src, s1, tokens[2]);
    let s2 = crate::sym::intern_table(s1, crate::span::spec_slice(src, tokens[2].span));
    let c = ident_of(src, s2, tokens[4]);
    let s3 = crate::sym::intern_table(s2, crate::span::spec_slice(src, tokens[4].span));
    let bc = ExprV { ty: TyV::Unknown, kind: ExprKindV::BinOp(o2, Box::new(b), Box::new(c)) };
    let abc = ExprV { ty: TyV::Unknown, kind: ExprKindV::BinOp(o1, Box::new(a), Box::new(bc)) };
    // Operators and identifiers never start an atom, a function, an
    // if-else or a for, so the stream falls to precedence climbing.
    lemma_ident_atom(tokens, src, 0, strs);
    lemma_no_call_args(tokens, src, 1, s1, a);
    // The right operand of `o1` climbs at its right power and takes `o2`,
    // whose left power does not fall below it.
    lemma_ident_climb(tokens, src, 4, s2, r2);
    lemma_binops_end(tokens, src, 5, s3, r1, bc);
    assert(crate::parser::spec_binops(tokens, src, 3, s2, r1, b).r
        == Ok::<Option<ExprV>, crate::error::Error>(Some(bc)));
    lemma_ident_atom(tokens, src, 2, s1);
    lemma_no_call_args(tokens, src, 3, s2, b);
    assert(crate::parser::spec_expr_prec(tokens, src, 2, s1, r1).r
        == Ok::<Option<ExprV>, crate::error::Error>(Some(bc)));
    // The outer fold then pairs `o1` with the folded right operand.
    lemma_binops_end(tokens, src, 5, s3, 0, abc);
    assert(crate::parser::spec_binops(tokens, src, 1, s1, 0, a).r
        == Ok::<Option<ExprV>, crate::error::Error>(Some(abc)));
    assert(crate::parser::spec_expr_prec(tokens, src, 0, strs, 0).r
        == Ok::<Option<ExprV>, crate::error::Error>(Some(abc)));
}

} // verus!
