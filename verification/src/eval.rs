//! The tree-walking evaluator: it reduces an expression shape to a value
//! under two scope chains in the arena — the lexical chain, and the
//! dynamically scoped context chain.
//!
//! Every step is mirrored by a spec function over value and scope shapes,
//! threading the arena; each function's contract says it computes exactly
//! what its mirror describes. A step budget bounds the recursion: when it
//! runs out the evaluator reports `Depth` (the original recursed without
//! bound). Other deliberate totalizations, each mirrored exactly in the
//! spec: integer arithmetic wraps; division or remainder by zero, and the
//! one overflowing division, report `Types`; a negative integer exponent
//! reports `Types`; float-valued arithmetic and ordering live outside the
//! verified core and report `Types`, while float equality and negation
//! work on the literal text; the logical-not and bitwise operators are
//! reserved and report `Types`; binding a list pattern is reserved and
//! reports `Mismatch`.

use vstd::prelude::*;
use crate::ast::{
    BinOp, Expr, ExprKind, ExprKindV, ExprV, Pat, PatV, StmtV, UnOp, deps_view, expr_view,
    lemma_stmts_view, pats_view, stmt_view, stmts_view,
};
use crate::sym::Sym;
use crate::tuple::{
    SpecTuple, Tuple, TupleEntry, spec_entry, spec_key_position, spec_tuple_empty,
    spec_tuple_insert, spec_tuple_push,
};
use crate::value::{
    Scope, ScopeV, Value, ValueV, clone_value, lemma_scopes_view, lemma_values_view, scope_view,
    scopes_view, spec_value_eq, value_eq, value_view, values_view,
};
use vstd::wrapping::i64_specs;

verus! {

/// A runtime error: no value produced, an operand mismatch, a missing
/// tuple key, an unbound identifier, a failed pattern binding, or an
/// exhausted step budget.
#[derive(Debug, PartialEq, Eq, Clone, Copy, Structural)]
pub enum Error {
    Void,
    Types,
    KeyNotFound,
    Unbound,
    Mismatch,
    Depth,
}

/// Looks a name up along the lexical parent chain of `idx`; a frame
/// index at or above its child marks a malformed chain and reports
/// `Unbound` (the arena operations never build one).
pub open spec fn spec_lookup(arena: Seq<ScopeV>, idx: int, name: Sym) -> Result<ValueV, Error>
    decreases idx,
{
    if 0 <= idx < arena.len() {
        let fr = arena[idx];
        let hit = match spec_key_position(fr.bindings.keys, fr.bindings.data.len() as int, name) {
            Some(p) => if 0 <= p < fr.bindings.data.len() {
                Some(fr.bindings.data[p])
            } else {
                None
            },
            None => None,
        };
        match hit {
            Some(v) => Ok(v),
            None => match fr.parent {
                Some(p) => if 0 <= p < idx {
                    spec_lookup(arena, p, name)
                } else {
                    Err(Error::Unbound)
                },
                None => Err(Error::Unbound),
            },
        }
    } else {
        Err(Error::Unbound)
    }
}

/// What binding a name into frame `j` does to the arena; an index out of
/// range leaves it unchanged.
pub open spec fn spec_bind_frame(arena: Seq<ScopeV>, j: int, name: Sym, v: ValueV) -> Seq<ScopeV> {
    if 0 <= j < arena.len() {
        arena.update(
            j,
            ScopeV {
                parent: arena[j].parent,
                bindings: spec_tuple_insert(arena[j].bindings, name, v),
            },
        )
    } else {
        arena
    }
}

/// What pushing a fresh frame under `parent` does to the arena.
pub open spec fn spec_push_frame(arena: Seq<ScopeV>, parent: int) -> Seq<ScopeV> {
    arena.push(ScopeV { parent: Some(parent), bindings: spec_tuple_empty() })
}

/// Unary operators on value shapes. Negation on a float toggles the
/// leading minus of its text.
pub open spec fn spec_apply_un(op: UnOp, v: ValueV) -> Result<ValueV, Error> {
    match op {
        UnOp::Neg => match v {
            ValueV::Int(x) => Ok(ValueV::Int(i64_specs::wrapping_sub(0, x))),
            ValueV::Float(s) => Ok(
                ValueV::Float(
                    if s.len() > 0 && s[0] == 0x2D {
                        s.subrange(1, s.len() as int)
                    } else {
                        seq![0x2Du8] + s
                    },
                ),
            ),
            _ => Err(Error::Types),
        },
        UnOp::BitNot => match v {
            ValueV::Int(x) => Ok(ValueV::Int((-1 - x) as i64)),
            _ => Err(Error::Types),
        },
        UnOp::Not => Err(Error::Types),
    }
}

/// The magnitude of an integer as an unsigned value.
pub open spec fn spec_abs_u64(x: i64) -> u64 {
    if x >= 0 {
        x as u64
    } else {
        (((-1 - x) as u64) + 1) as u64
    }
}

/// Reinterpretation of an unsigned magnitude as a signed value, as the
/// truncating cast computes it.
pub open spec fn spec_clip_i64(x: u64) -> i64 {
    if x <= i64::MAX as u64 {
        x as i64
    } else {
        (x - 0x1_0000_0000_0000_0000) as i64
    }
}

/// Truncated signed division, by magnitudes; with the evaluator's guards
/// (nonzero divisor, not the one overflowing case) this is the machine's
/// signed division.
pub open spec fn spec_div_i64(x: i64, y: i64) -> i64 {
    let uq = spec_abs_u64(x) / spec_abs_u64(y);
    let t = spec_clip_i64(uq);
    if (x < 0) != (y < 0) {
        i64_specs::wrapping_sub(0, t)
    } else {
        t
    }
}

/// Truncated signed remainder: what is left after the division.
pub open spec fn spec_rem_i64(x: i64, y: i64) -> i64 {
    i64_specs::wrapping_sub(x, i64_specs::wrapping_mul(spec_div_i64(x, y), y))
}

/// Wrapping integer exponentiation by repeated multiplication.
pub open spec fn spec_pow_wrap(base: i64, e: nat) -> i64
    decreases e,
{
    if e == 0 {
        1
    } else {
        i64_specs::wrapping_mul(spec_pow_wrap(base, (e - 1) as nat), base)
    }
}

/// Lexicographic order on byte strings, as string comparison reads it.
pub open spec fn spec_bytes_lt(x: Seq<u8>, y: Seq<u8>) -> bool
    decreases x.len(),
{
    if y.len() == 0 {
        false
    } else if x.len() == 0 {
        true
    } else if x[0] < y[0] {
        true
    } else if x[0] > y[0] {
        false
    } else {
        spec_bytes_lt(x.drop_first(), y.drop_first())
    }
}

/// Whether two value shapes are of comparable, equal variants for `==`.
pub open spec fn spec_eq_comparable(a: ValueV, b: ValueV) -> bool {
    match (a, b) {
        (ValueV::Bool(_), ValueV::Bool(_)) => true,
        (ValueV::Sym(_), ValueV::Sym(_)) => true,
        (ValueV::Str(_), ValueV::Str(_)) => true,
        (ValueV::Int(_), ValueV::Int(_)) => true,
        (ValueV::Float(_), ValueV::Float(_)) => true,
        (ValueV::Tuple(_), ValueV::Tuple(_)) => true,
        (ValueV::List(_), ValueV::List(_)) => true,
        _ => false,
    }
}

/// Binary operators on value shapes, for every operator except the
/// short-circuiting ones and the dot (the evaluator handles those
/// itself).
pub open spec fn spec_apply_bin(op: BinOp, a: ValueV, b: ValueV) -> Result<ValueV, Error> {
    match op {
        BinOp::Add => match (a, b) {
            (ValueV::Int(x), ValueV::Int(y)) => Ok(ValueV::Int(i64_specs::wrapping_add(x, y))),
            _ => Err(Error::Types),
        },
        BinOp::Sub => match (a, b) {
            (ValueV::Int(x), ValueV::Int(y)) => Ok(ValueV::Int(i64_specs::wrapping_sub(x, y))),
            _ => Err(Error::Types),
        },
        BinOp::Mul => match (a, b) {
            (ValueV::Int(x), ValueV::Int(y)) => Ok(ValueV::Int(i64_specs::wrapping_mul(x, y))),
            _ => Err(Error::Types),
        },
        BinOp::Div => match (a, b) {
            (ValueV::Int(x), ValueV::Int(y)) => {
                if y == 0 || (x == i64::MIN && y == -1) {
                    Err(Error::Types)
                } else {
                    Ok(ValueV::Int(spec_div_i64(x, y)))
                }
            },
            _ => Err(Error::Types),
        },
        BinOp::Mod => match (a, b) {
            (ValueV::Int(x), ValueV::Int(y)) => {
                if y == 0 || (x == i64::MIN && y == -1) {
                    Err(Error::Types)
                } else {
                    Ok(ValueV::Int(spec_rem_i64(x, y)))
                }
            },
            _ => Err(Error::Types),
        },
        BinOp::Exp => match (a, b) {
            (ValueV::Int(x), ValueV::Int(y)) => {
                if y < 0 {
                    Err(Error::Types)
                } else {
                    Ok(ValueV::Int(spec_pow_wrap(x, y as nat)))
                }
            },
            _ => Err(Error::Types),
        },
        BinOp::Eq => if spec_eq_comparable(a, b) {
            Ok(ValueV::Bool(spec_value_eq(a, b)))
        } else {
            Err(Error::Types)
        },
        BinOp::NotEq => if spec_eq_comparable(a, b) {
            Ok(ValueV::Bool(!spec_value_eq(a, b)))
        } else {
            Err(Error::Types)
        },
        BinOp::Lt => match (a, b) {
            (ValueV::Str(x), ValueV::Str(y)) => Ok(ValueV::Bool(spec_bytes_lt(x, y))),
            (ValueV::Int(x), ValueV::Int(y)) => Ok(ValueV::Bool(x < y)),
            _ => Err(Error::Types),
        },
        BinOp::LtEq => match (a, b) {
            (ValueV::Str(x), ValueV::Str(y)) => Ok(ValueV::Bool(!spec_bytes_lt(y, x))),
            (ValueV::Int(x), ValueV::Int(y)) => Ok(ValueV::Bool(x <= y)),
            _ => Err(Error::Types),
        },
        BinOp::Gt => match (a, b) {
            (ValueV::Str(x), ValueV::Str(y)) => Ok(ValueV::Bool(spec_bytes_lt(y, x))),
            (ValueV::Int(x), ValueV::Int(y)) => Ok(ValueV::Bool(x > y)),
            _ => Err(Error::Types),
        },
        BinOp::GtEq => match (a, b) {
            (ValueV::Str(x), ValueV::Str(y)) => Ok(ValueV::Bool(!spec_bytes_lt(x, y))),
            (ValueV::Int(x), ValueV::Int(y)) => Ok(ValueV::Bool(x >= y)),
            _ => Err(Error::Types),
        },
        _ => Err(Error::Types),
    }
}

/// One evaluation step of an expression shape: the result and the arena
/// after it.
pub open spec fn spec_eval_expr(fuel: nat, e: ExprV, arena: Seq<ScopeV>, scope: int, ctx: int) -> (
    Result<ValueV, Error>,
    Seq<ScopeV>,
)
    decreases fuel, 3int,
{
    if fuel == 0 {
        (Err(Error::Depth), arena)
    } else {
        let f = (fuel - 1) as nat;
        match e.kind {
            ExprKindV::Void => (Err(Error::Void), arena),
            ExprKindV::Ident(s) => (spec_lookup(arena, scope, s), arena),
            ExprKindV::CtxIdent(s) => (spec_lookup(arena, ctx, s), arena),
            ExprKindV::Sym(s) => (Ok(ValueV::Sym(s)), arena),
            ExprKindV::Str(s) => (Ok(ValueV::Str(s)), arena),
            ExprKindV::Int(x) => (Ok(ValueV::Int(x)), arena),
            ExprKindV::Float(s) => (Ok(ValueV::Float(s)), arena),
            ExprKindV::Bool(b) => (Ok(ValueV::Bool(b)), arena),
            ExprKindV::Tuple(t) => {
                let (r, a2) = spec_eval_entries(
                    f,
                    t.keys,
                    t.data,
                    0,
                    spec_tuple_empty(),
                    arena,
                    scope,
                    ctx,
                );
                match r {
                    Ok(tv) => (Ok(ValueV::Tuple(tv)), a2),
                    Err(err) => (Err(err), a2),
                }
            },
            ExprKindV::List(items) => {
                let (r, a2) = spec_eval_list(f, items, 0, Seq::empty(), arena, scope, ctx);
                match r {
                    Ok(vs) => (Ok(ValueV::List(vs)), a2),
                    Err(err) => (Err(err), a2),
                }
            },
            ExprKindV::UnOp(op, inner) => {
                let (r, a2) = spec_eval_expr(f, *inner, arena, scope, ctx);
                match r {
                    Ok(v) => (spec_apply_un(op, v), a2),
                    Err(err) => (Err(err), a2),
                }
            },
            ExprKindV::BinOp(op, l, rr) => {
                if op == BinOp::And {
                    let (r1, a2) = spec_eval_expr(f, *l, arena, scope, ctx);
                    match r1 {
                        Ok(ValueV::Bool(true)) => {
                            let (r2, a3) = spec_eval_expr(f, *rr, a2, scope, ctx);
                            match r2 {
                                Ok(ValueV::Bool(v)) => (Ok(ValueV::Bool(v)), a3),
                                Ok(_) => (Err(Error::Types), a3),
                                Err(err) => (Err(err), a3),
                            }
                        },
                        Ok(ValueV::Bool(false)) => (Ok(ValueV::Bool(false)), a2),
                        Ok(_) => (Err(Error::Types), a2),
                        Err(err) => (Err(err), a2),
                    }
                } else if op == BinOp::Or {
                    let (r1, a2) = spec_eval_expr(f, *l, arena, scope, ctx);
                    match r1 {
                        Ok(ValueV::Bool(true)) => (Ok(ValueV::Bool(true)), a2),
                        Ok(ValueV::Bool(false)) => {
                            let (r2, a3) = spec_eval_expr(f, *rr, a2, scope, ctx);
                            match r2 {
                                Ok(ValueV::Bool(v)) => (Ok(ValueV::Bool(v)), a3),
                                Ok(_) => (Err(Error::Types), a3),
                                Err(err) => (Err(err), a3),
                            }
                        },
                        Ok(_) => (Err(Error::Types), a2),
                        Err(err) => (Err(err), a2),
                    }
                } else if op == BinOp::Dot {
                    let (r1, a2) = spec_eval_expr(f, *l, arena, scope, ctx);
                    match r1 {
                        Err(err) => (Err(err), a2),
                        Ok(ValueV::Tuple(t)) => match rr.kind {
                            ExprKindV::Ident(key) => {
                                match spec_key_position(t.keys, t.data.len() as int, key) {
                                    Some(p) => if 0 <= p < t.data.len() {
                                        (Ok(t.data[p]), a2)
                                    } else {
                                        (Err(Error::KeyNotFound), a2)
                                    },
                                    None => (Err(Error::KeyNotFound), a2),
                                }
                            },
                            ExprKindV::Int(i) => {
                                if i >= 0 && (i as int) <= (usize::MAX as int) && (i as int)
                                    < t.data.len() {
                                    (Ok(t.data[i as int]), a2)
                                } else {
                                    (Err(Error::KeyNotFound), a2)
                                }
                            },
                            _ => (Err(Error::Types), a2),
                        },
                        Ok(_) => (Err(Error::Types), a2),
                    }
                } else {
                    let (r1, a2) = spec_eval_expr(f, *l, arena, scope, ctx);
                    match r1 {
                        Err(err) => (Err(err), a2),
                        Ok(v1) => {
                            let (r2, a3) = spec_eval_expr(f, *rr, a2, scope, ctx);
                            match r2 {
                                Err(err) => (Err(err), a3),
                                Ok(v2) => (spec_apply_bin(op, v1, v2), a3),
                            }
                        },
                    }
                }
            },
            ExprKindV::Block(stmts) => {
                let a2 = spec_push_frame(arena, scope);
                spec_eval_stmts(f, stmts, 0, a2, arena.len() as int, ctx)
            },
            ExprKindV::IfElse(c, t, els) => {
                let (r1, a2) = spec_eval_expr(f, *c, arena, scope, ctx);
                match r1 {
                    Ok(ValueV::Bool(true)) => spec_eval_expr(f, *t, a2, scope, ctx),
                    Ok(ValueV::Bool(false)) => spec_eval_expr(f, *els, a2, scope, ctx),
                    Ok(_) => (Err(Error::Types), a2),
                    Err(err) => (Err(err), a2),
                }
            },
            ExprKindV::Fn(params, body) => (Ok(ValueV::Fn(params, body, scope)), arena),
            ExprKindV::Call(callee, args) => {
                let (r1, a2) = spec_eval_expr(f, *callee, arena, scope, ctx);
                match r1 {
                    Err(err) => (Err(err), a2),
                    Ok(ValueV::Fn(params, body, fnscope)) => {
                        let (ra, a3) = spec_eval_entries(
                            f,
                            args.keys,
                            args.data,
                            0,
                            spec_tuple_empty(),
                            a2,
                            scope,
                            ctx,
                        );
                        match ra {
                            Err(err) => (Err(err), a3),
                            Ok(argsv) => {
                                let a4 = spec_push_frame(a3, fnscope);
                                let n = a3.len() as int;
                                let (rb, a5) = spec_bind_tuple(
                                    f,
                                    params.keys,
                                    params.data,
                                    ValueV::Tuple(argsv),
                                    0,
                                    0,
                                    a4,
                                    n,
                                    ctx,
                                );
                                match rb {
                                    Err(err) => (Err(err), a5),
                                    Ok(_) => spec_eval_expr(f, *body, a5, n, ctx),
                                }
                            },
                        }
                    },
                    Ok(_) => (Err(Error::Types), a2),
                }
            },
        }
    }
}

/// Evaluates tuple entries in order, keeping the positional/named
/// structure.
pub open spec fn spec_eval_entries(
    fuel: nat,
    keys: Seq<Sym>,
    data: Seq<ExprV>,
    k: int,
    acc: SpecTuple<ValueV>,
    arena: Seq<ScopeV>,
    scope: int,
    ctx: int,
) -> (Result<SpecTuple<ValueV>, Error>, Seq<ScopeV>)
    decreases fuel, 2int,
{
    if fuel == 0 {
        (Err(Error::Depth), arena)
    } else {
        let f = (fuel - 1) as nat;
        match spec_entry(keys, data, k) {
            None => (Ok(acc), arena),
            Some(TupleEntry::Pos(_)) => {
                let (r, a2) = spec_eval_expr(f, data[k], arena, scope, ctx);
                match r {
                    Err(err) => (Err(err), a2),
                    Ok(v) => spec_eval_entries(
                        f,
                        keys,
                        data,
                        k + 1,
                        spec_tuple_push(acc, v),
                        a2,
                        scope,
                        ctx,
                    ),
                }
            },
            Some(TupleEntry::Named(key, _)) => {
                let (r, a2) = spec_eval_expr(f, data[k], arena, scope, ctx);
                match r {
                    Err(err) => (Err(err), a2),
                    Ok(v) => spec_eval_entries(
                        f,
                        keys,
                        data,
                        k + 1,
                        spec_tuple_insert(acc, key, v),
                        a2,
                        scope,
                        ctx,
                    ),
                }
            },
        }
    }
}

/// Evaluates list items in order.
pub open spec fn spec_eval_list(
    fuel: nat,
    items: Seq<ExprV>,
    k: int,
    acc: Seq<ValueV>,
    arena: Seq<ScopeV>,
    scope: int,
    ctx: int,
) -> (Result<Seq<ValueV>, Error>, Seq<ScopeV>)
    decreases fuel, 2int,
{
    if fuel == 0 {
        (Err(Error::Depth), arena)
    } else if k < 0 || k >= items.len() {
        (Ok(acc), arena)
    } else {
        let f = (fuel - 1) as nat;
        let (r, a2) = spec_eval_expr(f, items[k], arena, scope, ctx);
        match r {
            Err(err) => (Err(err), a2),
            Ok(v) => spec_eval_list(f, items, k + 1, acc.push(v), a2, scope, ctx),
        }
    }
}

/// Runs block statements in order: the first expression statement's
/// value is the block's value; a block that ends without one is `Void`.
pub open spec fn spec_eval_stmts(
    fuel: nat,
    stmts: Seq<StmtV>,
    k: int,
    arena: Seq<ScopeV>,
    scope: int,
    ctx: int,
) -> (Result<ValueV, Error>, Seq<ScopeV>)
    decreases fuel, 4int,
{
    if fuel == 0 {
        (Err(Error::Depth), arena)
    } else if k < 0 || k >= stmts.len() {
        (Err(Error::Void), arena)
    } else {
        let f = (fuel - 1) as nat;
        match stmts[k] {
            StmtV::Expr(e) => spec_eval_expr(f, e, arena, scope, ctx),
            StmtV::Let(p, e) => {
                let (r, a2) = spec_eval_expr(f, e, arena, scope, ctx);
                match r {
                    Err(err) => (Err(err), a2),
                    Ok(v) => {
                        let (rb, a3) = spec_bind(f, p, v, a2, scope, ctx);
                        match rb {
                            Err(err) => (Err(err), a3),
                            Ok(_) => spec_eval_stmts(f, stmts, k + 1, a3, scope, ctx),
                        }
                    },
                }
            },
        }
    }
}

/// Pattern binding: identifiers bind lexically, context identifiers bind
/// into the context chain, literals match by equality, tuples match
/// structurally; list patterns are reserved and report `Mismatch`.
pub open spec fn spec_bind(fuel: nat, p: PatV, v: ValueV, arena: Seq<ScopeV>, scope: int, ctx: int) -> (
    Result<bool, Error>,
    Seq<ScopeV>,
)
    decreases fuel, 1int,
{
    if fuel == 0 {
        (Err(Error::Depth), arena)
    } else {
        let f = (fuel - 1) as nat;
        match p {
            PatV::Ident(s) => (Ok(true), spec_bind_frame(arena, scope, s, v)),
            PatV::CtxIdent(s) => (Ok(true), spec_bind_frame(arena, ctx, s, v)),
            PatV::Sym(s) => match v {
                ValueV::Sym(x) => if x == s {
                    (Ok(true), arena)
                } else {
                    (Err(Error::Mismatch), arena)
                },
                _ => (Err(Error::Mismatch), arena),
            },
            PatV::Str(s) => match v {
                ValueV::Str(x) => if x == s {
                    (Ok(true), arena)
                } else {
                    (Err(Error::Mismatch), arena)
                },
                _ => (Err(Error::Mismatch), arena),
            },
            PatV::Int(s) => match v {
                ValueV::Int(x) => if x == s {
                    (Ok(true), arena)
                } else {
                    (Err(Error::Mismatch), arena)
                },
                _ => (Err(Error::Mismatch), arena),
            },
            PatV::Float(s) => match v {
                ValueV::Float(x) => if x == s {
                    (Ok(true), arena)
                } else {
                    (Err(Error::Mismatch), arena)
                },
                _ => (Err(Error::Mismatch), arena),
            },
            PatV::Bool(s) => match v {
                ValueV::Bool(x) => if x == s {
                    (Ok(true), arena)
                } else {
                    (Err(Error::Mismatch), arena)
                },
                _ => (Err(Error::Mismatch), arena),
            },
            PatV::Tuple(pt) => match v {
                ValueV::Tuple(vt) => spec_bind_tuple(
                    f,
                    pt.keys,
                    pt.data,
                    ValueV::Tuple(vt),
                    0,
                    0,
                    arena,
                    scope,
                    ctx,
                ),
                _ => (Err(Error::Mismatch), arena),
            },
            PatV::List(_) => (Err(Error::Mismatch), arena),
            PatV::Wild => (Ok(true), arena),
        }
    }
}

/// Binds a pattern tuple's entries against a tuple value: positional
/// sub-patterns take consecutive positional values from index zero,
/// named sub-patterns look up by key; anything missing is `Mismatch`.
pub open spec fn spec_bind_tuple(
    fuel: nat,
    pkeys: Seq<Sym>,
    pdata: Seq<PatV>,
    v: ValueV,
    k: int,
    pos: int,
    arena: Seq<ScopeV>,
    scope: int,
    ctx: int,
) -> (Result<bool, Error>, Seq<ScopeV>)
    decreases fuel, 0int,
{
    if fuel == 0 {
        (Err(Error::Depth), arena)
    } else {
        let f = (fuel - 1) as nat;
        match v {
            ValueV::Tuple(vt) => match spec_entry(pkeys, pdata, k) {
                None => (Ok(true), arena),
                Some(TupleEntry::Pos(_)) => {
                    if 0 <= pos < vt.data.len() {
                        let (r, a2) = spec_bind(f, pdata[k], vt.data[pos], arena, scope, ctx);
                        match r {
                            Err(err) => (Err(err), a2),
                            Ok(_) => spec_bind_tuple(
                                f,
                                pkeys,
                                pdata,
                                v,
                                k + 1,
                                pos + 1,
                                a2,
                                scope,
                                ctx,
                            ),
                        }
                    } else {
                        (Err(Error::Mismatch), arena)
                    }
                },
                Some(TupleEntry::Named(key, _)) => {
                    match spec_key_position(vt.keys, vt.data.len() as int, key) {
                        Some(p) => if 0 <= p < vt.data.len() {
                            let (r, a2) = spec_bind(f, pdata[k], vt.data[p], arena, scope, ctx);
                            match r {
                                Err(err) => (Err(err), a2),
                                Ok(_) => spec_bind_tuple(
                                    f,
                                    pkeys,
                                    pdata,
                                    v,
                                    k + 1,
                                    pos,
                                    a2,
                                    scope,
                                    ctx,
                                ),
                            }
                        } else {
                            (Err(Error::Mismatch), arena)
                        },
                        None => (Err(Error::Mismatch), arena),
                    }
                },
            },
            _ => (Err(Error::Mismatch), arena),
        }
    }
}

/// What a single statement yields against the given scopes: a let
/// binding yields nothing, a bare expression yields its value.
pub open spec fn spec_eval_stmt(fuel: nat, s: StmtV, arena: Seq<ScopeV>, scope: int, ctx: int) -> (
    Result<Option<ValueV>, Error>,
    Seq<ScopeV>,
)
    decreases fuel, 4int,
{
    if fuel == 0 {
        (Err(Error::Depth), arena)
    } else {
        let f = (fuel - 1) as nat;
        match s {
            StmtV::Let(p, e) => {
                let (r, a2) = spec_eval_expr(f, e, arena, scope, ctx);
                match r {
                    Err(err) => (Err(err), a2),
                    Ok(v) => {
                        let (rb, a3) = spec_bind(f, p, v, a2, scope, ctx);
                        match rb {
                            Err(err) => (Err(err), a3),
                            Ok(_) => (Ok(None), a3),
                        }
                    },
                }
            },
            StmtV::Expr(e) => {
                let (r, a2) = spec_eval_expr(f, e, arena, scope, ctx);
                match r {
                    Err(err) => (Err(err), a2),
                    Ok(v) => (Ok(Some(v)), a2),
                }
            },
        }
    }
}

/// What evaluating a module's definitions in order does to the arena.
pub open spec fn spec_eval_defs(
    fuel: nat,
    defs: Seq<StmtV>,
    k: int,
    arena: Seq<ScopeV>,
    scope: int,
    ctx: int,
) -> (Result<bool, Error>, Seq<ScopeV>)
    decreases fuel, 5int,
{
    if fuel == 0 {
        (Err(Error::Depth), arena)
    } else if k < 0 || k >= defs.len() {
        (Ok(true), arena)
    } else {
        let f = (fuel - 1) as nat;
        let (r, a2) = spec_eval_stmt(f, defs[k], arena, scope, ctx);
        match r {
            Err(err) => (Err(err), a2),
            Ok(_) => spec_eval_defs(f, defs, k + 1, a2, scope, ctx),
        }
    }
}


/// Looks `name` up along the lexical chain from frame `idx`, returning a
/// copy of the bound value.
pub fn scope_lookup(arena: &Vec<Scope>, idx: usize, name: Sym) -> (r: Result<Value, Error>)
    ensures
        match (r, spec_lookup(scopes_view(arena@), idx as int, name)) {
            (Ok(v), Ok(vv)) => value_view(v) == vv,
            (Err(a), Err(b)) => a == b,
            _ => false,
        },
    decreases idx,
{
    proof {
        lemma_scopes_view(arena@);
    }
    if idx >= arena.len() {
        return Err(Error::Unbound);
    }
    let fr = &arena[idx];
    proof {
        lemma_values_view(fr.bindings.data@);
    }
    match fr.bindings.get_named(name) {
        Some(v) => Ok(clone_value(v)),
        None => match fr.parent {
            Some(p) => {
                if p < idx {
                    scope_lookup(arena, p, name)
                } else {
                    Err(Error::Unbound)
                }
            },
            None => Err(Error::Unbound),
        },
    }
}

/// Binds `name` in frame `j`; an index out of range drops the binding.
pub fn arena_bind(arena: &mut Vec<Scope>, j: usize, name: Sym, value: Value)
    ensures
        scopes_view(final(arena)@) == spec_bind_frame(
            scopes_view(old(arena)@),
            j as int,
            name,
            value_view(value),
        ),
{
    proof {
        lemma_scopes_view(arena@);
    }
    if j < arena.len() {
        let ghost before = arena@;
        let mut fr = arena.remove(j);
        fr.bind(name, value);
        arena.insert(j, fr);
        proof {
            assert(arena@ =~= before.update(j as int, arena@[j as int]));
            lemma_scopes_view(arena@);
            lemma_scopes_view(before);
            assert(scopes_view(arena@) =~= spec_bind_frame(
                scopes_view(before),
                j as int,
                name,
                value_view(value),
            ));
        }
    }
}

/// Applies a unary operator to a value.
pub fn apply_un(op: UnOp, v: Value) -> (r: Result<Value, Error>)
    ensures
        match (r, spec_apply_un(op, value_view(v))) {
            (Ok(a), Ok(b)) => value_view(a) == b,
            (Err(a), Err(b)) => a == b,
            _ => false,
        },
{
    match op {
        UnOp::Neg => match v {
            Value::Int(x) => Ok(Value::Int(0i64.wrapping_sub(x))),
            Value::Float(text) => {
                let ghost t0 = text@;
                let mut text = text;
                if text.len() > 0 && text[0] == 0x2D {
                    let _minus = text.remove(0);
                    proof {
                        assert(text@ =~= t0.subrange(1, t0.len() as int));
                    }
                    Ok(Value::Float(text))
                } else {
                    text.insert(0, 0x2D);
                    proof {
                        assert(text@ =~= seq![0x2Du8] + t0);
                    }
                    Ok(Value::Float(text))
                }
            },
            _ => Err(Error::Types),
        },
        UnOp::BitNot => match v {
            Value::Int(x) => Ok(Value::Int(-1i64 - x)),
            _ => Err(Error::Types),
        },
        UnOp::Not => Err(Error::Types),
    }
}

/// The magnitude of an integer as an unsigned value.
fn abs_u64(x: i64) -> (r: u64)
    ensures
        r == spec_abs_u64(x),
{
    if x >= 0 {
        x as u64
    } else {
        ((-1i64 - x) as u64) + 1
    }
}

/// Truncated signed division by magnitudes.
fn div_i64(x: i64, y: i64) -> (r: i64)
    requires
        y != 0,
    ensures
        r == spec_div_i64(x, y),
{
    let ua = abs_u64(x);
    let ub = abs_u64(y);
    let uq = ua / ub;
    let t: i64 = if uq <= i64::MAX as u64 {
        uq as i64
    } else {
        i64::MIN + ((uq - 0x8000_0000_0000_0000u64) as i64)
    };
    proof {
        assert(t == spec_clip_i64(uq));
    }
    if (x < 0) != (y < 0) {
        0i64.wrapping_sub(t)
    } else {
        t
    }
}

/// Wrapping integer exponentiation by repeated multiplication.
#[verifier::loop_isolation(false)]
fn pow_wrap(base: i64, e: u64) -> (r: i64)
    ensures
        r == spec_pow_wrap(base, e as nat),
{
    let mut acc: i64 = 1;
    let mut k: u64 = 0;
    while k < e
        invariant
            k <= e,
            acc == spec_pow_wrap(base, k as nat),
        decreases e - k,
    {
        acc = acc.wrapping_mul(base);
        k = k + 1;
    }
    acc
}

/// Lexicographic order on byte strings.
#[verifier::loop_isolation(false)]
fn bytes_lt(x: &Vec<u8>, y: &Vec<u8>) -> (r: bool)
    ensures
        r == spec_bytes_lt(x@, y@),
{
    let mut i: usize = 0;
    proof {
        assert(x@.subrange(0, x@.len() as int) =~= x@);
        assert(y@.subrange(0, y@.len() as int) =~= y@);
    }
    loop
        invariant
            i <= x@.len(),
            i <= y@.len(),
            spec_bytes_lt(x@, y@) == spec_bytes_lt(
                x@.subrange(i as int, x@.len() as int),
                y@.subrange(i as int, y@.len() as int),
            ),
        decreases x@.len() - i,
    {
        proof {
            let xs = x@.subrange(i as int, x@.len() as int);
            let ys = y@.subrange(i as int, y@.len() as int);
            if i < x@.len() && i < y@.len() {
                assert(xs.drop_first() =~= x@.subrange(i + 1, x@.len() as int));
                assert(ys.drop_first() =~= y@.subrange(i + 1, y@.len() as int));
            }
        }
        if i >= y.len() {
            return false;
        }
        if i >= x.len() {
            return true;
        }
        let a = x[i];
        let b = y[i];
        if a < b {
            return true;
        }
        if a > b {
            return false;
        }
        i = i + 1;
    }
}

/// Applies a non-short-circuit, non-dot binary operator to two values.
#[verifier::rlimit(100)]
#[verifier::spinoff_prover]
pub fn apply_bin(op: BinOp, a: Value, b: Value) -> (r: Result<Value, Error>)
    ensures
        match (r, spec_apply_bin(op, value_view(a), value_view(b))) {
            (Ok(x), Ok(y)) => value_view(x) == y,
            (Err(x), Err(y)) => x == y,
            _ => false,
        },
{
    match op {
        BinOp::Add => match (a, b) {
            (Value::Int(x), Value::Int(y)) => Ok(Value::Int(x.wrapping_add(y))),
            _ => Err(Error::Types),
        },
        BinOp::Sub => match (a, b) {
            (Value::Int(x), Value::Int(y)) => Ok(Value::Int(x.wrapping_sub(y))),
            _ => Err(Error::Types),
        },
        BinOp::Mul => match (a, b) {
            (Value::Int(x), Value::Int(y)) => Ok(Value::Int(x.wrapping_mul(y))),
            _ => Err(Error::Types),
        },
        BinOp::Div => match (a, b) {
            (Value::Int(x), Value::Int(y)) => {
                if y == 0 || (x == i64::MIN && y == -1) {
                    Err(Error::Types)
                } else {
                    Ok(Value::Int(div_i64(x, y)))
                }
            },
            _ => Err(Error::Types),
        },
        BinOp::Mod => match (a, b) {
            (Value::Int(x), Value::Int(y)) => {
                if y == 0 || (x == i64::MIN && y == -1) {
                    Err(Error::Types)
                } else {
                    let d = div_i64(x, y);
                    Ok(Value::Int(x.wrapping_sub(d.wrapping_mul(y))))
                }
            },
            _ => Err(Error::Types),
        },
        BinOp::Exp => match (a, b) {
            (Value::Int(x), Value::Int(y)) => {
                if y < 0 {
                    Err(Error::Types)
                } else {
                    Ok(Value::Int(pow_wrap(x, y as u64)))
                }
            },
            _ => Err(Error::Types),
        },
        BinOp::Eq => {
            if eq_comparable(&a, &b) {
                Ok(Value::Bool(value_eq(&a, &b)))
            } else {
                Err(Error::Types)
            }
        },
        BinOp::NotEq => {
            if eq_comparable(&a, &b) {
                Ok(Value::Bool(!value_eq(&a, &b)))
            } else {
                Err(Error::Types)
            }
        },
        BinOp::Lt => match (a, b) {
            (Value::Str(x), Value::Str(y)) => Ok(Value::Bool(bytes_lt(&x, &y))),
            (Value::Int(x), Value::Int(y)) => Ok(Value::Bool(x < y)),
            _ => Err(Error::Types),
        },
        BinOp::LtEq => match (a, b) {
            (Value::Str(x), Value::Str(y)) => Ok(Value::Bool(!bytes_lt(&y, &x))),
            (Value::Int(x), Value::Int(y)) => Ok(Value::Bool(x <= y)),
            _ => Err(Error::Types),
        },
        BinOp::Gt => match (a, b) {
            (Value::Str(x), Value::Str(y)) => Ok(Value::Bool(bytes_lt(&y, &x))),
            (Value::Int(x), Value::Int(y)) => Ok(Value::Bool(x > y)),
            _ => Err(Error::Types),
        },
        BinOp::GtEq => match (a, b) {
            (Value::Str(x), Value::Str(y)) => Ok(Value::Bool(!bytes_lt(&x, &y))),
            (Value::Int(x), Value::Int(y)) => Ok(Value::Bool(x >= y)),
            _ => Err(Error::Types),
        },
        _ => Err(Error::Types),
    }
}

/// Whether two values are of comparable, equal variants for `==`.
fn eq_comparable(a: &Value, b: &Value) -> (r: bool)
    ensures
        r == spec_eq_comparable(value_view(*a), value_view(*b)),
{
    match (a, b) {
        (Value::Bool(_), Value::Bool(_)) => true,
        (Value::Sym(_), Value::Sym(_)) => true,
        (Value::Str(_), Value::Str(_)) => true,
        (Value::Int(_), Value::Int(_)) => true,
        (Value::Float(_), Value::Float(_)) => true,
        (Value::Tuple(_), Value::Tuple(_)) => true,
        (Value::List(_), Value::List(_)) => true,
        _ => false,
    }
}


/// Appends a positional value to a tuple value.
fn vtuple_push(t: &mut Tuple<Value>, v: Value)
    ensures
        crate::value::value_tuple_view(*final(t)) == spec_tuple_push(
            crate::value::value_tuple_view(*old(t)),
            value_view(v),
        ),
{
    let ghost data0 = t.data@;
    proof {
        lemma_values_view(data0);
    }
    t.push(v);
    proof {
        crate::value::lemma_values_insert_commutes(
            data0,
            crate::tuple::spec_named_offset(t.keys@, data0.len() as int),
            v,
        );
    }
}

/// Inserts a named value into a tuple value.
fn vtuple_insert(t: &mut Tuple<Value>, key: Sym, v: Value)
    ensures
        crate::value::value_tuple_view(*final(t)) == spec_tuple_insert(
            crate::value::value_tuple_view(*old(t)),
            key,
            value_view(v),
        ),
{
    let ghost keys0 = t.keys@;
    let ghost data0 = t.data@;
    proof {
        lemma_values_view(data0);
        crate::tuple::lemma_bsearch_bounds(keys0, key, 0, keys0.len() as int);
    }
    let _replaced = t.insert(key, v);
    proof {
        let ofs = crate::tuple::spec_named_offset(keys0, data0.len() as int);
        match crate::tuple::spec_bsearch(keys0, key, 0, keys0.len() as int) {
            Ok(i) => {
                if ofs + i < data0.len() {
                    crate::value::lemma_values_update_commutes(data0, ofs + i, v);
                } else {
                    crate::value::lemma_values_push_commutes(data0, v);
                }
            },
            Err(i) => {
                crate::value::lemma_values_insert_commutes(
                    data0,
                    if ofs + i <= data0.len() {
                        ofs + i
                    } else {
                        data0.len() as int
                    },
                    v,
                );
            },
        }
    }
}

/// Evaluates an expression under the lexical scope `scope` and the
/// context scope `ctx`, within the given step budget: exactly what
/// `spec_eval_expr` describes.
#[verifier::rlimit(100)]
#[verifier::spinoff_prover]
pub fn eval_expr(
    e: &Expr,
    arena: &mut Vec<Scope>,
    scope: usize,
    ctx: usize,
    fuel: u64,
) -> (r: Result<Value, Error>)
    ensures
        ({
            let (sr, sa) = spec_eval_expr(
                fuel as nat,
                expr_view(*e),
                scopes_view(old(arena)@),
                scope as int,
                ctx as int,
            );
            scopes_view(final(arena)@) == sa && match (r, sr) {
                (Ok(v), Ok(vv)) => value_view(v) == vv,
                (Err(a), Err(b)) => a == b,
                _ => false,
            }
        }),
    decreases fuel, 3int,
{
    if fuel == 0 {
        return Err(Error::Depth);
    }
    let f = fuel - 1;
    match &e.kind {
        ExprKind::Void => {
            return Err(Error::Void);
        },
        ExprKind::Ident(s) => {
            return scope_lookup(arena, scope, *s);
        },
        ExprKind::CtxIdent(s) => {
            return scope_lookup(arena, ctx, *s);
        },
        ExprKind::Sym(s) => {
            return Ok(Value::Sym(*s));
        },
        ExprKind::Str(s) => {
            return Ok(Value::Str(crate::sym::slice_to_vec_u8(s.as_slice())));
        },
        ExprKind::Int(x) => {
            return Ok(Value::Int(*x));
        },
        ExprKind::Float(s) => {
            return Ok(Value::Float(crate::sym::slice_to_vec_u8(s.as_slice())));
        },
        ExprKind::Bool(b) => {
            return Ok(Value::Bool(*b));
        },
        ExprKind::Tuple(t) => {
            proof {
                assert(values_view(Seq::<Value>::empty()) =~= Seq::<ValueV>::empty());
            }
            match eval_entries(t, 0, Tuple::new(), arena, scope, ctx, f) {
                Ok(result) => Ok(Value::Tuple(result)),
                Err(err) => Err(err),
            }
        },
        ExprKind::List(items) => {
            proof {
                assert(values_view(Seq::<Value>::empty()) =~= Seq::<ValueV>::empty());
            }
            match eval_list(items, 0, Vec::new(), arena, scope, ctx, f) {
                Ok(result) => Ok(Value::List(result)),
                Err(err) => Err(err),
            }
        },
        ExprKind::UnOp(op, inner) => {
            match eval_expr(inner, arena, scope, ctx, f) {
                Ok(v) => apply_un(*op, v),
                Err(err) => Err(err),
            }
        },
        ExprKind::BinOp(_, _, _) => eval_binop(e, arena, scope, ctx, fuel),
        ExprKind::Block(stmts) => {
            proof {
                lemma_scopes_view(arena@);
            }
            let n = arena.len();
            let ghost before = arena@;
            arena.push(Scope::new(Some(scope)));
            proof {
                assert(arena@.drop_last() =~= before);
                assert(scopes_view(arena@) =~= spec_push_frame(scopes_view(before), scope as int));
            }
            eval_stmts(stmts, 0, arena, n, ctx, f)
        },
        ExprKind::IfElse(c, t, els) => {
            match eval_expr(c, arena, scope, ctx, f) {
                Err(err) => Err(err),
                Ok(Value::Bool(true)) => eval_expr(t, arena, scope, ctx, f),
                Ok(Value::Bool(false)) => eval_expr(els, arena, scope, ctx, f),
                Ok(_) => Err(Error::Types),
            }
        },
        ExprKind::Fn(params, body) => Ok(
            Value::Fn(
                crate::value::Fn {
                    params: crate::ast::clone_pat_tuple(params),
                    body: Box::new(crate::ast::clone_expr(body)),
                    scope,
                },
            ),
        ),
        ExprKind::Call(_, _) => eval_call(e, arena, scope, ctx, fuel),
    }
}


/// Evaluates a binary-operator expression: the short-circuiting
/// operators, the dot lookup, and the value operators.
#[verifier::rlimit(100)]
#[verifier::spinoff_prover]
fn eval_binop(
    e: &Expr,
    arena: &mut Vec<Scope>,
    scope: usize,
    ctx: usize,
    fuel: u64,
) -> (r: Result<Value, Error>)
    requires
        old(arena)@.len() >= 0,
        e.kind matches ExprKind::BinOp(_, _, _),
    ensures
        ({
            let (sr, sa) = spec_eval_expr(
                fuel as nat,
                expr_view(*e),
                scopes_view(old(arena)@),
                scope as int,
                ctx as int,
            );
            scopes_view(final(arena)@) == sa && match (r, sr) {
                (Ok(v), Ok(vv)) => value_view(v) == vv,
                (Err(a), Err(b)) => a == b,
                _ => false,
            }
        }),
    decreases fuel, 2int,
{
    if fuel == 0 {
        return Err(Error::Depth);
    }
    let f = fuel - 1;
    match &e.kind {
        ExprKind::BinOp(op, l, rr) => {
            match op {
                BinOp::And => {
                    return match eval_expr(l, arena, scope, ctx, f) {
                        Err(err) => Err(err),
                        Ok(Value::Bool(true)) => {
                            match eval_expr(rr, arena, scope, ctx, f) {
                                Err(err) => Err(err),
                                Ok(Value::Bool(v)) => Ok(Value::Bool(v)),
                                Ok(_) => Err(Error::Types),
                            }
                        },
                        Ok(Value::Bool(false)) => Ok(Value::Bool(false)),
                        Ok(_) => Err(Error::Types),
                    };
                },
                BinOp::Or => {
                    return match eval_expr(l, arena, scope, ctx, f) {
                        Err(err) => Err(err),
                        Ok(Value::Bool(true)) => Ok(Value::Bool(true)),
                        Ok(Value::Bool(false)) => {
                            match eval_expr(rr, arena, scope, ctx, f) {
                                Err(err) => Err(err),
                                Ok(Value::Bool(v)) => Ok(Value::Bool(v)),
                                Ok(_) => Err(Error::Types),
                            }
                        },
                        Ok(_) => Err(Error::Types),
                    };
                },
                BinOp::Dot => {
                    return match eval_expr(l, arena, scope, ctx, f) {
                        Err(err) => Err(err),
                        Ok(Value::Tuple(t)) => dot_lookup(&t, rr),
                        Ok(_) => Err(Error::Types),
                    };
                },
                _ => {
                    return match eval_expr(l, arena, scope, ctx, f) {
                        Err(err) => Err(err),
                        Ok(v1) => {
                            match eval_expr(rr, arena, scope, ctx, f) {
                                Err(err) => Err(err),
                                Ok(v2) => apply_bin(*op, v1, v2),
                            }
                        },
                    };
                },
            }
        },
        _ => {
            proof {
                assert(false);
            }
            Err(Error::Types)
        },
    }
}


/// The dot lookup: a bare identifier reads a named entry, an integer
/// literal reads a positional entry, anything else is an operand error.
#[verifier::rlimit(100)]
#[verifier::spinoff_prover]
fn dot_lookup(t: &Tuple<Value>, rr: &Expr) -> (r: Result<Value, Error>)
    ensures
        ({
            let tv = crate::value::value_tuple_view(*t);
            let s = match expr_view(*rr).kind {
                ExprKindV::Ident(key) => {
                    match spec_key_position(tv.keys, tv.data.len() as int, key) {
                        Some(p) => if 0 <= p < tv.data.len() {
                            Ok(tv.data[p])
                        } else {
                            Err(Error::KeyNotFound)
                        },
                        None => Err(Error::KeyNotFound),
                    }
                },
                ExprKindV::Int(i) => {
                    if i >= 0 && (i as int) <= (usize::MAX as int) && (i as int) < tv.data.len() {
                        Ok(tv.data[i as int])
                    } else {
                        Err(Error::KeyNotFound)
                    }
                },
                _ => Err(Error::Types),
            };
            match (r, s) {
                (Ok(v), Ok(vv)) => value_view(v) == vv,
                (Err(a), Err(b)) => a == b,
                _ => false,
            }
        }),
{
    proof {
        lemma_values_view(t.data@);
    }
    match &rr.kind {
        ExprKind::Ident(key) => match t.get_named(*key) {
            Some(v) => Ok(clone_value(v)),
            None => Err(Error::KeyNotFound),
        },
        ExprKind::Int(i) => {
            if *i >= 0 && (*i as u64) <= (usize::MAX as u64) {
                match t.get_pos(*i as usize) {
                    Some(v) => Ok(clone_value(v)),
                    None => Err(Error::KeyNotFound),
                }
            } else {
                Err(Error::KeyNotFound)
            }
        },
        _ => Err(Error::Types),
    }
}

/// Evaluates a call: the callee, the argument tuple, a fresh call frame
/// under the callee's captured scope, parameter binding, then the body
/// under the caller's context chain.
#[verifier::rlimit(100)]
#[verifier::spinoff_prover]
fn eval_call(
    e: &Expr,
    arena: &mut Vec<Scope>,
    scope: usize,
    ctx: usize,
    fuel: u64,
) -> (r: Result<Value, Error>)
    requires
        e.kind matches ExprKind::Call(_, _),
    ensures
        ({
            let (sr, sa) = spec_eval_expr(
                fuel as nat,
                expr_view(*e),
                scopes_view(old(arena)@),
                scope as int,
                ctx as int,
            );
            scopes_view(final(arena)@) == sa && match (r, sr) {
                (Ok(v), Ok(vv)) => value_view(v) == vv,
                (Err(a), Err(b)) => a == b,
                _ => false,
            }
        }),
    decreases fuel, 2int,
{
    if fuel == 0 {
        return Err(Error::Depth);
    }
    let f = fuel - 1;
    match &e.kind {
        ExprKind::Call(callee, args) => {
            match eval_expr(callee, arena, scope, ctx, f) {
                Err(err) => Err(err),
                Ok(Value::Fn(func)) => {
                    proof {
                        assert(values_view(Seq::<Value>::empty()) =~= Seq::<ValueV>::empty());
                    }
                    match eval_entries(args, 0, Tuple::new(), arena, scope, ctx, f) {
                        Err(err) => Err(err),
                        Ok(argsv) => {
                            proof {
                                lemma_scopes_view(arena@);
                            }
                            let n = arena.len();
                            let ghost before = arena@;
                            arena.push(Scope::new(Some(func.scope)));
                            proof {
                                assert(arena@.drop_last() =~= before);
                                assert(scopes_view(arena@) =~= spec_push_frame(
                                    scopes_view(before),
                                    func.scope as int,
                                ));
                            }
                            let argsval = Value::Tuple(argsv);
                            match bind_tuple(&func.params, &argsval, 0, 0, arena, n, ctx, f) {
                                Err(err) => Err(err),
                                Ok(()) => eval_expr(&func.body, arena, n, ctx, f),
                            }
                        },
                    }
                },
                Ok(_) => Err(Error::Types),
            }
        },
        _ => {
            proof {
                assert(false);
            }
            Err(Error::Types)
        },
    }
}

/// Evaluates the entries of a tuple expression in order.
#[verifier::rlimit(100)]
#[verifier::spinoff_prover]
fn eval_entries(
    t: &Tuple<Expr>,
    k: usize,
    acc: Tuple<Value>,
    arena: &mut Vec<Scope>,
    scope: usize,
    ctx: usize,
    fuel: u64,
) -> (r: Result<Tuple<Value>, Error>)
    ensures
        ({
            let (sr, sa) = spec_eval_entries(
                fuel as nat,
                t.keys@,
                crate::ast::exprs_view(t.data@),
                k as int,
                crate::value::value_tuple_view(acc),
                scopes_view(old(arena)@),
                scope as int,
                ctx as int,
            );
            scopes_view(final(arena)@) == sa && match (r, sr) {
                (Ok(v), Ok(vv)) => crate::value::value_tuple_view(v) == vv,
                (Err(a), Err(b)) => a == b,
                _ => false,
            }
        }),
    decreases fuel, 2int,
{
    if fuel == 0 {
        return Err(Error::Depth);
    }
    let f = fuel - 1;
    let n = t.len();
    proof {
        crate::ast::lemma_exprs_view(t.data@);
    }
    match t.entry(k) {
        None => Ok(acc),
        Some(TupleEntry::Pos(entry)) => {
            match eval_expr(entry, arena, scope, ctx, f) {
                Err(err) => Err(err),
                Ok(v) => {
                    let mut acc = acc;
                    vtuple_push(&mut acc, v);
                    eval_entries(t, k + 1, acc, arena, scope, ctx, f)
                },
            }
        },
        Some(TupleEntry::Named(key, entry)) => {
            match eval_expr(entry, arena, scope, ctx, f) {
                Err(err) => Err(err),
                Ok(v) => {
                    let mut acc = acc;
                    vtuple_insert(&mut acc, key, v);
                    eval_entries(t, k + 1, acc, arena, scope, ctx, f)
                },
            }
        },
    }
}

/// Evaluates the items of a list literal in order.
#[verifier::rlimit(100)]
#[verifier::spinoff_prover]
fn eval_list(
    items: &Vec<Expr>,
    k: usize,
    acc: Vec<Value>,
    arena: &mut Vec<Scope>,
    scope: usize,
    ctx: usize,
    fuel: u64,
) -> (r: Result<Vec<Value>, Error>)
    ensures
        ({
            let (sr, sa) = spec_eval_list(
                fuel as nat,
                crate::ast::exprs_view(items@),
                k as int,
                values_view(acc@),
                scopes_view(old(arena)@),
                scope as int,
                ctx as int,
            );
            scopes_view(final(arena)@) == sa && match (r, sr) {
                (Ok(v), Ok(vv)) => values_view(v@) == vv,
                (Err(a), Err(b)) => a == b,
                _ => false,
            }
        }),
    decreases fuel, 2int,
{
    if fuel == 0 {
        return Err(Error::Depth);
    }
    let f = fuel - 1;
    proof {
        crate::ast::lemma_exprs_view(items@);
    }
    if k >= items.len() {
        return Ok(acc);
    }
    match eval_expr(&items[k], arena, scope, ctx, f) {
        Err(err) => Err(err),
        Ok(v) => {
            let mut acc = acc;
            let ghost prev = acc@;
            acc.push(v);
            proof {
                crate::value::lemma_values_push_commutes(prev, acc@.last());
                assert(acc@.drop_last() =~= prev);
            }
            eval_list(items, k + 1, acc, arena, scope, ctx, f)
        },
    }
}

/// Runs block statements in order from `k`.
#[verifier::rlimit(100)]
#[verifier::spinoff_prover]
fn eval_stmts(
    stmts: &Vec<crate::ast::Stmt>,
    k: usize,
    arena: &mut Vec<Scope>,
    scope: usize,
    ctx: usize,
    fuel: u64,
) -> (r: Result<Value, Error>)
    ensures
        ({
            let (sr, sa) = spec_eval_stmts(
                fuel as nat,
                stmts_view(stmts@),
                k as int,
                scopes_view(old(arena)@),
                scope as int,
                ctx as int,
            );
            scopes_view(final(arena)@) == sa && match (r, sr) {
                (Ok(v), Ok(vv)) => value_view(v) == vv,
                (Err(a), Err(b)) => a == b,
                _ => false,
            }
        }),
    decreases fuel, 4int,
{
    if fuel == 0 {
        return Err(Error::Depth);
    }
    let f = fuel - 1;
    proof {
        lemma_stmts_view(stmts@);
    }
    if k >= stmts.len() {
        return Err(Error::Void);
    }
    match &stmts[k] {
        crate::ast::Stmt::Expr(e) => eval_expr(e, arena, scope, ctx, f),
        crate::ast::Stmt::Let(p, e) => {
            match eval_expr(e, arena, scope, ctx, f) {
                Err(err) => Err(err),
                Ok(v) => {
                    match bind(p, v, arena, scope, ctx, f) {
                        Err(err) => Err(err),
                        Ok(()) => eval_stmts(stmts, k + 1, arena, scope, ctx, f),
                    }
                },
            }
        },
    }
}

/// Binds a pattern against a value: exactly what `spec_bind` describes.
#[verifier::rlimit(100)]
#[verifier::spinoff_prover]
pub fn bind(
    p: &Pat,
    value: Value,
    arena: &mut Vec<Scope>,
    scope: usize,
    ctx: usize,
    fuel: u64,
) -> (r: Result<(), Error>)
    ensures
        ({
            let (sr, sa) = spec_bind(
                fuel as nat,
                crate::ast::pat_view(*p),
                value_view(value),
                scopes_view(old(arena)@),
                scope as int,
                ctx as int,
            );
            scopes_view(final(arena)@) == sa && match (r, sr) {
                (Ok(()), Ok(_)) => true,
                (Err(a), Err(b)) => a == b,
                _ => false,
            }
        }),
    decreases fuel, 1int,
{
    if fuel == 0 {
        return Err(Error::Depth);
    }
    let f = fuel - 1;
    match p {
        Pat::Ident(s) => {
            arena_bind(arena, scope, *s, value);
            Ok(())
        },
        Pat::CtxIdent(s) => {
            arena_bind(arena, ctx, *s, value);
            Ok(())
        },
        Pat::Sym(s) => match value {
            Value::Sym(x) => if x.0 == s.0 {
                Ok(())
            } else {
                Err(Error::Mismatch)
            },
            _ => Err(Error::Mismatch),
        },
        Pat::Str(s) => match value {
            Value::Str(x) => if crate::sym::bytes_eq(x.as_slice(), s.as_slice()) {
                Ok(())
            } else {
                Err(Error::Mismatch)
            },
            _ => Err(Error::Mismatch),
        },
        Pat::Int(s) => match value {
            Value::Int(x) => if x == *s {
                Ok(())
            } else {
                Err(Error::Mismatch)
            },
            _ => Err(Error::Mismatch),
        },
        Pat::Float(s) => match value {
            Value::Float(x) => if crate::sym::bytes_eq(x.as_slice(), s.as_slice()) {
                Ok(())
            } else {
                Err(Error::Mismatch)
            },
            _ => Err(Error::Mismatch),
        },
        Pat::Bool(s) => match value {
            Value::Bool(x) => if x == *s {
                Ok(())
            } else {
                Err(Error::Mismatch)
            },
            _ => Err(Error::Mismatch),
        },
        Pat::Tuple(pt) => match value {
            Value::Tuple(vt) => {
                let v2 = Value::Tuple(vt);
                bind_tuple(pt, &v2, 0, 0, arena, scope, ctx, f)
            },
            _ => Err(Error::Mismatch),
        },
        Pat::List(_) => Err(Error::Mismatch),
        Pat::Wild => Ok(()),
    }
}

/// Binds a pattern tuple's entries against a tuple value.
#[verifier::rlimit(100)]
#[verifier::spinoff_prover]
pub fn bind_tuple(
    pt: &Tuple<Pat>,
    value: &Value,
    k: usize,
    pos: usize,
    arena: &mut Vec<Scope>,
    scope: usize,
    ctx: usize,
    fuel: u64,
) -> (r: Result<(), Error>)
    ensures
        ({
            let (sr, sa) = spec_bind_tuple(
                fuel as nat,
                pt.keys@,
                pats_view(pt.data@),
                value_view(*value),
                k as int,
                pos as int,
                scopes_view(old(arena)@),
                scope as int,
                ctx as int,
            );
            scopes_view(final(arena)@) == sa && match (r, sr) {
                (Ok(()), Ok(_)) => true,
                (Err(a), Err(b)) => a == b,
                _ => false,
            }
        }),
    decreases fuel, 0int,
{
    if fuel == 0 {
        return Err(Error::Depth);
    }
    let f = fuel - 1;
    let n = pt.len();
    proof {
        crate::ast::lemma_pats_view(pt.data@);
    }
    match value {
        Value::Tuple(vt) => {
            let nv = vt.len();
            proof {
                lemma_values_view(vt.data@);
            }
            match pt.entry(k) {
                None => Ok(()),
                Some(TupleEntry::Pos(p)) => {
                    match vt.get_pos(pos) {
                        None => Err(Error::Mismatch),
                        Some(v) => {
                            let c = clone_value(v);
                            match bind(p, c, arena, scope, ctx, f) {
                                Err(err) => Err(err),
                                Ok(()) => bind_tuple(
                                    pt,
                                    value,
                                    k + 1,
                                    pos + 1,
                                    arena,
                                    scope,
                                    ctx,
                                    f,
                                ),
                            }
                        },
                    }
                },
                Some(TupleEntry::Named(key, p)) => {
                    match vt.get_named(key) {
                        None => Err(Error::Mismatch),
                        Some(v) => {
                            let c = clone_value(v);
                            match bind(p, c, arena, scope, ctx, f) {
                                Err(err) => Err(err),
                                Ok(()) => bind_tuple(pt, value, k + 1, pos, arena, scope, ctx, f),
                            }
                        },
                    }
                },
            }
        },
        _ => Err(Error::Mismatch),
    }
}

/// Evaluates a single statement against the given scopes: a let binding
/// yields nothing, a bare expression yields its value.
#[verifier::rlimit(100)]
#[verifier::spinoff_prover]
pub fn eval_stmt(
    s: &crate::ast::Stmt,
    arena: &mut Vec<Scope>,
    scope: usize,
    ctx: usize,
    fuel: u64,
) -> (r: Result<Option<Value>, Error>)
    ensures
        ({
            let (sr, sa) = spec_eval_stmt(
                fuel as nat,
                stmt_view(*s),
                scopes_view(old(arena)@),
                scope as int,
                ctx as int,
            );
            scopes_view(final(arena)@) == sa && match (r, sr) {
                (Ok(Some(v)), Ok(Some(vv))) => value_view(v) == vv,
                (Ok(None), Ok(None)) => true,
                (Err(a), Err(b)) => a == b,
                _ => false,
            }
        }),
    decreases fuel, 4int,
{
    if fuel == 0 {
        return Err(Error::Depth);
    }
    let f = fuel - 1;
    match s {
        crate::ast::Stmt::Let(p, e) => {
            match eval_expr(e, arena, scope, ctx, f) {
                Err(err) => Err(err),
                Ok(v) => {
                    match bind(p, v, arena, scope, ctx, f) {
                        Err(err) => Err(err),
                        Ok(()) => Ok(None),
                    }
                },
            }
        },
        crate::ast::Stmt::Expr(e) => {
            match eval_expr(e, arena, scope, ctx, f) {
                Err(err) => Err(err),
                Ok(v) => Ok(Some(v)),
            }
        },
    }
}

/// Evaluates a module's definitions in order against the given scopes,
/// returning its record: the dependencies carried over, and an unused
/// scope slot left at zero.
#[verifier::rlimit(100)]
#[verifier::spinoff_prover]
pub fn eval_module(
    module_ast: &crate::ast::Mod,
    arena: &mut Vec<Scope>,
    scope: usize,
    ctx: usize,
    fuel: u64,
) -> (r: Result<crate::value::Mod, Error>)
    ensures
        ({
            let (sr, sa) = spec_eval_defs(
                fuel as nat,
                stmts_view(module_ast.defs@),
                0,
                scopes_view(old(arena)@),
                scope as int,
                ctx as int,
            );
            scopes_view(final(arena)@) == sa && match (r, sr) {
                (Ok(m), Ok(_)) => deps_view(m.deps@) == deps_view(module_ast.deps@) && m.scope
                    == 0,
                (Err(a), Err(b)) => a == b,
                _ => false,
            }
        }),
    decreases fuel,
{
    let deps = crate::ast::clone_deps(&module_ast.deps);
    match eval_defs(&module_ast.defs, 0, arena, scope, ctx, fuel) {
        Err(err) => Err(err),
        Ok(()) => Ok(crate::value::Mod { deps, scope: 0 }),
    }
}

/// Runs module definitions in order from `k`.
#[verifier::rlimit(100)]
#[verifier::spinoff_prover]
fn eval_defs(
    defs: &Vec<crate::ast::Stmt>,
    k: usize,
    arena: &mut Vec<Scope>,
    scope: usize,
    ctx: usize,
    fuel: u64,
) -> (r: Result<(), Error>)
    ensures
        ({
            let (sr, sa) = spec_eval_defs(
                fuel as nat,
                stmts_view(defs@),
                k as int,
                scopes_view(old(arena)@),
                scope as int,
                ctx as int,
            );
            scopes_view(final(arena)@) == sa && match (r, sr) {
                (Ok(()), Ok(_)) => true,
                (Err(a), Err(b)) => a == b,
                _ => false,
            }
        }),
    decreases fuel, 5int,
{
    if fuel == 0 {
        return Err(Error::Depth);
    }
    let f = fuel - 1;
    proof {
        lemma_stmts_view(defs@);
    }
    if k >= defs.len() {
        return Ok(());
    }
    match eval_stmt(&defs[k], arena, scope, ctx, f) {
        Err(err) => Err(err),
        Ok(_) => eval_defs(defs, k + 1, arena, scope, ctx, f),
    }
}


} // verus!
