//! The type-checker sketch: it resolves the type slots of the expression
//! forms it knows — literals, arithmetic and the logical connectives.
//!
//! The original leaves every other form unwritten and fails there; those
//! inputs are excluded by `spec_checkable`, so the checker here never
//! panics. Its every step is mirrored by a spec function over expression
//! shapes.

use vstd::prelude::*;
use crate::ast::{
    BinOp, Expr, ExprKind, ExprKindV, ExprV, Mod, Stmt, StmtV, expr_view, lemma_stmts_view,
    stmt_view, stmts_view,
};
use crate::ty::{Ty, TyV, ty_view};

verus! {

/// A type error: what was expected and what was found.
#[derive(Debug, PartialEq)]
pub enum Error {
    TypeError { expected: Ty, found: Ty },
}

/// The spec-level shape of a type error.
pub struct ErrorV {
    pub expected: TyV,
    pub found: TyV,
}

/// The shape of a type error.
pub open spec fn error_view(e: Error) -> ErrorV {
    match e {
        Error::TypeError { expected, found } => ErrorV {
            expected: ty_view(expected),
            found: ty_view(found),
        },
    }
}

/// Whether `op` is an arithmetic operator the checker knows.
pub open spec fn spec_is_arith(op: BinOp) -> bool {
    op == BinOp::Add || op == BinOp::Sub || op == BinOp::Mul || op == BinOp::Div || op
        == BinOp::Mod || op == BinOp::Exp
}

/// The expression forms the checker can resolve; everything else is
/// unwritten in the original and excluded here.
pub open spec fn spec_checkable(e: ExprV) -> bool
    decreases e,
{
    match e.kind {
        ExprKindV::Void => true,
        ExprKindV::Sym(_) => true,
        ExprKindV::Str(_) => true,
        ExprKindV::Int(_) => true,
        ExprKindV::Float(_) => true,
        ExprKindV::BinOp(op, l, r) => (spec_is_arith(op) || op == BinOp::And || op == BinOp::Or)
            && spec_checkable(*l) && spec_checkable(*r),
        _ => false,
    }
}

/// What checking an expression does: the expression with its type slots
/// resolved, or the first type error beside the partially resolved
/// expression.
pub open spec fn spec_check_expr(e: ExprV) -> (Result<(), ErrorV>, ExprV)
    decreases e,
{
    match e.kind {
        ExprKindV::Void => (Ok(()), ExprV { ty: TyV::Void, kind: e.kind }),
        ExprKindV::Sym(_) => (Ok(()), ExprV { ty: TyV::Sym, kind: e.kind }),
        ExprKindV::Str(_) => (Ok(()), ExprV { ty: TyV::Str, kind: e.kind }),
        ExprKindV::Int(_) => (Ok(()), ExprV { ty: TyV::Int, kind: e.kind }),
        ExprKindV::Float(_) => (Ok(()), ExprV { ty: TyV::Float, kind: e.kind }),
        ExprKindV::BinOp(op, l, r) => {
            let (rl, l2) = spec_check_expr(*l);
            let e1 = ExprV { ty: e.ty, kind: ExprKindV::BinOp(op, Box::new(l2), Box::new(*r)) };
            match rl {
                Err(err) => (Err(err), e1),
                Ok(_) => {
                    let (rr, r2) = spec_check_expr(*r);
                    let e2 = ExprV {
                        ty: e.ty,
                        kind: ExprKindV::BinOp(op, Box::new(l2), Box::new(r2)),
                    };
                    match rr {
                        Err(err) => (Err(err), e2),
                        Ok(_) => {
                            if spec_is_arith(op) {
                                if l2.ty == TyV::Int && r2.ty == TyV::Int {
                                    (Ok(()), ExprV { ty: TyV::Int, kind: e2.kind })
                                } else if l2.ty == TyV::Float && r2.ty == TyV::Float {
                                    (Ok(()), ExprV { ty: TyV::Float, kind: e2.kind })
                                } else {
                                    (
                                        Err(ErrorV { expected: TyV::Int, found: TyV::Float }),
                                        e2,
                                    )
                                }
                            } else if op == BinOp::And || op == BinOp::Or {
                                if l2.ty != TyV::Bool {
                                    (Err(ErrorV { expected: TyV::Bool, found: l2.ty }), e2)
                                } else if r2.ty != TyV::Bool {
                                    (Err(ErrorV { expected: TyV::Bool, found: r2.ty }), e2)
                                } else {
                                    (Ok(()), ExprV { ty: TyV::Bool, kind: e2.kind })
                                }
                            } else {
                                (Err(ErrorV { expected: TyV::Int, found: TyV::Float }), e2)
                            }
                        },
                    }
                },
            }
        },
        _ => (Err(ErrorV { expected: TyV::Int, found: TyV::Float }), e),
    }
}

/// What checking a statement does: its expression checked.
pub open spec fn spec_check_stmt(s: StmtV) -> (Result<(), ErrorV>, StmtV) {
    match s {
        StmtV::Let(p, e) => {
            let (r, e2) = spec_check_expr(e);
            (r, StmtV::Let(p, e2))
        },
        StmtV::Expr(e) => {
            let (r, e2) = spec_check_expr(e);
            (r, StmtV::Expr(e2))
        },
    }
}

/// What checking a module's definitions in order does; the first error
/// stops the walk, leaving the rest untouched.
pub open spec fn spec_check_defs(defs: Seq<StmtV>, k: int) -> (Result<(), ErrorV>, Seq<StmtV>)
    decreases defs.len() - k,
{
    if k < 0 || k >= defs.len() {
        (Ok(()), defs)
    } else {
        let (r, s2) = spec_check_stmt(defs[k]);
        let defs2 = defs.update(k, s2);
        match r {
            Err(err) => (Err(err), defs2),
            Ok(_) => spec_check_defs(defs2, k + 1),
        }
    }
}

/// Whether every definition of a module is checkable.
pub open spec fn spec_defs_checkable(defs: Seq<StmtV>) -> bool {
    forall|k: int|
        0 <= k < defs.len() ==> spec_checkable(
            match #[trigger] defs[k] {
                StmtV::Let(_, e) => e,
                StmtV::Expr(e) => e,
            },
        )
}

/// Resolves an expression's type slots: exactly what `spec_check_expr`
/// describes.
#[verifier::rlimit(60)]
#[verifier::spinoff_prover]
pub fn check_expr(expr: &mut Expr) -> (r: Result<(), Error>)
    requires
        spec_checkable(expr_view(*old(expr))),
    ensures
        ({
            let (sr, e2) = spec_check_expr(expr_view(*old(expr)));
            expr_view(*final(expr)) == e2 && match (r, sr) {
                (Ok(()), Ok(_)) => true,
                (Err(err), Err(ev)) => error_view(err) == ev,
                _ => false,
            }
        }),
    decreases *expr,
{
    match &mut expr.kind {
        ExprKind::Void => {
            expr.ty = Ty::Void;
            Ok(())
        },
        ExprKind::Sym(_) => {
            expr.ty = Ty::Sym;
            Ok(())
        },
        ExprKind::Str(_) => {
            expr.ty = Ty::Str;
            Ok(())
        },
        ExprKind::Int(_) => {
            expr.ty = Ty::Int;
            Ok(())
        },
        ExprKind::Float(_) => {
            expr.ty = Ty::Float;
            Ok(())
        },
        ExprKind::BinOp(bin_op, left, right) => {
            match check_expr(left) {
                Err(err) => {
                    return Err(err);
                },
                Ok(()) => {},
            }
            match check_expr(right) {
                Err(err) => {
                    return Err(err);
                },
                Ok(()) => {},
            }
            let arith = matches!(
                bin_op,
                BinOp::Add | BinOp::Sub | BinOp::Mul | BinOp::Div | BinOp::Mod | BinOp::Exp
            );
            if arith {
                if matches!(left.ty, Ty::Int) && matches!(right.ty, Ty::Int) {
                    expr.ty = Ty::Int;
                    Ok(())
                } else if matches!(left.ty, Ty::Float) && matches!(right.ty, Ty::Float) {
                    expr.ty = Ty::Float;
                    Ok(())
                } else {
                    Err(Error::TypeError { expected: Ty::Int, found: Ty::Float })
                }
            } else {
                if !matches!(left.ty, Ty::Bool) {
                    Err(
                        Error::TypeError {
                            expected: Ty::Bool,
                            found: crate::ast::clone_ty(&left.ty),
                        },
                    )
                } else if !matches!(right.ty, Ty::Bool) {
                    Err(
                        Error::TypeError {
                            expected: Ty::Bool,
                            found: crate::ast::clone_ty(&right.ty),
                        },
                    )
                } else {
                    expr.ty = Ty::Bool;
                    Ok(())
                }
            }
        },
        _ => {
            proof {
                assert(false);
            }
            Err(Error::TypeError { expected: Ty::Int, found: Ty::Float })
        },
    }
}

/// Resolves the expression of a statement.
pub fn check_statement(statement: &mut Stmt) -> (r: Result<(), Error>)
    requires
        ({
            let sv = stmt_view(*old(statement));
            spec_checkable(
                match sv {
                    StmtV::Let(_, e) => e,
                    StmtV::Expr(e) => e,
                },
            )
        }),
    ensures
        ({
            let (sr, s2) = spec_check_stmt(stmt_view(*old(statement)));
            stmt_view(*final(statement)) == s2 && match (r, sr) {
                (Ok(()), Ok(_)) => true,
                (Err(err), Err(ev)) => error_view(err) == ev,
                _ => false,
            }
        }),
{
    match statement {
        Stmt::Let(_, expr) => check_expr(expr),
        Stmt::Expr(expr) => check_expr(expr),
    }
}

/// Resolves every definition of a module, stopping at the first error.
#[verifier::loop_isolation(false)]
#[verifier::rlimit(60)]
pub fn check_module(module: &mut Mod) -> (r: Result<(), Error>)
    requires
        spec_defs_checkable(stmts_view(old(module).defs@)),
    ensures
        ({
            let (sr, d2) = spec_check_defs(stmts_view(old(module).defs@), 0);
            final(module).deps@ == old(module).deps@ && stmts_view(final(module).defs@) == d2
                && match (r, sr) {
                (Ok(()), Ok(_)) => true,
                (Err(err), Err(ev)) => error_view(err) == ev,
                _ => false,
            }
        }),
{
    let ghost defs0 = stmts_view(module.defs@);
    let mut k: usize = 0;
    proof {
        lemma_stmts_view(module.defs@);
    }
    while k < module.defs.len()
        invariant
            k <= module.defs@.len(),
            module.defs@.len() == old(module).defs@.len(),
            module.deps@ == old(module).deps@,
            spec_check_defs(stmts_view(module.defs@), k as int) == spec_check_defs(defs0, 0),
            forall|j: int|
                k <= j < module.defs@.len() ==> #[trigger] stmts_view(module.defs@)[j]
                    == defs0[j],
        decreases module.defs@.len() - k,
    {
        let ghost pre = module.defs@;
        proof {
            lemma_stmts_view(pre);
        }
        let mut st = module.defs.remove(k);
        let ghost stv_before = stmt_view(st);
        proof {
            assert(stv_before == stmts_view(pre)[k as int]);
            assert(stv_before == defs0[k as int]);
        }
        let r = check_statement(&mut st);
        module.defs.insert(k, st);
        proof {
            assert(module.defs@ =~= pre.update(k as int, st));
            lemma_stmts_view(module.defs@);
            assert(stmts_view(module.defs@) =~= stmts_view(pre).update(k as int, stmt_view(st)));
        }
        match r {
            Err(err) => {
                return Err(err);
            },
            Ok(()) => {},
        }
        k = k + 1;
    }
    proof {
        lemma_stmts_view(module.defs@);
        assert(spec_check_defs(stmts_view(module.defs@), k as int) == (
            Ok::<(), ErrorV>(()),
            stmts_view(module.defs@),
        ));
    }
    Ok(())
}

} // verus!