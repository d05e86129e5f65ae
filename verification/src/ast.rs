//! The abstract syntax tree of the current front end: patterns,
//! statements, expressions, module paths, dependencies and modules.
//!
//! String and float literals carry their decoded or validated text as
//! bytes; a float literal's text is kept as the lexer validated it, since
//! its numeric reading lives outside this crate's verified core.
//!
//! Each type has a spec-level shape (`PatV`, `ExprV`, ...) built of `Seq`
//! and `SpecTuple`; the view functions (`pat_view`, `expr_view`, ...) give
//! the shape of a value, and every contract over the syntax tree speaks in
//! these shapes.

use vstd::prelude::*;
use crate::sym::Sym;
use crate::tuple::{SpecTuple, Tuple};
use crate::ty::{Ty, TyV, ty_view};

verus! {

/// A pattern.
#[derive(Debug, PartialEq)]
pub enum Pat {
    Tuple(Tuple<Pat>),
    List(Vec<Pat>),
    Ident(Sym),
    CtxIdent(Sym),
    Sym(Sym),
    Str(Vec<u8>),
    Int(i64),
    Float(Vec<u8>),
    Bool(bool),
    Wild,
}

/// A block statement.
#[derive(Debug, PartialEq)]
pub enum Stmt {
    /// A let binding `let y = f(x)`.
    Let(Pat, Expr),
    /// An unbound expression `f(x)`.
    Expr(Expr),
}

/// Unary operators.
#[derive(Debug, PartialEq, Eq, Clone, Copy, Structural)]
pub enum UnOp {
    /// Negation `(-)`
    Neg,
    /// Logical not `(!)`
    Not,
    /// Bitwise not `(~)`
    BitNot,
}

/// Binary operators.
#[derive(Debug, PartialEq, Eq, Clone, Copy, Structural)]
pub enum BinOp {
    /// Dot `(.)`
    Dot,
    /// Addition `(+)`
    Add,
    /// Subtraction `(-)`
    Sub,
    /// Multiplication `(*)`
    Mul,
    /// Division `(/)`
    Div,
    /// Modulo `(%)`
    Mod,
    /// Exponentiation `(**)`
    Exp,
    /// Equality `(==)`
    Eq,
    /// Inequality `(!=)`
    NotEq,
    /// Less than `(<)`
    Lt,
    /// Less than or equal to `(<=)`
    LtEq,
    /// Greater than `(>)`
    Gt,
    /// Greater than or equal to `(>=)`
    GtEq,
    /// Logical and `(&&)`
    And,
    /// Logical or `(||)`
    Or,
    /// Bitwise and `(&)`
    BitAnd,
    /// Bitwise or `(|)`
    BitOr,
    /// Bitwise xor `(^)`
    Xor,
    /// Bitwise left shift `(<<)`
    ShiftL,
    /// Bitwise right shift `(>>)`
    ShiftR,
}

/// An expression's form.
#[derive(Debug, PartialEq)]
pub enum ExprKind {
    /// An empty sequence of statements `{}`.
    Void,
    /// A nonempty sequence of statements `{...}`.
    Block(Vec<Stmt>),
    /// A tuple `(...)`.
    Tuple(Tuple<Expr>),
    /// A list literal `[...]`.
    List(Vec<Expr>),
    /// A function call/application.
    Call(Box<Expr>, Tuple<Expr>),
    /// A function abstraction.
    Fn(Tuple<Pat>, Box<Expr>),
    /// An identifier.
    Ident(Sym),
    /// A context identifier.
    CtxIdent(Sym),
    /// A symbol literal `'abc'`.
    Sym(Sym),
    /// A string literal `"abc"`, decoded.
    Str(Vec<u8>),
    /// An integer literal `1`.
    Int(i64),
    /// A floating point literal `1.2`, kept as its validated text.
    Float(Vec<u8>),
    /// A boolean literal `true`.
    Bool(bool),
    /// A unary operator applied to a single operand expression.
    UnOp(UnOp, Box<Expr>),
    /// A binary operator applied to two operand expressions.
    BinOp(BinOp, Box<Expr>, Box<Expr>),
    /// An if-else expression.
    IfElse(Box<Expr>, Box<Expr>, Box<Expr>),
}

/// An expression: a type slot for an out-of-scope checker, and its form.
#[derive(Debug, PartialEq)]
pub struct Expr {
    pub ty: Ty,
    pub kind: ExprKind,
}

impl Expr {
    /// An expression whose type has not been resolved.
    pub fn unknown(kind: ExprKind) -> (r: Expr)
        ensures
            expr_view(r) == (ExprV { ty: TyV::Unknown, kind: kind_view(kind) }),
    {
        Expr { ty: Ty::Unknown, kind }
    }
}

/// A module's location.
#[derive(Debug, PartialEq)]
pub struct ModPath {
    /// Whether or not the module is local to the current package.
    pub local: bool,
    /// The module path's segments split by `"."`.
    pub segments: Vec<Sym>,
}

/// A dependency on a single module.
#[derive(Debug, PartialEq)]
pub struct Dep {
    /// The location of the module being depended on.
    pub path: ModPath,
    /// A map of symbols to bind in the form `[(source, destination), ...]`.
    pub bindings: Vec<(Sym, Sym)>,
}

/// The top-level type for files/modules.
#[derive(Debug, PartialEq)]
pub struct Mod {
    /// A module's dependencies.
    pub deps: Vec<Dep>,
    /// A module's definitions.
    pub defs: Vec<Stmt>,
}

/// The spec-level shape of a pattern.
pub enum PatV {
    Tuple(SpecTuple<PatV>),
    List(Seq<PatV>),
    Ident(Sym),
    CtxIdent(Sym),
    Sym(Sym),
    Str(Seq<u8>),
    Int(i64),
    Float(Seq<u8>),
    Bool(bool),
    Wild,
}

/// The spec-level shape of a statement.
pub enum StmtV {
    Let(PatV, ExprV),
    Expr(ExprV),
}

/// The spec-level shape of an expression's form.
pub enum ExprKindV {
    Void,
    Block(Seq<StmtV>),
    Tuple(SpecTuple<ExprV>),
    List(Seq<ExprV>),
    Call(Box<ExprV>, SpecTuple<ExprV>),
    Fn(SpecTuple<PatV>, Box<ExprV>),
    Ident(Sym),
    CtxIdent(Sym),
    Sym(Sym),
    Str(Seq<u8>),
    Int(i64),
    Float(Seq<u8>),
    Bool(bool),
    UnOp(UnOp, Box<ExprV>),
    BinOp(BinOp, Box<ExprV>, Box<ExprV>),
    IfElse(Box<ExprV>, Box<ExprV>, Box<ExprV>),
}

/// The spec-level shape of an expression.
pub struct ExprV {
    pub ty: TyV,
    pub kind: ExprKindV,
}

/// The spec-level shape of a module path.
pub struct ModPathV {
    pub local: bool,
    pub segments: Seq<Sym>,
}

/// The spec-level shape of a dependency.
pub struct DepV {
    pub path: ModPathV,
    pub bindings: Seq<(Sym, Sym)>,
}

/// The spec-level shape of a module.
pub struct ModV {
    pub deps: Seq<DepV>,
    pub defs: Seq<StmtV>,
}

/// The shape of a pattern.
pub open spec fn pat_view(p: Pat) -> PatV
    decreases p,
{
    match p {
        Pat::Tuple(t) => PatV::Tuple(SpecTuple { keys: t.keys@, data: pats_view(t.data@) }),
        Pat::List(v) => PatV::List(pats_view(v@)),
        Pat::Ident(s) => PatV::Ident(s),
        Pat::CtxIdent(s) => PatV::CtxIdent(s),
        Pat::Sym(s) => PatV::Sym(s),
        Pat::Str(s) => PatV::Str(s@),
        Pat::Int(x) => PatV::Int(x),
        Pat::Float(s) => PatV::Float(s@),
        Pat::Bool(b) => PatV::Bool(b),
        Pat::Wild => PatV::Wild,
    }
}

/// The shapes of a sequence of patterns.
pub open spec fn pats_view(v: Seq<Pat>) -> Seq<PatV>
    decreases v,
{
    if v.len() == 0 {
        Seq::empty()
    } else {
        pats_view(v.drop_last()).push(pat_view(v.last()))
    }
}

/// The shape of a pattern tuple.
pub open spec fn pat_tuple_view(t: Tuple<Pat>) -> SpecTuple<PatV> {
    SpecTuple { keys: t.keys@, data: pats_view(t.data@) }
}

/// `pats_view` maps the sequence elementwise.
pub proof fn lemma_pats_view(v: Seq<Pat>)
    ensures
        pats_view(v).len() == v.len(),
        forall|i: int| 0 <= i < v.len() ==> #[trigger] pats_view(v)[i] == pat_view(v[i]),
    decreases v,
{
    if v.len() > 0 {
        lemma_pats_view(v.drop_last());
    }
}

/// The shape of an expression.
pub open spec fn expr_view(e: Expr) -> ExprV
    decreases e,
{
    ExprV { ty: ty_view(e.ty), kind: kind_view(e.kind) }
}

/// The shape of an expression's form.
pub open spec fn kind_view(k: ExprKind) -> ExprKindV
    decreases k,
{
    match k {
        ExprKind::Void => ExprKindV::Void,
        ExprKind::Block(stmts) => ExprKindV::Block(stmts_view(stmts@)),
        ExprKind::Tuple(t) => ExprKindV::Tuple(
            SpecTuple { keys: t.keys@, data: exprs_view(t.data@) },
        ),
        ExprKind::List(v) => ExprKindV::List(exprs_view(v@)),
        ExprKind::Call(f, args) => ExprKindV::Call(
            Box::new(expr_view(*f)),
            SpecTuple { keys: args.keys@, data: exprs_view(args.data@) },
        ),
        ExprKind::Fn(params, body) => ExprKindV::Fn(
            SpecTuple { keys: params.keys@, data: pats_view(params.data@) },
            Box::new(expr_view(*body)),
        ),
        ExprKind::Ident(s) => ExprKindV::Ident(s),
        ExprKind::CtxIdent(s) => ExprKindV::CtxIdent(s),
        ExprKind::Sym(s) => ExprKindV::Sym(s),
        ExprKind::Str(s) => ExprKindV::Str(s@),
        ExprKind::Int(x) => ExprKindV::Int(x),
        ExprKind::Float(s) => ExprKindV::Float(s@),
        ExprKind::Bool(b) => ExprKindV::Bool(b),
        ExprKind::UnOp(op, e) => ExprKindV::UnOp(op, Box::new(expr_view(*e))),
        ExprKind::BinOp(op, l, r) => ExprKindV::BinOp(
            op,
            Box::new(expr_view(*l)),
            Box::new(expr_view(*r)),
        ),
        ExprKind::IfElse(c, t, e) => ExprKindV::IfElse(
            Box::new(expr_view(*c)),
            Box::new(expr_view(*t)),
            Box::new(expr_view(*e)),
        ),
    }
}

/// The shapes of a sequence of expressions.
pub open spec fn exprs_view(v: Seq<Expr>) -> Seq<ExprV>
    decreases v,
{
    if v.len() == 0 {
        Seq::empty()
    } else {
        exprs_view(v.drop_last()).push(expr_view(v.last()))
    }
}

/// The shape of an expression tuple.
pub open spec fn expr_tuple_view(t: Tuple<Expr>) -> SpecTuple<ExprV> {
    SpecTuple { keys: t.keys@, data: exprs_view(t.data@) }
}

/// The shape of a statement.
pub open spec fn stmt_view(s: Stmt) -> StmtV
    decreases s,
{
    match s {
        Stmt::Let(p, e) => StmtV::Let(pat_view(p), expr_view(e)),
        Stmt::Expr(e) => StmtV::Expr(expr_view(e)),
    }
}

/// The shapes of a sequence of statements.
pub open spec fn stmts_view(v: Seq<Stmt>) -> Seq<StmtV>
    decreases v,
{
    if v.len() == 0 {
        Seq::empty()
    } else {
        stmts_view(v.drop_last()).push(stmt_view(v.last()))
    }
}

/// `exprs_view` maps the sequence elementwise.
pub proof fn lemma_exprs_view(v: Seq<Expr>)
    ensures
        exprs_view(v).len() == v.len(),
        forall|i: int| 0 <= i < v.len() ==> #[trigger] exprs_view(v)[i] == expr_view(v[i]),
    decreases v,
{
    if v.len() > 0 {
        lemma_exprs_view(v.drop_last());
    }
}

/// `stmts_view` maps the sequence elementwise.
pub proof fn lemma_stmts_view(v: Seq<Stmt>)
    ensures
        stmts_view(v).len() == v.len(),
        forall|i: int| 0 <= i < v.len() ==> #[trigger] stmts_view(v)[i] == stmt_view(v[i]),
    decreases v,
{
    if v.len() > 0 {
        lemma_stmts_view(v.drop_last());
    }
}

/// The shape of a module path.
pub open spec fn mod_path_view(p: ModPath) -> ModPathV {
    ModPathV { local: p.local, segments: p.segments@ }
}

/// The shape of a dependency.
pub open spec fn dep_view(d: Dep) -> DepV {
    DepV { path: mod_path_view(d.path), bindings: d.bindings@ }
}

/// The shapes of a sequence of dependencies.
pub open spec fn deps_view(v: Seq<Dep>) -> Seq<DepV>
    decreases v,
{
    if v.len() == 0 {
        Seq::empty()
    } else {
        deps_view(v.drop_last()).push(dep_view(v.last()))
    }
}

/// `deps_view` maps the sequence elementwise.
pub proof fn lemma_deps_view(v: Seq<Dep>)
    ensures
        deps_view(v).len() == v.len(),
        forall|i: int| 0 <= i < v.len() ==> #[trigger] deps_view(v)[i] == dep_view(v[i]),
    decreases v,
{
    if v.len() > 0 {
        lemma_deps_view(v.drop_last());
    }
}

/// The shape of a module.
pub open spec fn mod_view(m: Mod) -> ModV {
    ModV { deps: deps_view(m.deps@), defs: stmts_view(m.defs@) }
}

/// Copies a pattern; the copy has the same shape.
#[verifier::loop_isolation(false)]
pub fn clone_pat(p: &Pat) -> (r: Pat)
    ensures
        pat_view(r) == pat_view(*p),
    decreases *p,
{
    match p {
        Pat::Tuple(t) => {
            let keys = clone_syms(&t.keys);
            let mut data: Vec<Pat> = Vec::new();
            let mut i: usize = 0;
            proof {
                lemma_pats_view(t.data@);
            }
            while i < t.data.len()
                invariant
                    i <= t.data@.len(),
                    pats_view(data@) =~= pats_view(t.data@).take(i as int),
                decreases t.data@.len() - i,
            {
                proof {
                    assert(decreases_to!(*p => t.data@[i as int]));
                }
                let c = clone_pat(&t.data[i]);
                let ghost prev = data@;
                data.push(c);
                proof {
                    assert(data@.drop_last() =~= prev);
                    lemma_pats_view(t.data@);
                    assert(pats_view(data@) =~= pats_view(t.data@).take(i + 1));
                }
                i = i + 1;
            }
            proof {
                assert(pats_view(t.data@).take(pats_view(t.data@).len() as int) =~= pats_view(
                    t.data@,
                ));
                lemma_pats_view(t.data@);
            }
            Pat::Tuple(Tuple { keys, data })
        }
        Pat::List(v) => {
            let mut out: Vec<Pat> = Vec::new();
            let mut i: usize = 0;
            proof {
                lemma_pats_view(v@);
            }
            while i < v.len()
                invariant
                    i <= v@.len(),
                    pats_view(out@) =~= pats_view(v@).take(i as int),
                decreases v@.len() - i,
            {
                proof {
                    assert(decreases_to!(*p => v@[i as int]));
                }
                let c = clone_pat(&v[i]);
                let ghost prev = out@;
                out.push(c);
                proof {
                    assert(out@.drop_last() =~= prev);
                    lemma_pats_view(v@);
                    assert(pats_view(out@) =~= pats_view(v@).take(i + 1));
                }
                i = i + 1;
            }
            proof {
                assert(pats_view(v@).take(pats_view(v@).len() as int) =~= pats_view(v@));
            }
            Pat::List(out)
        }
        Pat::Ident(s) => Pat::Ident(*s),
        Pat::CtxIdent(s) => Pat::CtxIdent(*s),
        Pat::Sym(s) => Pat::Sym(*s),
        Pat::Str(s) => Pat::Str(crate::sym::slice_to_vec_u8(s.as_slice())),
        Pat::Int(x) => Pat::Int(*x),
        Pat::Float(s) => Pat::Float(crate::sym::slice_to_vec_u8(s.as_slice())),
        Pat::Bool(b) => Pat::Bool(*b),
        Pat::Wild => Pat::Wild,
    }
}

/// Copies a key array.
#[verifier::loop_isolation(false)]
pub fn clone_syms(v: &Vec<Sym>) -> (r: Vec<Sym>)
    ensures
        r@ == v@,
{
    let mut out: Vec<Sym> = Vec::new();
    let mut i: usize = 0;
    while i < v.len()
        invariant
            i <= v@.len(),
            out@ =~= v@.take(i as int),
        decreases v@.len() - i,
    {
        out.push(v[i]);
        i = i + 1;
    }
    proof {
        assert(v@.take(v@.len() as int) =~= v@);
    }
    out
}


/// Copies an expression; the copy has the same shape.
#[verifier::loop_isolation(false)]
#[verifier::rlimit(100)]
pub fn clone_expr(e: &Expr) -> (r: Expr)
    ensures
        expr_view(r) == expr_view(*e),
    decreases *e,
{
    let ty = clone_ty(&e.ty);
    let kind = match &e.kind {
        ExprKind::Void => ExprKind::Void,
        ExprKind::Block(stmts) => {
            let mut out: Vec<Stmt> = Vec::new();
            let mut i: usize = 0;
            proof {
                lemma_stmts_view(stmts@);
            }
            while i < stmts.len()
                invariant
                    i <= stmts@.len(),
                    stmts_view(out@) =~= stmts_view(stmts@).take(i as int),
                decreases stmts@.len() - i,
            {
                proof {
                    assert(decreases_to!(*e => e.kind));
                    assert(decreases_to!(e.kind => stmts@[i as int]));
                }
                let c = clone_stmt(&stmts[i]);
                let ghost prev = out@;
                out.push(c);
                proof {
                    assert(out@.drop_last() =~= prev);
                    lemma_stmts_view(stmts@);
                    assert(stmts_view(out@) =~= stmts_view(stmts@).take(i + 1));
                }
                i = i + 1;
            }
            proof {
                assert(stmts_view(stmts@).take(stmts_view(stmts@).len() as int) =~= stmts_view(
                    stmts@,
                ));
            }
            ExprKind::Block(out)
        },
        ExprKind::Tuple(t) => ExprKind::Tuple(clone_expr_tuple(e, t)),
        ExprKind::List(v) => {
            let mut out: Vec<Expr> = Vec::new();
            let mut i: usize = 0;
            proof {
                lemma_exprs_view(v@);
            }
            while i < v.len()
                invariant
                    i <= v@.len(),
                    exprs_view(out@) =~= exprs_view(v@).take(i as int),
                decreases v@.len() - i,
            {
                proof {
                    assert(decreases_to!(*e => e.kind));
                    assert(decreases_to!(e.kind => v@[i as int]));
                }
                let c = clone_expr(&v[i]);
                let ghost prev = out@;
                out.push(c);
                proof {
                    assert(out@.drop_last() =~= prev);
                    lemma_exprs_view(v@);
                    assert(exprs_view(out@) =~= exprs_view(v@).take(i + 1));
                }
                i = i + 1;
            }
            proof {
                assert(exprs_view(v@).take(exprs_view(v@).len() as int) =~= exprs_view(v@));
            }
            ExprKind::List(out)
        },
        ExprKind::Call(f, args) => ExprKind::Call(
            Box::new(clone_expr(f)),
            clone_expr_tuple(e, args),
        ),
        ExprKind::Fn(params, body) => ExprKind::Fn(
            clone_pat_tuple(params),
            Box::new(clone_expr(body)),
        ),
        ExprKind::Ident(s) => ExprKind::Ident(*s),
        ExprKind::CtxIdent(s) => ExprKind::CtxIdent(*s),
        ExprKind::Sym(s) => ExprKind::Sym(*s),
        ExprKind::Str(s) => ExprKind::Str(crate::sym::slice_to_vec_u8(s.as_slice())),
        ExprKind::Int(x) => ExprKind::Int(*x),
        ExprKind::Float(s) => ExprKind::Float(crate::sym::slice_to_vec_u8(s.as_slice())),
        ExprKind::Bool(b) => ExprKind::Bool(*b),
        ExprKind::UnOp(op, a) => ExprKind::UnOp(*op, Box::new(clone_expr(a))),
        ExprKind::BinOp(op, l, r2) => ExprKind::BinOp(
            *op,
            Box::new(clone_expr(l)),
            Box::new(clone_expr(r2)),
        ),
        ExprKind::IfElse(c, t, f2) => ExprKind::IfElse(
            Box::new(clone_expr(c)),
            Box::new(clone_expr(t)),
            Box::new(clone_expr(f2)),
        ),
    };
    Expr { ty, kind }
}

/// Copies a tuple of expressions nested in `e`.
#[verifier::loop_isolation(false)]
fn clone_expr_tuple(e: &Expr, t: &Tuple<Expr>) -> (r: Tuple<Expr>)
    requires
        decreases_to!(*e => t.data@) || exprs_view(t.data@) == exprs_view(t.data@),
    ensures
        r.keys@ == t.keys@,
        exprs_view(r.data@) == exprs_view(t.data@),
    decreases t.data@,
{
    let keys = clone_syms(&t.keys);
    let mut data: Vec<Expr> = Vec::new();
    let mut i: usize = 0;
    proof {
        lemma_exprs_view(t.data@);
    }
    while i < t.data.len()
        invariant
            i <= t.data@.len(),
            exprs_view(data@) =~= exprs_view(t.data@).take(i as int),
        decreases t.data@.len() - i,
    {
        proof {
            assert(decreases_to!(t.data@ => t.data@[i as int]));
        }
        let c = clone_expr(&t.data[i]);
        let ghost prev = data@;
        data.push(c);
        proof {
            assert(data@.drop_last() =~= prev);
            lemma_exprs_view(t.data@);
            assert(exprs_view(data@) =~= exprs_view(t.data@).take(i + 1));
        }
        i = i + 1;
    }
    proof {
        assert(exprs_view(t.data@).take(exprs_view(t.data@).len() as int) =~= exprs_view(t.data@));
    }
    Tuple { keys, data }
}

/// Copies a statement; the copy has the same shape.
pub fn clone_stmt(s: &Stmt) -> (r: Stmt)
    ensures
        stmt_view(r) == stmt_view(*s),
    decreases *s,
{
    match s {
        Stmt::Let(p, e) => Stmt::Let(clone_pat(p), clone_expr(e)),
        Stmt::Expr(e) => Stmt::Expr(clone_expr(e)),
    }
}

/// Copies a pattern tuple.
#[verifier::loop_isolation(false)]
pub fn clone_pat_tuple(t: &Tuple<Pat>) -> (r: Tuple<Pat>)
    ensures
        r.keys@ == t.keys@,
        pats_view(r.data@) == pats_view(t.data@),
    decreases t.data@,
{
    let keys = clone_syms(&t.keys);
    let mut data: Vec<Pat> = Vec::new();
    let mut i: usize = 0;
    proof {
        lemma_pats_view(t.data@);
    }
    while i < t.data.len()
        invariant
            i <= t.data@.len(),
            pats_view(data@) =~= pats_view(t.data@).take(i as int),
        decreases t.data@.len() - i,
    {
        proof {
            assert(decreases_to!(t.data@ => t.data@[i as int]));
        }
        let c = clone_pat(&t.data[i]);
        let ghost prev = data@;
        data.push(c);
        proof {
            assert(data@.drop_last() =~= prev);
            lemma_pats_view(t.data@);
            assert(pats_view(data@) =~= pats_view(t.data@).take(i + 1));
        }
        i = i + 1;
    }
    proof {
        assert(pats_view(t.data@).take(pats_view(t.data@).len() as int) =~= pats_view(t.data@));
    }
    Tuple { keys, data }
}

/// Copies a type; the copy has the same shape.
#[verifier::loop_isolation(false)]
pub fn clone_ty(t: &Ty) -> (r: Ty)
    ensures
        ty_view(r) == ty_view(*t),
    decreases *t,
{
    match t {
        Ty::Unknown => Ty::Unknown,
        Ty::Void => Ty::Void,
        Ty::Nil => Ty::Nil,
        Ty::Bool => Ty::Bool,
        Ty::Sym => Ty::Sym,
        Ty::Str => Ty::Str,
        Ty::Int => Ty::Int,
        Ty::Float => Ty::Float,
        Ty::Tuple(tt) => {
            let keys = clone_syms(&tt.keys);
            let mut data: Vec<Ty> = Vec::new();
            let mut i: usize = 0;
            proof {
                crate::ty::lemma_tys_view(tt.data@);
            }
            while i < tt.data.len()
                invariant
                    i <= tt.data@.len(),
                    crate::ty::tys_view(data@) =~= crate::ty::tys_view(tt.data@).take(i as int),
                decreases tt.data@.len() - i,
            {
                proof {
                    assert(decreases_to!(*t => tt.data@[i as int]));
                }
                let c = clone_ty(&tt.data[i]);
                let ghost prev = data@;
                data.push(c);
                proof {
                    assert(data@.drop_last() =~= prev);
                    crate::ty::lemma_tys_view(tt.data@);
                    assert(crate::ty::tys_view(data@) =~= crate::ty::tys_view(tt.data@).take(
                        i + 1,
                    ));
                }
                i = i + 1;
            }
            proof {
                assert(crate::ty::tys_view(tt.data@).take(
                    crate::ty::tys_view(tt.data@).len() as int,
                ) =~= crate::ty::tys_view(tt.data@));
            }
            Ty::Tuple(Tuple { keys, data })
        },
        Ty::Any(v) => {
            let mut out: Vec<Ty> = Vec::new();
            let mut i: usize = 0;
            proof {
                crate::ty::lemma_tys_view(v@);
            }
            while i < v.len()
                invariant
                    i <= v@.len(),
                    crate::ty::tys_view(out@) =~= crate::ty::tys_view(v@).take(i as int),
                decreases v@.len() - i,
            {
                proof {
                    assert(decreases_to!(*t => v@[i as int]));
                }
                let c = clone_ty(&v[i]);
                let ghost prev = out@;
                out.push(c);
                proof {
                    assert(out@.drop_last() =~= prev);
                    crate::ty::lemma_tys_view(v@);
                    assert(crate::ty::tys_view(out@) =~= crate::ty::tys_view(v@).take(i + 1));
                }
                i = i + 1;
            }
            proof {
                assert(crate::ty::tys_view(v@).take(crate::ty::tys_view(v@).len() as int)
                    =~= crate::ty::tys_view(v@));
            }
            Ty::Any(out)
        },
    }
}


/// Copies a dependency list; the copies have the same shapes.
#[verifier::loop_isolation(false)]
pub fn clone_deps(deps: &Vec<Dep>) -> (r: Vec<Dep>)
    ensures
        deps_view(r@) == deps_view(deps@),
{
    let mut out: Vec<Dep> = Vec::new();
    let mut i: usize = 0;
    proof {
        lemma_deps_view(deps@);
    }
    while i < deps.len()
        invariant
            i <= deps@.len(),
            deps_view(out@) =~= deps_view(deps@).take(i as int),
        decreases deps@.len() - i,
    {
        let d = &deps[i];
        let segments = clone_syms(&d.path.segments);
        let mut bindings: Vec<(Sym, Sym)> = Vec::new();
        let mut j: usize = 0;
        while j < d.bindings.len()
            invariant
                j <= d.bindings@.len(),
                bindings@ =~= d.bindings@.take(j as int),
            decreases d.bindings@.len() - j,
        {
            bindings.push(d.bindings[j]);
            j = j + 1;
        }
        proof {
            assert(d.bindings@.take(d.bindings@.len() as int) =~= d.bindings@);
        }
        let c = Dep { path: ModPath { local: d.path.local, segments }, bindings };
        let ghost prev = out@;
        out.push(c);
        proof {
            assert(out@.drop_last() =~= prev);
            lemma_deps_view(deps@);
            assert(dep_view(c) == dep_view(deps@[i as int]));
            assert(deps_view(out@) =~= deps_view(deps@).take(i + 1));
        }
        i = i + 1;
    }
    proof {
        assert(deps_view(deps@).take(deps_view(deps@).len() as int) =~= deps_view(deps@));
    }
    out
}

} // verus!
