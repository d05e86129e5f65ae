//! Runtime values, function values and scope frames.
//!
//! Scopes live in an arena: a vector of frames, each with an optional
//! parent index pointing strictly downwards. Closures hold the index of
//! their captured frame, so later bindings into that frame stay visible —
//! the shared, interior-mutable scope graph of the language, as a plain
//! indexed table.

use vstd::prelude::*;
use crate::ast::{Dep, Expr, ExprV, Pat, PatV, expr_view, pats_view};
use crate::sym::Sym;
use crate::tuple::{SpecTuple, Tuple};

verus! {

/// A runtime value. A float value carries its literal text; its numeric
/// reading lives outside this crate's verified core.
#[derive(Debug, PartialEq)]
pub enum Value {
    Bool(bool),
    Sym(Sym),
    Str(Vec<u8>),
    Int(i64),
    Float(Vec<u8>),
    Tuple(Tuple<Value>),
    List(Vec<Value>),
    Fn(Fn),
}

/// A function value: parameters, body, and the captured scope's index.
#[derive(Debug, PartialEq)]
pub struct Fn {
    pub params: Tuple<Pat>,
    pub body: Box<Expr>,
    pub scope: usize,
}

/// One scope frame: a parent index (strictly below this frame's own
/// index in any well-formed arena) and its bindings.
#[derive(Debug, PartialEq)]
pub struct Scope {
    pub parent: Option<usize>,
    pub bindings: Tuple<Value>,
}

/// An evaluated module: its dependencies and its scope index.
#[derive(Debug, PartialEq)]
pub struct Mod {
    pub deps: Vec<Dep>,
    pub scope: usize,
}

/// The spec-level shape of a value.
pub enum ValueV {
    Bool(bool),
    Sym(Sym),
    Str(Seq<u8>),
    Int(i64),
    Float(Seq<u8>),
    Tuple(SpecTuple<ValueV>),
    List(Seq<ValueV>),
    Fn(SpecTuple<PatV>, Box<ExprV>, int),
}

/// The spec-level shape of a scope frame.
pub struct ScopeV {
    pub parent: Option<int>,
    pub bindings: SpecTuple<ValueV>,
}

/// The shape of a value.
pub open spec fn value_view(v: Value) -> ValueV
    decreases v,
{
    match v {
        Value::Bool(b) => ValueV::Bool(b),
        Value::Sym(s) => ValueV::Sym(s),
        Value::Str(s) => ValueV::Str(s@),
        Value::Int(x) => ValueV::Int(x),
        Value::Float(s) => ValueV::Float(s@),
        Value::Tuple(t) => ValueV::Tuple(SpecTuple { keys: t.keys@, data: values_view(t.data@) }),
        Value::List(v2) => ValueV::List(values_view(v2@)),
        Value::Fn(f) => ValueV::Fn(
            SpecTuple { keys: f.params.keys@, data: pats_view(f.params.data@) },
            Box::new(expr_view(*f.body)),
            f.scope as int,
        ),
    }
}

/// The shapes of a sequence of values.
pub open spec fn values_view(v: Seq<Value>) -> Seq<ValueV>
    decreases v,
{
    if v.len() == 0 {
        Seq::empty()
    } else {
        values_view(v.drop_last()).push(value_view(v.last()))
    }
}

/// `values_view` maps the sequence elementwise.
pub proof fn lemma_values_view(v: Seq<Value>)
    ensures
        values_view(v).len() == v.len(),
        forall|i: int| 0 <= i < v.len() ==> #[trigger] values_view(v)[i] == value_view(v[i]),
    decreases v,
{
    if v.len() > 0 {
        lemma_values_view(v.drop_last());
    }
}

/// The shape of a value tuple.
pub open spec fn value_tuple_view(t: Tuple<Value>) -> SpecTuple<ValueV> {
    SpecTuple { keys: t.keys@, data: values_view(t.data@) }
}

/// The shape of a scope frame.
pub open spec fn scope_view(s: Scope) -> ScopeV {
    ScopeV {
        parent: match s.parent {
            Some(p) => Some(p as int),
            None => None,
        },
        bindings: SpecTuple { keys: s.bindings.keys@, data: values_view(s.bindings.data@) },
    }
}

/// The shapes of an arena of scope frames.
pub open spec fn scopes_view(v: Seq<Scope>) -> Seq<ScopeV>
    decreases v,
{
    if v.len() == 0 {
        Seq::empty()
    } else {
        scopes_view(v.drop_last()).push(scope_view(v.last()))
    }
}

/// `scopes_view` maps the sequence elementwise.
pub proof fn lemma_scopes_view(v: Seq<Scope>)
    ensures
        scopes_view(v).len() == v.len(),
        forall|i: int| 0 <= i < v.len() ==> #[trigger] scopes_view(v)[i] == scope_view(v[i]),
    decreases v,
{
    if v.len() > 0 {
        lemma_scopes_view(v.drop_last());
    }
}

/// Viewing commutes with inserting a value into a data sequence.
pub proof fn lemma_values_insert_commutes(data: Seq<Value>, at: int, v: Value)
    requires
        0 <= at <= data.len(),
    ensures
        values_view(data.insert(at, v)) == values_view(data).insert(at, value_view(v)),
{
    lemma_values_view(data);
    lemma_values_view(data.insert(at, v));
    assert(values_view(data.insert(at, v)) =~= values_view(data).insert(at, value_view(v)));
}

/// Viewing commutes with updating a value in a data sequence.
pub proof fn lemma_values_update_commutes(data: Seq<Value>, at: int, v: Value)
    requires
        0 <= at < data.len(),
    ensures
        values_view(data.update(at, v)) == values_view(data).update(at, value_view(v)),
{
    lemma_values_view(data);
    lemma_values_view(data.update(at, v));
    assert(values_view(data.update(at, v)) =~= values_view(data).update(at, value_view(v)));
}

/// Viewing commutes with appending a value to a data sequence.
pub proof fn lemma_values_push_commutes(data: Seq<Value>, v: Value)
    ensures
        values_view(data.push(v)) == values_view(data).push(value_view(v)),
{
    lemma_values_view(data);
    lemma_values_view(data.push(v));
    assert(values_view(data.push(v)) =~= values_view(data).push(value_view(v)));
}

impl Scope {
    /// A fresh, empty frame under `parent`.
    pub fn new(parent: Option<usize>) -> (r: Scope)
        ensures
            scope_view(r) == (ScopeV {
                parent: match parent {
                    Some(p) => Some(p as int),
                    None => None::<int>,
                },
                bindings: crate::tuple::spec_tuple_empty(),
            }),
    {
        let r = Scope { parent, bindings: Tuple::new() };
        proof {
            assert(values_view(r.bindings.data@) =~= Seq::<ValueV>::empty());
        }
        r
    }

    /// Binds `name` in this frame, shadowing an earlier binding of the
    /// same name.
    pub fn bind(&mut self, name: Sym, value: Value)
        ensures
            scope_view(*final(self)) == (ScopeV {
                parent: scope_view(*old(self)).parent,
                bindings: crate::tuple::spec_tuple_insert(
                    scope_view(*old(self)).bindings,
                    name,
                    value_view(value),
                ),
            }),
    {
        let ghost keys0 = self.bindings.keys@;
        let ghost data0 = self.bindings.data@;
        proof {
            lemma_values_view(data0);
            crate::tuple::lemma_bsearch_bounds(keys0, name, 0, keys0.len() as int);
        }
        let ghost vv = value_view(value);
        let _replaced = self.bindings.insert(name, value);
        proof {
            let ofs = crate::tuple::spec_named_offset(keys0, data0.len() as int);
            match crate::tuple::spec_bsearch(keys0, name, 0, keys0.len() as int) {
                Ok(i) => {
                    if ofs + i < data0.len() {
                        lemma_values_update_commutes(data0, ofs + i, value);
                    } else {
                        lemma_values_push_commutes(data0, value);
                    }
                },
                Err(i) => {
                    lemma_values_insert_commutes(
                        data0,
                        if ofs + i <= data0.len() {
                            ofs + i
                        } else {
                            data0.len() as int
                        },
                        value,
                    );
                },
            }
        }
    }
}

/// Structural equality of value shapes, as the evaluator's `==` sees it:
/// strings and float texts compare by their bytes, tuples and lists
/// elementwise; function values never compare equal here (the evaluator
/// rejects comparing them before asking).
pub open spec fn spec_value_eq(a: ValueV, b: ValueV) -> bool
    decreases a,
{
    match (a, b) {
        (ValueV::Bool(x), ValueV::Bool(y)) => x == y,
        (ValueV::Sym(x), ValueV::Sym(y)) => x == y,
        (ValueV::Str(x), ValueV::Str(y)) => x == y,
        (ValueV::Int(x), ValueV::Int(y)) => x == y,
        (ValueV::Float(x), ValueV::Float(y)) => x == y,
        (ValueV::Tuple(x), ValueV::Tuple(y)) => x.keys == y.keys && spec_values_eq(x.data, y.data),
        (ValueV::List(x), ValueV::List(y)) => spec_values_eq(x, y),
        _ => false,
    }
}

/// Elementwise equality of value-shape sequences.
pub open spec fn spec_values_eq(a: Seq<ValueV>, b: Seq<ValueV>) -> bool
    decreases a,
{
    if a.len() != b.len() {
        false
    } else if a.len() == 0 {
        true
    } else {
        spec_value_eq(a.last(), b.last()) && spec_values_eq(a.drop_last(), b.drop_last())
    }
}

/// `spec_values_eq` is length plus elementwise equality.
pub proof fn lemma_values_eq_iff(a: Seq<ValueV>, b: Seq<ValueV>)
    ensures
        spec_values_eq(a, b) <==> (a.len() == b.len() && forall|i: int|
            0 <= i < a.len() ==> spec_value_eq(#[trigger] a[i], b[i])),
    decreases a,
{
    if a.len() == b.len() && a.len() > 0 {
        lemma_values_eq_iff(a.drop_last(), b.drop_last());
        assert forall|i: int| 0 <= i < a.len() - 1 implies a.drop_last()[i] == a[i]
            && b.drop_last()[i] == b[i] by {}
    }
}

/// Compares two values as the evaluator's `==` does.
#[verifier::loop_isolation(false)]
#[verifier::rlimit(60)]
pub fn value_eq(a: &Value, b: &Value) -> (r: bool)
    ensures
        r == spec_value_eq(value_view(*a), value_view(*b)),
    decreases *a, 1int,
{
    match (a, b) {
        (Value::Bool(x), Value::Bool(y)) => x == y,
        (Value::Sym(x), Value::Sym(y)) => x.0 == y.0,
        (Value::Str(x), Value::Str(y)) => crate::sym::bytes_eq(x.as_slice(), y.as_slice()),
        (Value::Int(x), Value::Int(y)) => x == y,
        (Value::Float(x), Value::Float(y)) => crate::sym::bytes_eq(x.as_slice(), y.as_slice()),
        (Value::Tuple(x), Value::Tuple(y)) => {
            if !crate::sym::syms_eq(&x.keys, &y.keys) {
                return false;
            }
            values_eq_slices(a, &x.data, &y.data)
        },
        (Value::List(x), Value::List(y)) => values_eq_slices(a, x, y),
        _ => false,
    }
}

/// Compares two value vectors elementwise; `owner` is the value the
/// vectors descend from, for the termination argument.
#[verifier::loop_isolation(false)]
#[verifier::rlimit(60)]
fn values_eq_slices(owner: &Value, x: &Vec<Value>, y: &Vec<Value>) -> (r: bool)
    requires
        decreases_to!(*owner => x@),
    ensures
        r == spec_values_eq(values_view(x@), values_view(y@)),
    decreases *owner, 0int,
{
    proof {
        lemma_values_view(x@);
        lemma_values_view(y@);
        lemma_values_eq_iff(values_view(x@), values_view(y@));
    }
    if x.len() != y.len() {
        return false;
    }
    let mut i: usize = 0;
    while i < x.len()
        invariant
            i <= x@.len(),
            x@.len() == y@.len(),
            forall|j: int|
                0 <= j < i ==> spec_value_eq(
                    #[trigger] values_view(x@)[j],
                    values_view(y@)[j],
                ),
        decreases x@.len() - i,
    {
        proof {
            assert(decreases_to!(x@ => x@[i as int]));
        }
        if !value_eq(&x[i], &y[i]) {
            proof {
                assert(!spec_value_eq(values_view(x@)[i as int], values_view(y@)[i as int]));
                assert(!spec_values_eq(values_view(x@), values_view(y@)));
            }
            return false;
        }
        i = i + 1;
    }
    true
}

/// Copies a value; the copy has the same shape.
#[verifier::loop_isolation(false)]
#[verifier::rlimit(60)]
pub fn clone_value(v: &Value) -> (r: Value)
    ensures
        value_view(r) == value_view(*v),
    decreases *v,
{
    match v {
        Value::Bool(b) => Value::Bool(*b),
        Value::Sym(s) => Value::Sym(*s),
        Value::Str(s) => Value::Str(crate::sym::slice_to_vec_u8(s.as_slice())),
        Value::Int(x) => Value::Int(*x),
        Value::Float(s) => Value::Float(crate::sym::slice_to_vec_u8(s.as_slice())),
        Value::Tuple(t) => {
            let keys = crate::ast::clone_syms(&t.keys);
            let mut data: Vec<Value> = Vec::new();
            let mut i: usize = 0;
            proof {
                lemma_values_view(t.data@);
            }
            while i < t.data.len()
                invariant
                    i <= t.data@.len(),
                    values_view(data@) =~= values_view(t.data@).take(i as int),
                decreases t.data@.len() - i,
            {
                proof {
                    assert(decreases_to!(*v => t.data@[i as int]));
                }
                let c = clone_value(&t.data[i]);
                let ghost prev = data@;
                data.push(c);
                proof {
                    assert(data@.drop_last() =~= prev);
                    lemma_values_view(t.data@);
                    assert(values_view(data@) =~= values_view(t.data@).take(i + 1));
                }
                i = i + 1;
            }
            proof {
                assert(values_view(t.data@).take(values_view(t.data@).len() as int) =~= values_view(
                    t.data@,
                ));
            }
            Value::Tuple(Tuple { keys, data })
        },
        Value::List(items) => {
            let mut out: Vec<Value> = Vec::new();
            let mut i: usize = 0;
            proof {
                lemma_values_view(items@);
            }
            while i < items.len()
                invariant
                    i <= items@.len(),
                    values_view(out@) =~= values_view(items@).take(i as int),
                decreases items@.len() - i,
            {
                proof {
                    assert(decreases_to!(*v => items@[i as int]));
                }
                let c = clone_value(&items[i]);
                let ghost prev = out@;
                out.push(c);
                proof {
                    assert(out@.drop_last() =~= prev);
                    lemma_values_view(items@);
                    assert(values_view(out@) =~= values_view(items@).take(i + 1));
                }
                i = i + 1;
            }
            proof {
                assert(values_view(items@).take(values_view(items@).len() as int) =~= values_view(
                    items@,
                ));
            }
            Value::List(out)
        },
        Value::Fn(f) => Value::Fn(
            Fn {
                params: crate::ast::clone_pat_tuple(&f.params),
                body: Box::new(crate::ast::clone_expr(&f.body)),
                scope: f.scope,
            },
        ),
    }
}

} // verus!
