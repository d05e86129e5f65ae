//! Types as the checker sketch knows them.

use vstd::prelude::*;
use crate::tuple::{SpecTuple, Tuple};

verus! {

/// A type of the language.
#[derive(Debug, PartialEq)]
pub enum Ty {
    /// The unknown type.
    Unknown,
    /// The 0-type. `Ty::Void` is uninhabited.
    Void,
    /// The 1-type. `Ty::Nil` is inhabited by the nil value only.
    Nil,
    /// The boolean type.
    Bool,
    /// The symbol type.
    Sym,
    /// The string type.
    Str,
    /// The integer type.
    Int,
    /// The floating point type.
    Float,
    /// The product type. `Ty::Tuple` is inhabited by all tuple values of a
    /// given structure.
    Tuple(Tuple<Ty>),
    /// The sum type. `Ty::Any` is inhabited by the union of all values in
    /// any of its types.
    Any(Vec<Ty>),
}


/// The spec-level shape of a type.
pub enum TyV {
    Unknown,
    Void,
    Nil,
    Bool,
    Sym,
    Str,
    Int,
    Float,
    Tuple(SpecTuple<TyV>),
    Any(Seq<TyV>),
}

/// The shape of a type value.
pub open spec fn ty_view(t: Ty) -> TyV
    decreases t,
{
    match t {
        Ty::Unknown => TyV::Unknown,
        Ty::Void => TyV::Void,
        Ty::Nil => TyV::Nil,
        Ty::Bool => TyV::Bool,
        Ty::Sym => TyV::Sym,
        Ty::Str => TyV::Str,
        Ty::Int => TyV::Int,
        Ty::Float => TyV::Float,
        Ty::Tuple(t) => TyV::Tuple(SpecTuple { keys: t.keys@, data: tys_view(t.data@) }),
        Ty::Any(v) => TyV::Any(tys_view(v@)),
    }
}

/// The shapes of a sequence of types.
pub open spec fn tys_view(v: Seq<Ty>) -> Seq<TyV>
    decreases v,
{
    if v.len() == 0 {
        Seq::empty()
    } else {
        tys_view(v.drop_last()).push(ty_view(v.last()))
    }
}

/// `tys_view` maps the sequence elementwise.
pub proof fn lemma_tys_view(v: Seq<Ty>)
    ensures
        tys_view(v).len() == v.len(),
        forall|i: int| 0 <= i < v.len() ==> #[trigger] tys_view(v)[i] == ty_view(v[i]),
    decreases v,
{
    if v.len() > 0 {
        lemma_tys_view(v.drop_last());
    }
}

} // verus!
