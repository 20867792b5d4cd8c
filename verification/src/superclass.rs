//! The superclass slot of a class.
//!
//! A superclass can carry type arguments, e.g. `class Foo<S, T> : Pair<S,
//! Array<T>>`; substituting concrete arguments yields the superclass of a
//! concrete instantiation.

use vstd::prelude::*;
use crate::ast::ConstName;
use crate::ast::const_name_to_ty_v;
use crate::names::ClassFullname;
use crate::names::seq_views;
use crate::strmap::DupView;
use crate::ty;
use crate::ty::TermTy;
use crate::ty::TermTyV;
use crate::ty::substitute_v;
use crate::ty::tys_view;

verus! {

/// A (possibly generic) superclass, carried as the type term it denotes.
pub struct Superclass(TermTy);

impl View for Superclass {
    type V = TermTyV;

    closed spec fn view(&self) -> TermTyV {
        self.0@
    }
}

impl DupView for Superclass {
    fn dup(&self) -> (r: Self)
        ensures
            r@ == self@,
    {
        Superclass(self.0.dup())
    }
}

impl Superclass {
    /// A (possibly generic) superclass named by `base_name`.
    pub fn new(base_name: &ClassFullname, tyargs: Vec<TermTy>) -> (r: Superclass)
        ensures
            r@ == if tyargs@.len() == 0 {
                ty::raw_v(base_name@)
            } else {
                ty::spe_v(base_name@, tys_view(tyargs@))
            },
    {
        proof {
            ty::lemma_tys_view(tyargs@);
        }
        if tyargs.len() == 0 {
            Superclass(ty::raw(base_name.0.as_str()))
        } else {
            Superclass(ty::spe(base_name.0.as_str(), tyargs))
        }
    }

    /// Shortcut from a plain class name.
    pub fn simple(s: &str) -> (r: Superclass)
        ensures
            r@ == ty::raw_v(s@),
    {
        Superclass(ty::raw(s))
    }

    /// The superclass used when none is declared: `Object`.
    pub fn default() -> (r: Superclass)
        ensures
            r@ == ty::raw_v("Object"@),
    {
        Superclass(ty::raw("Object"))
    }

    /// The superclass denoted by a constant name in a class header.
    pub fn from_const_name(name: &ConstName, typarams: &Vec<String>) -> (r: Superclass)
        ensures
            r@ == const_name_to_ty_v(name@, seq_views(typarams@)),
    {
        Superclass(name.to_ty(typarams))
    }

    /// The type term this superclass denotes.
    pub fn ty(&self) -> (r: &TermTy)
        ensures
            r@ == self@,
    {
        &self.0
    }

    /// The concrete superclass of a generic subclass instantiated with
    /// `tyargs`.
    pub fn substitute(&self, tyargs: &Vec<TermTy>) -> (r: Superclass)
        ensures
            r@ == substitute_v(self@, tys_view(tyargs@), Seq::empty()),
    {
        let no_method_args: Vec<TermTy> = Vec::new();
        proof {
            assert(tys_view(no_method_args@) =~= Seq::<TermTyV>::empty());
        }
        Superclass(self.0.substitute(tyargs, &no_method_args))
    }
}

} // verus!
