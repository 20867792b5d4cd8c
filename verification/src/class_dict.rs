//! The class dictionary.
//!
//! All classes are kept in one table keyed by fullname; cross references go
//! by name, never by pointer.  Each operation is specified as a function of
//! the table's view, so indexing a program is deterministic by construction.

use vstd::prelude::*;
use crate::names::ClassFullname;
use crate::names::meta_name_seq;
use crate::sk::MethodSignature;
use crate::sk::MethodSignatureV;
use crate::sk::SkClass;
use crate::sk::SkClassV;
use crate::sk::SkIVar;
use crate::sk::SkIVarV;
use crate::strmap::DupView;
use crate::strmap::StrMap;
use crate::strmap::spec_contains;
use crate::strmap::spec_get;
use crate::strmap::spec_insert;
use crate::ty::TermTy;
use crate::ty::TermTyV;
use crate::ty::lemma_tys_view;
use crate::ty::tys_view;

verus! {

/// The view of a whole dictionary.
pub type DictV = Seq<(Seq<char>, SkClassV)>;

/// The view of a method-signature table.
pub type SigsV = Seq<(Seq<char>, MethodSignatureV)>;

/// The view of an instance-variable table.
pub type IVarsV = Seq<(Seq<char>, SkIVarV)>;

/// All the classes of the program under compilation.
pub struct ClassDict {
    pub sk_classes: StrMap<SkClass>,
}

/// `add_method` at the level of views.
pub open spec fn sp_add_method(d: DictV, clsname: Seq<char>, sig: MethodSignatureV) -> DictV {
    match spec_get(d, clsname) {
        Some(c) => spec_insert(
            d,
            clsname,
            SkClassV {
                method_sigs: spec_insert(c.method_sigs, sig.fullname.first_name, sig),
                ..c
            },
        ),
        None => d,
    }
}

/// `define_ivars` at the level of views.
pub open spec fn sp_define_ivars(d: DictV, clsname: Seq<char>, ivars: IVarsV) -> DictV {
    match spec_get(d, clsname) {
        Some(c) => spec_insert(d, clsname, SkClassV { ivars, ..c }),
        None => d,
    }
}

/// The class that declares instances of `t`: the base name of a plain or
/// specialized class type, or the name of a type-parameter reference.
pub open spec fn base_name_of(t: TermTyV) -> Seq<char> {
    match t {
        TermTyV::Raw { base_name } => base_name,
        TermTyV::Spe { base_name, .. } => base_name,
        TermTyV::Meta { base_name } => meta_name_seq(base_name),
        TermTyV::SpeMeta { base_name, .. } => meta_name_seq(base_name),
        TermTyV::TyParamRef { name, .. } => name,
    }
}

/// `is_valid_superclass` at the level of views: a declared class whose type
/// arguments are themselves valid, or a reference to one of the enclosing
/// class's type parameters.
pub open spec fn sp_is_valid_superclass(d: DictV, t: TermTyV, typarams: Seq<Seq<char>>) -> bool
    decreases t,
{
    match t {
        TermTyV::Raw { base_name } => spec_contains(d, base_name),
        TermTyV::Spe { base_name, tyargs } => spec_contains(d, base_name)
            && sp_all_valid_superclasses(d, tyargs, typarams),
        TermTyV::TyParamRef { name, .. } => crate::names::str_idx_of(typarams, name) >= 0,
        _ => false,
    }
}

pub open spec fn sp_all_valid_superclasses(
    d: DictV,
    s: Seq<TermTyV>,
    typarams: Seq<Seq<char>>,
) -> bool
    decreases s,
{
    if s.len() == 0 {
        true
    } else {
        sp_is_valid_superclass(d, s[0], typarams) && sp_all_valid_superclasses(
            d,
            s.drop_first(),
            typarams,
        )
    }
}

pub proof fn lemma_sp_all_valid_superclasses(d: DictV, s: Seq<TermTyV>, typarams: Seq<Seq<char>>)
    ensures
        sp_all_valid_superclasses(d, s, typarams) <==> (forall|i: int|
            0 <= i < s.len() ==> sp_is_valid_superclass(d, s[i], typarams)),
    decreases s,
{
    if s.len() > 0 {
        lemma_sp_all_valid_superclasses(d, s.drop_first(), typarams);
        if sp_is_valid_superclass(d, s[0], typarams) && (forall|i: int|
            0 <= i < s.drop_first().len() ==> sp_is_valid_superclass(
                d,
                s.drop_first()[i],
                typarams,
            )) {
            assert forall|i: int| 0 <= i < s.len() implies sp_is_valid_superclass(
                d,
                s[i],
                typarams,
            ) by {
                if i > 0 {
                    assert(s.drop_first()[i - 1] == s[i]);
                }
            }
        }
        if forall|i: int| 0 <= i < s.len() ==> sp_is_valid_superclass(d, s[i], typarams) {
            assert forall|i: int| 0 <= i < s.drop_first().len() implies sp_is_valid_superclass(
                d,
                s.drop_first()[i],
                typarams,
            ) by {
                assert(s.drop_first()[i] == s[i + 1]);
            }
        }
    }
}

impl ClassDict {
    /// An empty dictionary.
    pub fn new() -> (r: ClassDict)
        ensures
            r.sk_classes@ == Seq::<(Seq<char>, SkClassV)>::empty(),
    {
        ClassDict { sk_classes: StrMap::new() }
    }

    /// Register a class.
    pub fn add_class(&mut self, class: SkClass)
        ensures
            final(self).sk_classes@ == spec_insert(
                old(self).sk_classes@,
                class@.fullname,
                class@,
            ),
    {
        let key = class.fullname.0.clone();
        self.sk_classes.insert(key, class);
    }

    /// Add a method to a registered class; used for auto-defined accessors.
    pub fn add_method(&mut self, clsname: &ClassFullname, sig: MethodSignature)
        requires
            spec_contains(old(self).sk_classes@, clsname@),
        ensures
            final(self).sk_classes@ == sp_add_method(old(self).sk_classes@, clsname@, sig@),
    {
        let cls = self.sk_classes.get(&clsname.0).unwrap();
        let mut cls2 = cls.dup();
        let first = sig.fullname.first_name.0.clone();
        cls2.method_sigs.insert(first, sig);
        self.sk_classes.insert(clsname.0.clone(), cls2);
    }

    /// Replace the instance-variable table of a registered class.
    pub fn define_ivars(&mut self, clsname: &ClassFullname, ivars: StrMap<SkIVar>)
        requires
            spec_contains(old(self).sk_classes@, clsname@),
        ensures
            final(self).sk_classes@ == sp_define_ivars(old(self).sk_classes@, clsname@, ivars@),
    {
        let cls = self.sk_classes.get(&clsname.0).unwrap();
        let mut cls2 = cls.dup();
        cls2.ivars = ivars;
        self.sk_classes.insert(clsname.0.clone(), cls2);
    }

    /// The class of the given fullname, which must be registered.
    pub fn get_class(&self, name: &ClassFullname) -> (r: &SkClass)
        requires
            spec_contains(self.sk_classes@, name@),
        ensures
            spec_get(self.sk_classes@, name@) == Some(r@),
    {
        self.sk_classes.get(&name.0).unwrap()
    }

    /// The class of the given fullname, if registered.
    pub fn lookup_class(&self, name: &String) -> (r: Option<&SkClass>)
        ensures
            match r {
                Some(c) => spec_get(self.sk_classes@, name@) == Some(c@),
                None => spec_get(self.sk_classes@, name@) is None,
            },
    {
        self.sk_classes.get(name)
    }

    /// The named ivar of the named class, if both exist.
    pub fn find_ivar(&self, clsname: &String, ivar_name: &String) -> (r: Option<&SkIVar>)
        ensures
            match r {
                Some(v) => sp_find_ivar(self.sk_classes@, clsname@, ivar_name@) == Some(v@),
                None => sp_find_ivar(self.sk_classes@, clsname@, ivar_name@) is None,
            },
    {
        match self.sk_classes.get(clsname) {
            Some(cls) => cls.ivars.get(ivar_name),
            None => None,
        }
    }

    /// Whether `t` may stand as a superclass for a class with the given
    /// type parameters.
    pub fn is_valid_superclass(&self, t: &TermTy, typaram_names: &Vec<String>) -> (r: bool)
        ensures
            r == sp_is_valid_superclass(
                self.sk_classes@,
                t@,
                crate::names::seq_views(typaram_names@),
            ),
        decreases *t,
    {
        match t {
            TermTy::Raw { base_name } => self.sk_classes.contains_key(base_name),
            TermTy::Spe { base_name, tyargs } => self.sk_classes.contains_key(base_name)
                && self.valid_superclass_args(tyargs, typaram_names),
            TermTy::TyParamRef { name, .. } => crate::names::find_str(
                typaram_names,
                name,
            ).is_some(),
            _ => false,
        }
    }

    /// Whether every type argument is itself a valid superclass part.
    fn valid_superclass_args(&self, tyargs: &Vec<TermTy>, typaram_names: &Vec<String>) -> (r: bool)
        ensures
            r == sp_all_valid_superclasses(
                self.sk_classes@,
                tys_view(tyargs@),
                crate::names::seq_views(typaram_names@),
            ),
        decreases tyargs@,
    {
        let n = tyargs.len();
        let ghost tp = crate::names::seq_views(typaram_names@);
        proof {
            lemma_tys_view(tyargs@);
            lemma_sp_all_valid_superclasses(self.sk_classes@, tys_view(tyargs@), tp);
        }
        for i in 0..n
            invariant
                n == tyargs@.len(),
                tp == crate::names::seq_views(typaram_names@),
                tys_view(tyargs@).len() == n,
                forall|j: int| 0 <= j < n ==> tys_view(tyargs@)[j] == tyargs@[j]@,
                forall|j: int| 0 <= j < i ==> sp_is_valid_superclass(
                    self.sk_classes@,
                    tys_view(tyargs@)[j],
                    tp,
                ),
        {
            if !self.is_valid_superclass(&tyargs[i], typaram_names) {
                proof {
                    lemma_sp_all_valid_superclasses(self.sk_classes@, tys_view(tyargs@), tp);
                    assert(!sp_is_valid_superclass(
                        self.sk_classes@,
                        tys_view(tyargs@)[i as int],
                        tp,
                    ));
                }
                return false;
            }
        }
        proof {
            lemma_sp_all_valid_superclasses(self.sk_classes@, tys_view(tyargs@), tp);
        }
        true
    }
}

/// `find_ivar` at the level of views.
pub open spec fn sp_find_ivar(d: DictV, clsname: Seq<char>, ivar_name: Seq<char>) -> Option<
    SkIVarV,
> {
    match spec_get(d, clsname) {
        Some(c) => spec_get(c.ivars, ivar_name),
        None => None,
    }
}

} // verus!
