//! Classes as the dictionary records them.
//!
//! An `SkClass` describes one class: its name, type parameters, superclass,
//! instance variables and method signatures.  The companion metaclass is a
//! separate `SkClass` whose name carries the `Meta:` prefix.

use vstd::prelude::*;
use crate::names::ClassFullname;
use crate::names::MethodFullname;
use crate::names::MethodFullnameV;
use crate::strmap::DupView;
use crate::strmap::StrMap;
use crate::superclass::Superclass;
use crate::ty::TermTy;
use crate::ty::TermTyV;
use crate::ty::TyParam;
use crate::ty::meta_ty_v;
use crate::ty::substitute_v;
use crate::ty::tys_view;

verus! {

/// An instance variable: its slot index, name, type, and mutability.
pub struct SkIVar {
    pub idx: usize,
    pub name: String,
    pub ty: TermTy,
    pub readonly: bool,
}

/// View of an instance variable.
pub struct SkIVarV {
    pub idx: nat,
    pub name: Seq<char>,
    pub ty: TermTyV,
    pub readonly: bool,
}

impl View for SkIVar {
    type V = SkIVarV;

    open spec fn view(&self) -> SkIVarV {
        SkIVarV { idx: self.idx as nat, name: self.name@, ty: self.ty@, readonly: self.readonly }
    }
}

impl DupView for SkIVar {
    fn dup(&self) -> (r: Self)
        ensures
            r@ == self@,
    {
        SkIVar {
            idx: self.idx,
            name: self.name.clone(),
            ty: self.ty.dup(),
            readonly: self.readonly,
        }
    }
}

/// The accessor name of an ivar: its name without the leading `@`.
pub open spec fn accessor_name_v(name: Seq<char>) -> Seq<char> {
    if name.len() > 0 && name[0] == '@' {
        name.skip(1)
    } else {
        name
    }
}

impl SkIVar {
    /// The name of the getter for this ivar.
    pub fn accessor_name(&self) -> (r: String)
        ensures
            r@ == accessor_name_v(self@.name),
    {
        let n = self.name.as_str().unicode_len();
        if n > 0 && self.name.as_str().get_char(0) == '@' {
            let rest = self.name.as_str().substring_char(1, n);
            proof {
                assert(self.name@.subrange(1, n as int) =~= self.name@.skip(1));
            }
            String::from_str(rest)
        } else {
            self.name.clone()
        }
    }
}

/// One formal parameter of a method.
pub struct MethodParam {
    pub name: String,
    pub ty: TermTy,
}

/// View of a method parameter.
pub struct MethodParamV {
    pub name: Seq<char>,
    pub ty: TermTyV,
}

impl View for MethodParam {
    type V = MethodParamV;

    open spec fn view(&self) -> MethodParamV {
        MethodParamV { name: self.name@, ty: self.ty@ }
    }
}

impl DupView for MethodParam {
    fn dup(&self) -> (r: Self)
        ensures
            r@ == self@,
    {
        MethodParam { name: self.name.clone(), ty: self.ty.dup() }
    }
}

/// The views of a parameter list.
pub open spec fn param_views(s: Seq<MethodParam>) -> Seq<MethodParamV> {
    Seq::new(s.len(), |i: int| s[i]@)
}

/// A deep copy of a parameter list.
pub fn dup_params(v: &Vec<MethodParam>) -> (r: Vec<MethodParam>)
    ensures
        param_views(r@) == param_views(v@),
{
    let mut r: Vec<MethodParam> = Vec::new();
    let n = v.len();
    for i in 0..n
        invariant
            n == v@.len(),
            r@.len() == i,
            forall|j: int| 0 <= j < i ==> r@[j]@ == v@[j]@,
    {
        r.push(v[i].dup());
    }
    proof {
        assert(param_views(r@) =~= param_views(v@));
    }
    r
}

/// The views of a type-parameter list.
pub open spec fn typaram_views(s: Seq<TyParam>) -> Seq<Seq<char>> {
    Seq::new(s.len(), |i: int| s[i]@)
}

/// A deep copy of a type-parameter list.
pub fn dup_typarams(v: &Vec<TyParam>) -> (r: Vec<TyParam>)
    ensures
        typaram_views(r@) == typaram_views(v@),
{
    let mut r: Vec<TyParam> = Vec::new();
    let n = v.len();
    for i in 0..n
        invariant
            n == v@.len(),
            r@.len() == i,
            forall|j: int| 0 <= j < i ==> r@[j]@ == v@[j]@,
    {
        r.push(v[i].dup());
    }
    proof {
        assert(typaram_views(r@) =~= typaram_views(v@));
    }
    r
}

/// A method signature.
pub struct MethodSignature {
    pub fullname: MethodFullname,
    pub ret_ty: TermTy,
    pub params: Vec<MethodParam>,
    pub typarams: Vec<TyParam>,
}

/// View of a method signature.
pub struct MethodSignatureV {
    pub fullname: MethodFullnameV,
    pub ret_ty: TermTyV,
    pub params: Seq<MethodParamV>,
    pub typarams: Seq<Seq<char>>,
}

impl View for MethodSignature {
    type V = MethodSignatureV;

    open spec fn view(&self) -> MethodSignatureV {
        MethodSignatureV {
            fullname: self.fullname@,
            ret_ty: self.ret_ty@,
            params: param_views(self.params@),
            typarams: typaram_views(self.typarams@),
        }
    }
}

impl DupView for MethodSignature {
    fn dup(&self) -> (r: Self)
        ensures
            r@ == self@,
    {
        let r = MethodSignature {
            fullname: self.fullname.clone(),
            ret_ty: self.ret_ty.dup(),
            params: dup_params(&self.params),
            typarams: dup_typarams(&self.typarams),
        };
        r
    }
}

/// A signature with class-level and method-level type-parameter references
/// replaced by the given type arguments.
pub open spec fn specialize_sig_v(
    sig: MethodSignatureV,
    args: Seq<TermTyV>,
    method_args: Seq<TermTyV>,
) -> MethodSignatureV {
    MethodSignatureV {
        fullname: sig.fullname,
        ret_ty: substitute_v(sig.ret_ty, args, method_args),
        params: Seq::new(
            sig.params.len(),
            |i: int| MethodParamV {
                name: sig.params[i].name,
                ty: substitute_v(sig.params[i].ty, args, method_args),
            },
        ),
        typarams: sig.typarams,
    }
}

impl MethodSignature {
    /// This signature specialized by class-level and method-level type
    /// arguments.
    pub fn specialize(&self, args: &Vec<TermTy>, method_args: &Vec<TermTy>) -> (r: MethodSignature)
        ensures
            r@ == specialize_sig_v(self@, tys_view(args@), tys_view(method_args@)),
    {
        let mut params: Vec<MethodParam> = Vec::new();
        let n = self.params.len();
        let ghost argsv = tys_view(args@);
        let ghost margsv = tys_view(method_args@);
        for i in 0..n
            invariant
                n == self.params@.len(),
                argsv == tys_view(args@),
                margsv == tys_view(method_args@),
                params@.len() == i,
                forall|j: int| 0 <= j < i ==> params@[j]@ == (MethodParamV {
                    name: self.params@[j]@.name,
                    ty: substitute_v(self.params@[j]@.ty, argsv, margsv),
                }),
        {
            params.push(
                MethodParam {
                    name: self.params[i].name.clone(),
                    ty: self.params[i].ty.substitute(args, method_args),
                },
            );
        }
        let r = MethodSignature {
            fullname: self.fullname.clone(),
            ret_ty: self.ret_ty.substitute(args, method_args),
            params,
            typarams: dup_typarams(&self.typarams),
        };
        proof {
            assert(param_views(r.params@) =~= specialize_sig_v(self@, argsv, margsv).params);
        }
        r
    }
}

/// One class in the dictionary.
pub struct SkClass {
    pub fullname: ClassFullname,
    pub typarams: Vec<TyParam>,
    pub superclass: Option<Superclass>,
    pub instance_ty: TermTy,
    pub ivars: StrMap<SkIVar>,
    pub method_sigs: StrMap<MethodSignature>,
    /// True when the bare class name denotes the unique instance rather than
    /// the class object (e.g. a parameterless enum case).
    pub const_is_obj: bool,
    /// True for classes whose methods live outside the compiled program.
    pub foreign: bool,
}

/// View of a class record.
pub struct SkClassV {
    pub fullname: Seq<char>,
    pub typarams: Seq<Seq<char>>,
    pub superclass: Option<TermTyV>,
    pub instance_ty: TermTyV,
    pub ivars: Seq<(Seq<char>, SkIVarV)>,
    pub method_sigs: Seq<(Seq<char>, MethodSignatureV)>,
    pub const_is_obj: bool,
    pub foreign: bool,
}

impl View for SkClass {
    type V = SkClassV;

    open spec fn view(&self) -> SkClassV {
        SkClassV {
            fullname: self.fullname@,
            typarams: typaram_views(self.typarams@),
            superclass: match self.superclass {
                Some(s) => Some(s@),
                None => None,
            },
            instance_ty: self.instance_ty@,
            ivars: self.ivars@,
            method_sigs: self.method_sigs@,
            const_is_obj: self.const_is_obj,
            foreign: self.foreign,
        }
    }
}

impl DupView for SkClass {
    fn dup(&self) -> (r: Self)
        ensures
            r@ == self@,
    {
        SkClass {
            fullname: self.fullname.clone(),
            typarams: dup_typarams(&self.typarams),
            superclass: match &self.superclass {
                Some(s) => Some(s.dup()),
                None => None,
            },
            instance_ty: self.instance_ty.dup(),
            ivars: self.ivars.dup(),
            method_sigs: self.method_sigs.dup(),
            const_is_obj: self.const_is_obj,
            foreign: self.foreign,
        }
    }
}

impl SkClass {
    /// The type of this class's class object.
    pub fn class_ty(&self) -> (r: TermTy)
        ensures
            r@ == meta_ty_v(self@.instance_ty),
    {
        self.instance_ty.meta_ty()
    }
}

} // verus!
