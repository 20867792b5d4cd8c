//! Building method signatures from parsed ones.
//!
//! Declared types are converted to type terms, substituting a
//! type-parameter reference wherever a name matches a class or method type
//! parameter; method type parameters shadow class ones.

use vstd::prelude::*;
use crate::ast::AstMethodSignature;
use crate::ast::Param;
use crate::ast::ParamV;
use crate::ast::Typ;
use crate::ast::TypV;
use crate::ast::ast_param_views;
use crate::ast::lemma_typ_views;
use crate::names::ClassFullname;
use crate::names::find_str;
use crate::names::method_fullname;
use crate::names::method_fullname_v;
use crate::names::seq_views;
use crate::names::str_idx_of;
use crate::strmap::DupView;
use crate::sk::MethodParam;
use crate::sk::MethodParamV;
use crate::sk::MethodSignature;
use crate::sk::MethodSignatureV;
use crate::sk::param_views;
use crate::sk::typaram_views;
use crate::ty;
use crate::ty::TermTy;
use crate::ty::TermTyV;
use crate::ty::TyParam;
use crate::ty::TyParamKind;
use crate::ty::lemma_tys_view;
use crate::ty::tys_view;

verus! {

/// `convert_typ` at the level of views.
pub open spec fn convert_typ_v(t: TypV, cls: Seq<Seq<char>>, mth: Seq<Seq<char>>) -> TermTyV
    decreases t,
{
    if str_idx_of(mth, t.name) >= 0 {
        TermTyV::TyParamRef {
            name: t.name,
            kind: TyParamKind::Method,
            idx: str_idx_of(mth, t.name) as nat,
        }
    } else if str_idx_of(cls, t.name) >= 0 {
        TermTyV::TyParamRef {
            name: t.name,
            kind: TyParamKind::Class,
            idx: str_idx_of(cls, t.name) as nat,
        }
    } else if t.args.len() == 0 {
        ty::raw_v(t.name)
    } else {
        ty::spe_v(t.name, convert_typs_v(t.args, cls, mth))
    }
}

pub open spec fn convert_typs_v(s: Seq<TypV>, cls: Seq<Seq<char>>, mth: Seq<Seq<char>>) -> Seq<
    TermTyV,
>
    decreases s,
{
    if s.len() == 0 {
        Seq::empty()
    } else {
        seq![convert_typ_v(s[0], cls, mth)] + convert_typs_v(s.drop_first(), cls, mth)
    }
}

pub proof fn lemma_convert_typs_v(s: Seq<TypV>, cls: Seq<Seq<char>>, mth: Seq<Seq<char>>)
    ensures
        convert_typs_v(s, cls, mth).len() == s.len(),
        forall|i: int| 0 <= i < s.len() ==> convert_typs_v(s, cls, mth)[i] == convert_typ_v(
            s[i],
            cls,
            mth,
        ),
    decreases s,
{
    if s.len() > 0 {
        lemma_convert_typs_v(s.drop_first(), cls, mth);
    }
}

/// The type term a declared type denotes, given the class-level and
/// method-level type parameters in scope.
pub fn convert_typ(t: &Typ, class_typarams: &Vec<String>, method_typarams: &Vec<String>) -> (r:
    TermTy)
    ensures
        r@ == convert_typ_v(t@, seq_views(class_typarams@), seq_views(method_typarams@)),
    decreases *t,
{
    proof {
        lemma_typ_views(t.args@);
    }
    if let Some(i) = find_str(method_typarams, &t.name) {
        return ty::typaram(t.name.as_str(), TyParamKind::Method, i);
    }
    if let Some(i) = find_str(class_typarams, &t.name) {
        return ty::typaram(t.name.as_str(), TyParamKind::Class, i);
    }
    if t.args.len() == 0 {
        ty::raw(t.name.as_str())
    } else {
        let mut args: Vec<TermTy> = Vec::new();
        let n = t.args.len();
        let ghost cls = seq_views(class_typarams@);
        let ghost mth = seq_views(method_typarams@);
        for i in 0..n
            invariant
                n == t.args@.len(),
                cls == seq_views(class_typarams@),
                mth == seq_views(method_typarams@),
                args@.len() == i,
                forall|j: int| 0 <= j < i ==> args@[j]@ == convert_typ_v(t.args@[j]@, cls, mth),
        {
            args.push(convert_typ(&t.args[i], class_typarams, method_typarams));
        }
        proof {
            lemma_tys_view(args@);
            lemma_convert_typs_v(t@.args, cls, mth);
            lemma_typ_views(t.args@);
            assert(tys_view(args@) =~= convert_typs_v(t@.args, cls, mth));
        }
        ty::spe(t.name.as_str(), args)
    }
}

/// `convert_params` at the level of views.
pub open spec fn convert_params_v(s: Seq<ParamV>, cls: Seq<Seq<char>>, mth: Seq<Seq<char>>) -> Seq<
    MethodParamV,
> {
    Seq::new(
        s.len(),
        |i: int| MethodParamV { name: s[i].name, ty: convert_typ_v(s[i].typ, cls, mth) },
    )
}

/// Parsed parameters converted to typed method parameters.
pub fn convert_params(
    params: &Vec<Param>,
    class_typarams: &Vec<String>,
    method_typarams: &Vec<String>,
) -> (r: Vec<MethodParam>)
    ensures
        param_views(r@) == convert_params_v(
            ast_param_views(params@),
            seq_views(class_typarams@),
            seq_views(method_typarams@),
        ),
{
    let mut r: Vec<MethodParam> = Vec::new();
    let n = params.len();
    let ghost cls = seq_views(class_typarams@);
    let ghost mth = seq_views(method_typarams@);
    for i in 0..n
        invariant
            n == params@.len(),
            cls == seq_views(class_typarams@),
            mth == seq_views(method_typarams@),
            r@.len() == i,
            forall|j: int| 0 <= j < i ==> r@[j]@ == (MethodParamV {
                name: params@[j]@.name,
                ty: convert_typ_v(params@[j]@.typ, cls, mth),
            }),
    {
        r.push(
            MethodParam {
                name: params[i].name.clone(),
                ty: convert_typ(&params[i].typ, class_typarams, method_typarams),
            },
        );
    }
    proof {
        assert(param_views(r@) =~= convert_params_v(ast_param_views(params@), cls, mth));
    }
    r
}

/// The position of the first parameter named `name`, or `-1`.
pub open spec fn sp_param_idx(params: Seq<MethodParam>, name: Seq<char>) -> int
    decreases params.len(),
{
    if params.len() == 0 {
        -1
    } else if params[0]@.name == name {
        0
    } else {
        let r = sp_param_idx(params.drop_first(), name);
        if r < 0 {
            -1
        } else {
            r + 1
        }
    }
}

pub proof fn lemma_param_idx_bounds(params: Seq<MethodParam>, name: Seq<char>)
    ensures
        -1 <= sp_param_idx(params, name) < params.len(),
        sp_param_idx(params, name) >= 0 ==> params[sp_param_idx(params, name)]@.name == name,
    decreases params.len(),
{
    if params.len() > 0 && params[0]@.name != name {
        lemma_param_idx_bounds(params.drop_first(), name);
    }
}

proof fn lemma_param_idx_found(params: Seq<MethodParam>, name: Seq<char>, i: int)
    requires
        0 <= i < params.len(),
        forall|j: int| 0 <= j < i ==> (#[trigger] params[j])@.name != name,
        params[i]@.name == name,
    ensures
        sp_param_idx(params, name) == i,
    decreases i,
{
    if i > 0 {
        assert forall|j: int|
            0 <= j < i - 1 implies (#[trigger] params.drop_first()[j])@.name != name by {
            assert(params.drop_first()[j] == params[j + 1]);
        }
        assert(params.drop_first()[i - 1] == params[i]);
        lemma_param_idx_found(params.drop_first(), name, i - 1);
    }
}

proof fn lemma_param_idx_missing(params: Seq<MethodParam>, name: Seq<char>)
    requires
        forall|j: int| 0 <= j < params.len() ==> (#[trigger] params[j])@.name != name,
    ensures
        sp_param_idx(params, name) == -1,
    decreases params.len(),
{
    if params.len() > 0 {
        assert forall|j: int|
            0 <= j < params.drop_first().len() implies (#[trigger] params.drop_first()[j])@.name
            != name by {
            assert(params.drop_first()[j] == params[j + 1]);
        }
        lemma_param_idx_missing(params.drop_first(), name);
    }
}

/// The position of the parameter named `name`, if any.
pub fn find_param(params: &Vec<MethodParam>, name: &String) -> (r: Option<usize>)
    ensures
        match r {
            Some(i) => sp_param_idx(params@, name@) == i as int,
            None => sp_param_idx(params@, name@) == -1,
        },
        match r {
            Some(i) => i < params@.len() && param_views(params@)[i as int].name == name@ && (forall|
                j: int,
            | 0 <= j < i ==> param_views(params@)[j].name != name@),
            None => forall|j: int|
                0 <= j < params@.len() ==> param_views(params@)[j].name != name@,
        },
{
    let n = params.len();
    for i in 0..n
        invariant
            n == params@.len(),
            forall|j: int| 0 <= j < i ==> param_views(params@)[j].name != name@,
    {
        if params[i].name.eq(name) {
            proof {
                assert forall|j: int|
                    0 <= j < i implies (#[trigger] params@[j])@.name != name@ by {
                    assert(param_views(params@)[j].name == params@[j]@.name);
                }
                lemma_param_idx_found(params@, name@, i as int);
            }
            return Some(i);
        }
    }
    proof {
        assert forall|j: int|
            0 <= j < params@.len() implies (#[trigger] params@[j])@.name != name@ by {
            assert(param_views(params@)[j].name == params@[j]@.name);
        }
        lemma_param_idx_missing(params@, name@);
    }
    None
}

/// `create_signature` at the level of views.
pub open spec fn create_signature_v(
    class_fullname: Seq<char>,
    sig: crate::ast::AstMethodSignatureV,
    class_typarams: Seq<Seq<char>>,
) -> MethodSignatureV {
    MethodSignatureV {
        fullname: method_fullname_v(class_fullname, sig.name),
        ret_ty: convert_typ_v(sig.ret_typ, class_typarams, sig.typarams),
        params: convert_params_v(sig.params, class_typarams, sig.typarams),
        typarams: sig.typarams,
    }
}

/// The typed signature of a parsed method of class `class_fullname`.
pub fn create_signature(
    class_fullname: &ClassFullname,
    sig: &AstMethodSignature,
    class_typarams: &Vec<String>,
) -> (r: MethodSignature)
    ensures
        r@ == create_signature_v(class_fullname@, sig@, seq_views(class_typarams@)),
{
    let fullname = method_fullname(class_fullname, sig.name.0.as_str());
    let ret_ty = convert_typ(&sig.ret_typ, class_typarams, &sig.typarams);
    let params = convert_params(&sig.params, class_typarams, &sig.typarams);
    let typarams = typarams_of(&sig.typarams);
    MethodSignature { fullname, ret_ty, params, typarams }
}

/// Type-parameter records named by `names`.
pub fn typarams_of(names: &Vec<String>) -> (r: Vec<TyParam>)
    ensures
        typaram_views(r@) == seq_views(names@),
{
    let mut r: Vec<TyParam> = Vec::new();
    let n = names.len();
    for i in 0..n
        invariant
            n == names@.len(),
            r@.len() == i,
            forall|j: int| 0 <= j < i ==> r@[j]@ == names@[j]@,
    {
        r.push(TyParam { name: names[i].clone() });
    }
    proof {
        assert(typaram_views(r@) =~= seq_views(names@));
    }
    r
}

/// `signature_of_new` at the level of views.
pub open spec fn signature_of_new_v(
    metaclass_fullname: Seq<char>,
    params: Seq<MethodParamV>,
    instance_ty: TermTyV,
) -> MethodSignatureV {
    MethodSignatureV {
        fullname: method_fullname_v(metaclass_fullname, "new"@),
        ret_ty: instance_ty,
        params,
        typarams: Seq::empty(),
    }
}

/// The signature of `.new` on a metaclass: same parameters as
/// `#initialize`, returning the instance type.
pub fn signature_of_new(
    metaclass_fullname: &ClassFullname,
    params: Vec<MethodParam>,
    instance_ty: &TermTy,
) -> (r: MethodSignature)
    ensures
        r@ == signature_of_new_v(metaclass_fullname@, param_views(params@), instance_ty@),
{
    let r = MethodSignature {
        fullname: method_fullname(metaclass_fullname, "new"),
        ret_ty: instance_ty.dup(),
        params,
        typarams: Vec::new(),
    };
    proof {
        assert(typaram_views(r.typarams@) =~= Seq::<Seq<char>>::empty());
    }
    r
}

/// `signature_of_initialize` at the level of views.
pub open spec fn signature_of_initialize_v(
    class_fullname: Seq<char>,
    params: Seq<MethodParamV>,
) -> MethodSignatureV {
    MethodSignatureV {
        fullname: method_fullname_v(class_fullname, "initialize"@),
        ret_ty: ty::raw_v("Void"@),
        params,
        typarams: Seq::empty(),
    }
}

/// The signature of `#initialize`, which returns `Void`.
pub fn signature_of_initialize(class_fullname: &ClassFullname, params: Vec<MethodParam>) -> (r:
    MethodSignature)
    ensures
        r@ == signature_of_initialize_v(class_fullname@, param_views(params@)),
{
    let r = MethodSignature {
        fullname: method_fullname(class_fullname, "initialize"),
        ret_ty: ty::raw("Void"),
        params,
        typarams: Vec::new(),
    };
    proof {
        assert(typaram_views(r.typarams@) =~= Seq::<Seq<char>>::empty());
    }
    r
}

/// A deep copy of the names of a type-parameter list.
pub fn typaram_names(typarams: &Vec<TyParam>) -> (r: Vec<String>)
    ensures
        seq_views(r@) == typaram_views(typarams@),
{
    let mut r: Vec<String> = Vec::new();
    let n = typarams.len();
    for i in 0..n
        invariant
            n == typarams@.len(),
            r@.len() == i,
            forall|j: int| 0 <= j < i ==> r@[j]@ == typarams@[j]@,
    {
        r.push(typarams[i].name.clone());
    }
    proof {
        assert(seq_views(r@) =~= typaram_views(typarams@));
    }
    r
}

} // verus!
