//! Two-pass indexing of definitions into the class dictionary.
//!
//! Every operation here is specified as a pure function (`sp_*`) of the
//! dictionary's view, and each executable function is proved to compute
//! exactly that function: indexing the same definitions twice yields
//! identical dictionaries.

use vstd::prelude::*;
use crate::ast::ConstName;
use crate::ast::Definition;
use crate::ast::EnumCase;
use crate::ast::Param;
use crate::ast::ast_param_views;
use crate::ast::const_name_to_ty_v;
use crate::ast::dseq;
use crate::ast::dsize;
use crate::ast::lemma_dseq_elem;
use crate::class_dict::ClassDict;
use crate::class_dict::DictV;
use crate::class_dict::IVarsV;
use crate::class_dict::SigsV;
use crate::class_dict::base_name_of;
use crate::class_dict::sp_define_ivars;
use crate::class_dict::sp_is_valid_superclass;
use crate::error::Error;
use crate::error::ErrorKind;
use crate::error::bug;
use crate::error::msg3;
use crate::error::name_error;
use crate::error::syntax_error;
use crate::names::ClassFirstname;
use crate::names::ClassFullname;
use crate::names::Namespace;
use crate::names::meta_name_seq;
use crate::names::namespaced_name;
use crate::names::path_sep;
use crate::names::seq_views;
use crate::sk::MethodParam;
use crate::sk::MethodParamV;
use crate::sk::MethodSignature;
use crate::sk::MethodSignatureV;
use crate::sk::SkClass;
use crate::sk::SkClassV;
use crate::sk::SkIVar;
use crate::sk::SkIVarV;
use crate::sk::accessor_name_v;
use crate::sk::dup_params;
use crate::sk::param_views;
use crate::sk::typaram_views;
use crate::signature;
use crate::signature::convert_params_v;
use crate::signature::create_signature_v;
use crate::signature::signature_of_initialize_v;
use crate::signature::signature_of_new_v;
use crate::strmap::DupView;
use crate::strmap::StrMap;
use crate::strmap::lemma_get_insert;
use crate::strmap::spec_contains;
use crate::strmap::spec_extend;
use crate::strmap::spec_get;
use crate::strmap::spec_insert;
use crate::superclass::Superclass;
use crate::ty;
use crate::ty::TermTy;
use crate::ty::TermTyV;
use crate::ty::TyParamKind;
use crate::ty::raw_v;
use crate::ty::meta_v;
use crate::ty::return_type_of_new_v;
use crate::ty::typaram_refs_v;

verus! {

/// The parameters of `.new`: those of the `initialize` defined among
/// `defs`, or the superclass's `new` parameters when none is.
pub open spec fn sp_initializer_params(
    d: DictV,
    cls_typarams: Seq<Seq<char>>,
    superclass: TermTyV,
    defs: Seq<Definition>,
) -> Seq<MethodParamV>
    decreases defs.len(),
{
    if defs.len() == 0 {
        sp_new_params_of_superclass(d, superclass)
    } else {
        match defs[0] {
            Definition::InstanceMethodDefinition { sig, .. } => {
                if sig.name@ == "initialize"@ {
                    convert_params_v(
                        ast_param_views(sig.params@),
                        cls_typarams,
                        seq_views(sig.typarams@),
                    )
                } else {
                    sp_initializer_params(d, cls_typarams, superclass, defs.drop_first())
                }
            },
            _ => sp_initializer_params(d, cls_typarams, superclass, defs.drop_first()),
        }
    }
}

/// The parameters of `new` on the metaclass of `superclass`'s base class.
pub open spec fn sp_new_params_of_superclass(d: DictV, superclass: TermTyV) -> Seq<MethodParamV> {
    match spec_get(d, meta_name_seq(base_name_of(superclass))) {
        Some(meta) => match spec_get(meta.method_sigs, "new"@) {
            Some(sig) => sig.params,
            None => Seq::empty(),
        },
        None => Seq::empty(),
    }
}

/// `add_new_class` at the level of views: registers the class and its
/// companion metaclass (a subclass of `Class` whose ivars are `Class`'s).
pub open spec fn sp_add_new_class(
    d: DictV,
    fullname: Seq<char>,
    typaram_names: Seq<Seq<char>>,
    superclass: TermTyV,
    new_sig: Option<MethodSignatureV>,
    instance_methods: SigsV,
    class_methods: SigsV,
    const_is_obj: bool,
) -> Result<DictV, ErrorKind> {
    let class_methods2 = match new_sig {
        Some(sig) => spec_insert(class_methods, sig.fullname.first_name, sig),
        None => class_methods,
    };
    if !sp_is_valid_superclass(d, superclass, typaram_names) {
        Err(ErrorKind::NameError)
    } else {
        match spec_get(d, "Class"@) {
            None => Err(ErrorKind::Bug),
            Some(the_class) => {
                let d1 = spec_insert(
                    d,
                    fullname,
                    SkClassV {
                        fullname,
                        typarams: typaram_names,
                        superclass: Some(superclass),
                        instance_ty: raw_v(fullname),
                        ivars: Seq::empty(),
                        method_sigs: instance_methods,
                        const_is_obj,
                        foreign: false,
                    },
                );
                let d2 = spec_insert(
                    d1,
                    meta_name_seq(fullname),
                    SkClassV {
                        fullname: meta_name_seq(fullname),
                        typarams: typaram_names,
                        superclass: Some(raw_v("Class"@)),
                        instance_ty: meta_v(fullname),
                        ivars: the_class.ivars,
                        method_sigs: class_methods2,
                        const_is_obj: false,
                        foreign: false,
                    },
                );
                Ok(d2)
            },
        }
    }
}

/// The ivars of an enum case: one per parameter, in declaration order, all
/// readonly.
pub open spec fn sp_enum_case_ivars(typarams: Seq<Seq<char>>, params: Seq<Param>) -> Seq<SkIVarV> {
    Seq::new(
        params.len(),
        |i: int| SkIVarV {
            idx: i as nat,
            name: params[i]@.name,
            ty: crate::signature::convert_typ_v(params[i]@.typ, typarams, Seq::empty()),
            readonly: true,
        },
    )
}

/// An ivar table from a list of ivars, keyed by name.
pub open spec fn sp_ivars_map(acc: IVarsV, ivars: Seq<SkIVarV>) -> IVarsV
    decreases ivars.len(),
{
    if ivars.len() == 0 {
        acc
    } else {
        sp_ivars_map(spec_insert(acc, ivars[0].name, ivars[0]), ivars.drop_first())
    }
}

/// The superclass of an enum case: the enum itself, instantiated with the
/// enum's own type parameters, or with `Never` for a parameterless case.
pub open spec fn sp_enum_case_superclass(
    enum_fullname: Seq<char>,
    typarams: Seq<Seq<char>>,
    parameterless: bool,
) -> TermTyV {
    if typarams.len() == 0 {
        raw_v(enum_fullname)
    } else if parameterless {
        ty::spe_v(enum_fullname, Seq::new(typarams.len(), |i: int| raw_v("Never"@)))
    } else {
        ty::spe_v(enum_fullname, typaram_refs_v(typarams))
    }
}

/// The `.new` and `#initialize` signatures of an enum case.
pub open spec fn sp_enum_case_new_sig(
    typarams: Seq<Seq<char>>,
    fullname: Seq<char>,
    params: Seq<Param>,
) -> (MethodSignatureV, MethodSignatureV) {
    let hir_params = convert_params_v(ast_param_views(params), typarams, Seq::empty());
    let ret_ty = if params.len() == 0 {
        raw_v(fullname)
    } else if typarams.len() == 0 {
        raw_v(fullname)
    } else {
        ty::spe_v(fullname, typaram_refs_v(typarams))
    };
    (
        signature_of_new_v(meta_name_seq(fullname), hir_params, ret_ty),
        signature_of_initialize_v(fullname, hir_params),
    )
}

/// One getter per ivar: same name, same type, no parameters.
pub open spec fn sp_enum_case_getters(
    acc: SigsV,
    case_fullname: Seq<char>,
    ivars: Seq<SkIVarV>,
) -> SigsV
    decreases ivars.len(),
{
    if ivars.len() == 0 {
        acc
    } else {
        sp_enum_case_getters(
            spec_insert(
                acc,
                ivars[0].name,
                MethodSignatureV {
                    fullname: crate::names::method_fullname_v(
                        case_fullname,
                        accessor_name_v(ivars[0].name),
                    ),
                    ret_ty: ivars[0].ty,
                    params: Seq::empty(),
                    typarams: Seq::empty(),
                },
            ),
            case_fullname,
            ivars.drop_first(),
        )
    }
}

/// `index_enum_case` at the level of views.
pub open spec fn sp_index_enum_case(
    d: DictV,
    enum_fullname: Seq<char>,
    typarams: Seq<Seq<char>>,
    case: EnumCase,
) -> Result<DictV, ErrorKind> {
    let ivar_list = sp_enum_case_ivars(typarams, case.params@);
    let fullname = enum_fullname + path_sep() + case.name@;
    let superclass = sp_enum_case_superclass(enum_fullname, typarams, case.params@.len() == 0);
    let sigs = sp_enum_case_new_sig(typarams, fullname, case.params@);
    let instance_methods = spec_insert(
        sp_enum_case_getters(Seq::empty(), fullname, ivar_list),
        "initialize"@,
        sigs.1,
    );
    match sp_add_new_class(
        d,
        fullname,
        typarams,
        superclass,
        Some(sigs.0),
        instance_methods,
        Seq::empty(),
        case.params@.len() == 0,
    ) {
        Err(k) => Err(k),
        Ok(d1) => Ok(sp_define_ivars(d1, fullname, sp_ivars_map(Seq::empty(), ivar_list))),
    }
}

/// The cases of an enum, indexed in order.
pub open spec fn sp_index_enum_cases(
    d: DictV,
    enum_fullname: Seq<char>,
    typarams: Seq<Seq<char>>,
    cases: Seq<EnumCase>,
) -> Result<DictV, ErrorKind>
    decreases cases.len(),
{
    if cases.len() == 0 {
        Ok(d)
    } else {
        match sp_index_enum_case(d, enum_fullname, typarams, cases[0]) {
            Err(k) => Err(k),
            Ok(d1) => sp_index_enum_cases(d1, enum_fullname, typarams, cases.drop_first()),
        }
    }
}

/// `index_enum` at the level of views: the enum class itself (a plain
/// subclass of `Object`, not instantiable), then each case.
pub open spec fn sp_index_enum(
    d: DictV,
    ns: Seq<Seq<char>>,
    firstname: Seq<char>,
    typarams: Seq<Seq<char>>,
    cases: Seq<EnumCase>,
) -> Result<DictV, ErrorKind> {
    let fullname = namespaced_name(ns, firstname);
    match sp_add_new_class(
        d,
        fullname,
        typarams,
        raw_v("Object"@),
        None,
        Seq::empty(),
        Seq::empty(),
        false,
    ) {
        Err(k) => Err(k),
        Ok(d1) => sp_index_enum_cases(d1, fullname, typarams, cases),
    }
}

/// `index_class` at the level of views.
pub open spec fn sp_index_class(
    d: DictV,
    ns: Seq<Seq<char>>,
    firstname: Seq<char>,
    typarams: Seq<Seq<char>>,
    ast_superclass: Option<ConstName>,
    defs: Seq<Definition>,
) -> Result<DictV, ErrorKind>
    decreases dseq(defs), 1int,
{
    let fullname = namespaced_name(ns, firstname);
    let metaclass_fullname = meta_name_seq(fullname);
    let superclass = match ast_superclass {
        Some(n) => const_name_to_ty_v(n@, typarams),
        None => raw_v("Object"@),
    };
    let new_sig = signature_of_new_v(
        metaclass_fullname,
        sp_initializer_params(d, typarams, superclass, defs),
        return_type_of_new_v(fullname, typarams),
    );
    let inner_ns = ns.push(firstname);
    match sp_index_defs_in_class(d, inner_ns, fullname, typarams, defs, Seq::empty(), Seq::empty()) {
        Err(k) => Err(k),
        Ok((d2, instance_methods, class_methods)) => {
            if spec_contains(d2, fullname) {
                let c = spec_get(d2, fullname).unwrap();
                let d3 = spec_insert(
                    d2,
                    fullname,
                    SkClassV { method_sigs: spec_extend(c.method_sigs, instance_methods), ..c },
                );
                match spec_get(d3, metaclass_fullname) {
                    None => Err(ErrorKind::Bug),
                    Some(m) => {
                        let sigs2 = spec_extend(m.method_sigs, class_methods);
                        let sigs3 = if spec_contains(sigs2, "new"@) {
                            sigs2
                        } else {
                            spec_insert(sigs2, "new"@, new_sig)
                        };
                        Ok(
                            spec_insert(
                                d3,
                                metaclass_fullname,
                                SkClassV { method_sigs: sigs3, ..m },
                            ),
                        )
                    },
                }
            } else {
                sp_add_new_class(
                    d2,
                    fullname,
                    typarams,
                    superclass,
                    Some(new_sig),
                    instance_methods,
                    class_methods,
                    false,
                )
            }
        },
    }
}

/// The definitions inside a class body: method signatures are collected,
/// nested classes and enums are indexed as they are met.
pub open spec fn sp_index_defs_in_class(
    d: DictV,
    ns: Seq<Seq<char>>,
    fullname: Seq<char>,
    typarams: Seq<Seq<char>>,
    defs: Seq<Definition>,
    instance_acc: SigsV,
    class_acc: SigsV,
) -> Result<(DictV, SigsV, SigsV), ErrorKind>
    decreases dseq(defs), 0int,
    via sp_index_defs_in_class_dec
{
    if defs.len() == 0 {
        Ok((d, instance_acc, class_acc))
    } else {
        match defs[0] {
            Definition::InstanceMethodDefinition { sig, .. } => sp_index_defs_in_class(
                d,
                ns,
                fullname,
                typarams,
                defs.drop_first(),
                spec_insert(instance_acc, sig@.name, create_signature_v(fullname, sig@, typarams)),
                class_acc,
            ),
            Definition::ClassMethodDefinition { sig, .. } => sp_index_defs_in_class(
                d,
                ns,
                fullname,
                typarams,
                defs.drop_first(),
                instance_acc,
                spec_insert(
                    class_acc,
                    sig@.name,
                    create_signature_v(meta_name_seq(fullname), sig@, Seq::empty()),
                ),
            ),
            Definition::ConstDefinition { .. } => sp_index_defs_in_class(
                d,
                ns,
                fullname,
                typarams,
                defs.drop_first(),
                instance_acc,
                class_acc,
            ),
            Definition::ClassDefinition { name, typarams: tp2, superclass, defs: defs2 } => {
                match sp_index_class(d, ns, name@, seq_views(tp2@), superclass, defs2@) {
                    Err(k) => Err(k),
                    Ok(d2) => sp_index_defs_in_class(
                        d2,
                        ns,
                        fullname,
                        typarams,
                        defs.drop_first(),
                        instance_acc,
                        class_acc,
                    ),
                }
            },
            Definition::EnumDefinition { name, typarams: tp2, cases } => {
                match sp_index_enum(d, ns, name@, seq_views(tp2@), cases@) {
                    Err(k) => Err(k),
                    Ok(d2) => sp_index_defs_in_class(
                        d2,
                        ns,
                        fullname,
                        typarams,
                        defs.drop_first(),
                        instance_acc,
                        class_acc,
                    ),
                }
            },
        }
    }
}

#[via_fn]
proof fn sp_index_defs_in_class_dec(
    d: DictV,
    ns: Seq<Seq<char>>,
    fullname: Seq<char>,
    typarams: Seq<Seq<char>>,
    defs: Seq<Definition>,
    instance_acc: SigsV,
    class_acc: SigsV,
) {
    if defs.len() > 0 {
        lemma_dseq_elem(defs, 0);
    }
}

/// Processing one more definition at the end of the list continues from
/// the state the prefix produced.
pub proof fn lemma_sp_index_program_snoc(d: DictV, s: Seq<Definition>, x: Definition)
    ensures
        sp_index_program(d, s.push(x)) == (match sp_index_program(d, s) {
            Ok(dd) => sp_index_def(dd, x),
            Err(k) => Err(k),
        }),
    decreases s.len(),
{
    if s.len() == 0 {
        assert(s.push(x)[0] == x);
        assert(s.push(x).drop_first() =~= Seq::<Definition>::empty());
        match sp_index_def(d, x) {
            Ok(d2) => {
                assert(sp_index_program(d2, Seq::<Definition>::empty()) == Ok::<
                    DictV,
                    ErrorKind,
                >(d2));
            },
            Err(_) => {},
        }
    } else {
        assert(s.push(x)[0] == s[0]);
        assert(s.push(x).drop_first() =~= s.drop_first().push(x));
        match sp_index_def(d, s[0]) {
            Ok(dd) => {
                lemma_sp_index_program_snoc(dd, s.drop_first(), x);
            },
            Err(_) => {},
        }
    }
}

/// One toplevel definition: a class, an enum, or a constant; anything else
/// cannot stand at the toplevel.
pub open spec fn sp_index_def(d: DictV, def: Definition) -> Result<DictV, ErrorKind>
    decreases dsize(def), 2int,
{
    match def {
        Definition::ClassDefinition { name, typarams, superclass, defs } => sp_index_class(
            d,
            Seq::empty(),
            name@,
            seq_views(typarams@),
            superclass,
            defs@,
        ),
        Definition::EnumDefinition { name, typarams, cases } => sp_index_enum(
            d,
            Seq::empty(),
            name@,
            seq_views(typarams@),
            cases@,
        ),
        Definition::ConstDefinition { .. } => Ok(d),
        _ => Err(ErrorKind::SyntaxError),
    }
}

/// `index_program` at the level of views.
pub open spec fn sp_index_program(d: DictV, defs: Seq<Definition>) -> Result<DictV, ErrorKind>
    decreases dseq(defs), 3int,
    via sp_index_program_dec
{
    if defs.len() == 0 {
        Ok(d)
    } else {
        match sp_index_def(d, defs[0]) {
            Err(k) => Err(k),
            Ok(d2) => sp_index_program(d2, defs.drop_first()),
        }
    }
}

#[via_fn]
proof fn sp_index_program_dec(d: DictV, defs: Seq<Definition>) {
    if defs.len() > 0 {
        lemma_dseq_elem(defs, 0);
    }
}

} // verus!

verus! {

/// The views of a list of ivars.
pub open spec fn ivar_views(s: Seq<SkIVar>) -> Seq<SkIVarV> {
    Seq::new(s.len(), |i: int| s[i]@)
}

/// List up the ivars of an enum case.
pub fn enum_case_ivars(typarams: &Vec<String>, case: &EnumCase) -> (r: Vec<SkIVar>)
    ensures
        ivar_views(r@) == sp_enum_case_ivars(seq_views(typarams@), case.params@),
{
    let no_method_typarams: Vec<String> = Vec::new();
    let mut r: Vec<SkIVar> = Vec::new();
    let n = case.params.len();
    let ghost tp = seq_views(typarams@);
    proof {
        assert(seq_views(no_method_typarams@) =~= Seq::<Seq<char>>::empty());
    }
    for i in 0..n
        invariant
            n == case.params@.len(),
            tp == seq_views(typarams@),
            seq_views(no_method_typarams@) == Seq::<Seq<char>>::empty(),
            r@.len() == i,
            forall|j: int| 0 <= j < i ==> r@[j]@ == (SkIVarV {
                idx: j as nat,
                name: case.params@[j]@.name,
                ty: crate::signature::convert_typ_v(case.params@[j]@.typ, tp, Seq::empty()),
                readonly: true,
            }),
    {
        let ivar = SkIVar {
            idx: i,
            name: case.params[i].name.clone(),
            ty: crate::signature::convert_typ(&case.params[i].typ, typarams, &no_method_typarams),
            readonly: true,
        };
        r.push(ivar);
    }
    proof {
        assert(ivar_views(r@) =~= sp_enum_case_ivars(tp, case.params@));
    }
    r
}

/// The superclass of an enum case.
pub fn enum_case_superclass(
    enum_fullname: &ClassFullname,
    typarams: &Vec<String>,
    case: &EnumCase,
) -> (r: Superclass)
    ensures
        r@ == sp_enum_case_superclass(
            enum_fullname@,
            seq_views(typarams@),
            case.params@.len() == 0,
        ),
{
    let n = typarams.len();
    let mut tyargs: Vec<TermTy> = Vec::new();
    if case.params.len() == 0 {
        for i in 0..n
            invariant
                n == typarams@.len(),
                tyargs@.len() == i,
                forall|j: int| 0 <= j < i ==> tyargs@[j]@ == raw_v("Never"@),
        {
            tyargs.push(ty::raw("Never"));
        }
        proof {
            ty::lemma_tys_view(tyargs@);
            assert(ty::tys_view(tyargs@) =~= Seq::new(
                seq_views(typarams@).len(),
                |i: int| raw_v("Never"@),
            ));
        }
    } else {
        for i in 0..n
            invariant
                n == typarams@.len(),
                tyargs@.len() == i,
                forall|j: int| 0 <= j < i ==> tyargs@[j]@ == (TermTyV::TyParamRef {
                    name: typarams@[j]@,
                    kind: TyParamKind::Class,
                    idx: j as nat,
                }),
        {
            tyargs.push(ty::typaram(typarams[i].as_str(), TyParamKind::Class, i));
        }
        proof {
            ty::lemma_tys_view(tyargs@);
            assert(ty::tys_view(tyargs@) =~= typaram_refs_v(seq_views(typarams@)));
        }
    }
    Superclass::new(enum_fullname, tyargs)
}

/// The `.new` and `#initialize` signatures of an enum case.
pub fn enum_case_new_sig(
    typarams: &Vec<String>,
    fullname: &ClassFullname,
    case: &EnumCase,
) -> (r: (MethodSignature, MethodSignature))
    ensures
        r.0@ == sp_enum_case_new_sig(seq_views(typarams@), fullname@, case.params@).0,
        r.1@ == sp_enum_case_new_sig(seq_views(typarams@), fullname@, case.params@).1,
{
    let no_method_typarams: Vec<String> = Vec::new();
    proof {
        assert(seq_views(no_method_typarams@) =~= Seq::<Seq<char>>::empty());
    }
    let params = crate::signature::convert_params(&case.params, typarams, &no_method_typarams);
    let ret_ty = if case.params.len() == 0 {
        ty::raw(fullname.0.as_str())
    } else {
        ty::return_type_of_new(fullname, typarams)
    };
    let new_sig = signature::signature_of_new(&fullname.meta_name(), dup_params(&params), &ret_ty);
    let init_sig = signature::signature_of_initialize(fullname, params);
    (new_sig, init_sig)
}

/// Create the getter signatures of an enum case.
pub fn enum_case_getters(case_fullname: &ClassFullname, ivars: &Vec<SkIVar>) -> (r: StrMap<
    MethodSignature,
>)
    ensures
        r@ == sp_enum_case_getters(Seq::empty(), case_fullname@, ivar_views(ivars@)),
{
    let mut r: StrMap<MethodSignature> = StrMap::new();
    let n = ivars.len();
    let ghost all = ivar_views(ivars@);
    proof {
        assert(all.skip(0) =~= all);
    }
    for i in 0..n
        invariant
            n == ivars@.len(),
            all == ivar_views(ivars@),
            all.len() == n,
            forall|j: int| 0 <= j < n ==> all[j] == ivars@[j]@,
            sp_enum_case_getters(Seq::empty(), case_fullname@, all) == sp_enum_case_getters(
                r@,
                case_fullname@,
                all.skip(i as int),
            ),
    {
        let sig = MethodSignature {
            fullname: crate::names::method_fullname(
                case_fullname,
                ivars[i].accessor_name().as_str(),
            ),
            ret_ty: ivars[i].ty.dup(),
            params: Vec::new(),
            typarams: Vec::new(),
        };
        proof {
            assert(param_views(sig.params@) =~= Seq::<MethodParamV>::empty());
            assert(typaram_views(sig.typarams@) =~= Seq::<Seq<char>>::empty());
        }
        r.insert(ivars[i].name.clone(), sig);
        proof {
            assert(all.skip(i as int).drop_first() =~= all.skip(i + 1));
        }
    }
    proof {
        assert(all.skip(n as int) =~= Seq::<SkIVarV>::empty());
    }
    r
}

/// The base class name of a type term, as a string.
fn base_name_string(t: &TermTy) -> (r: String)
    ensures
        r@ == base_name_of(t@),
{
    match t {
        TermTy::Raw { base_name } => base_name.clone(),
        TermTy::Spe { base_name, .. } => base_name.clone(),
        TermTy::Meta { base_name } => {
            let mut s = String::from_str("Meta:");
            s.append(base_name.as_str());
            s
        },
        TermTy::SpeMeta { base_name, .. } => {
            let mut s = String::from_str("Meta:");
            s.append(base_name.as_str());
            s
        },
        TermTy::TyParamRef { name, .. } => name.clone(),
    }
}

impl ClassDict {
    /// The parameters that `.new` of the class being indexed must take.
    fn initializer_params(
        &self,
        typarams: &Vec<String>,
        superclass: &Superclass,
        defs: &Vec<Definition>,
    ) -> (r: Vec<MethodParam>)
        ensures
            param_views(r@) == sp_initializer_params(
                self.sk_classes@,
                seq_views(typarams@),
                superclass@,
                defs@,
            ),
    {
        let n = defs.len();
        let ghost tp = seq_views(typarams@);
        let initialize_name = String::from_str("initialize");
        proof {
            assert(defs@.skip(0) =~= defs@);
        }
        for i in 0..n
            invariant
                n == defs@.len(),
                tp == seq_views(typarams@),
                initialize_name@ == "initialize"@,
                sp_initializer_params(self.sk_classes@, tp, superclass@, defs@)
                    == sp_initializer_params(
                    self.sk_classes@,
                    tp,
                    superclass@,
                    defs@.skip(i as int),
                ),
        {
            proof {
                assert(defs@.skip(i as int)[0] == defs@[i as int]);
                assert(defs@.skip(i as int).drop_first() =~= defs@.skip(i + 1));
            }
            if let Definition::InstanceMethodDefinition { sig, .. } = &defs[i] {
                if sig.name.0.eq(&initialize_name) {
                    return crate::signature::convert_params(&sig.params, typarams, &sig.typarams);
                }
            }
        }
        proof {
            assert(defs@.skip(n as int) =~= Seq::<Definition>::empty());
        }
        let base = base_name_string(superclass.ty());
        let mut meta_key = String::from_str("Meta:");
        meta_key.append(base.as_str());
        let new_name = String::from_str("new");
        match self.sk_classes.get(&meta_key) {
            Some(meta_cls) => match meta_cls.method_sigs.get(&new_name) {
                Some(sig) => dup_params(&sig.params),
                None => {
                    let r: Vec<MethodParam> = Vec::new();
                    proof {
                        assert(param_views(r@) =~= Seq::<MethodParamV>::empty());
                    }
                    r
                },
            },
            None => {
                let r: Vec<MethodParam> = Vec::new();
                proof {
                    assert(param_views(r@) =~= Seq::<MethodParamV>::empty());
                }
                r
            },
        }
    }

    /// Register a class and its companion metaclass.
    fn add_new_class(
        &mut self,
        fullname: &ClassFullname,
        typaram_names: &Vec<String>,
        superclass: Superclass,
        new_sig: Option<MethodSignature>,
        instance_methods: StrMap<MethodSignature>,
        class_methods: StrMap<MethodSignature>,
        const_is_obj: bool,
    ) -> (r: Result<(), Error>)
        ensures
            match sp_add_new_class(
                old(self).sk_classes@,
                fullname@,
                seq_views(typaram_names@),
                superclass@,
                match new_sig {
                    Some(s) => Some(s@),
                    None => None,
                },
                instance_methods@,
                class_methods@,
                const_is_obj,
            ) {
                Ok(d) => r is Ok && final(self).sk_classes@ == d,
                Err(k) => r matches Err(e) && e@.kind == k,
            },
            r is Err ==> final(self).sk_classes@ == old(self).sk_classes@,
    {
        let mut class_methods2 = class_methods;
        if let Some(sig) = new_sig {
            let key = sig.fullname.first_name.0.clone();
            class_methods2.insert(key, sig);
        }
        if !self.is_valid_superclass(superclass.ty(), typaram_names) {
            return Err(
                name_error(msg3("superclass of `", fullname.0.as_str(), "' does not exist")),
            );
        }
        let the_class_key = String::from_str("Class");
        let meta_ivars = match self.sk_classes.get(&the_class_key) {
            Some(c) => c.ivars.dup(),
            None => {
                return Err(bug(String::from_str("the class `Class' is not indexed")));
            },
        };
        let class1 = SkClass {
            fullname: fullname.clone(),
            typarams: signature::typarams_of(typaram_names),
            superclass: Some(superclass),
            instance_ty: ty::raw(fullname.0.as_str()),
            ivars: StrMap::new(),
            method_sigs: instance_methods,
            const_is_obj,
            foreign: false,
        };
        self.add_class(class1);
        let metaclass_fullname = fullname.meta_name();
        let class2 = SkClass {
            fullname: metaclass_fullname,
            typarams: signature::typarams_of(typaram_names),
            superclass: Some(Superclass::simple("Class")),
            instance_ty: ty::meta(fullname.0.as_str()),
            ivars: meta_ivars,
            method_sigs: class_methods2,
            const_is_obj: false,
            foreign: false,
        };
        self.add_class(class2);
        Ok(())
    }

    /// Index one enum case.
    fn index_enum_case(
        &mut self,
        enum_fullname: &ClassFullname,
        typarams: &Vec<String>,
        case: &EnumCase,
    ) -> (r: Result<(), Error>)
        ensures
            match sp_index_enum_case(
                old(self).sk_classes@,
                enum_fullname@,
                seq_views(typarams@),
                *case,
            ) {
                Ok(d) => r is Ok && final(self).sk_classes@ == d,
                Err(k) => r matches Err(e) && e@.kind == k,
            },
    {
        let ivar_list = enum_case_ivars(typarams, case);
        let mut name = enum_fullname.0.clone();
        name.append("::");
        name.append(case.name.0.as_str());
        let fullname = ClassFullname(name);
        let superclass = enum_case_superclass(enum_fullname, typarams, case);
        let (new_sig, initialize_sig) = enum_case_new_sig(typarams, &fullname, case);
        let mut instance_methods = enum_case_getters(&fullname, &ivar_list);
        instance_methods.insert(String::from_str("initialize"), initialize_sig);
        match self.add_new_class(
            &fullname,
            typarams,
            superclass,
            Some(new_sig),
            instance_methods,
            StrMap::new(),
            case.params.len() == 0,
        ) {
            Err(e) => Err(e),
            Ok(()) => {
                let mut ivars: StrMap<SkIVar> = StrMap::new();
                let n = ivar_list.len();
                let ghost all = ivar_views(ivar_list@);
                proof {
                    assert(all.skip(0) =~= all);
                }
                for i in 0..n
                    invariant
                        n == ivar_list@.len(),
                        all == ivar_views(ivar_list@),
                        all.len() == n,
                        forall|j: int| 0 <= j < n ==> all[j] == ivar_list@[j]@,
                        sp_ivars_map(Seq::empty(), all) == sp_ivars_map(
                            ivars@,
                            all.skip(i as int),
                        ),
                {
                    ivars.insert(ivar_list[i].name.clone(), ivar_list[i].dup());
                    proof {
                        assert(all.skip(i as int).drop_first() =~= all.skip(i + 1));
                    }
                }
                proof {
                    assert(all.skip(n as int) =~= Seq::<SkIVarV>::empty());
                    // the class was inserted, then its metaclass; it is still bound
                    lemma_get_insert_contains_helper(
                        old(self).sk_classes@,
                        fullname@,
                        self.sk_classes@,
                    );
                }
                self.define_ivars(&fullname, ivars);
                Ok(())
            },
        }
    }
}

/// After inserting `k` and then one more key, `k` is still bound.
proof fn lemma_get_insert_contains_helper(d: DictV, k: Seq<char>, dd: DictV)
    requires
        exists|c1: SkClassV, k2: Seq<char>, c2: SkClassV|
            dd == spec_insert(spec_insert(d, k, c1), k2, c2),
    ensures
        spec_contains(dd, k),
{
    let (c1, k2, c2) = choose|c1: SkClassV, k2: Seq<char>, c2: SkClassV|
        dd == spec_insert(spec_insert(d, k, c1), k2, c2);
    lemma_get_insert(d, k, c1, k);
    lemma_get_insert(spec_insert(d, k, c1), k2, c2, k);
}

} // verus!

verus! {

impl ClassDict {
    /// Collect method signatures from a class body, indexing nested classes
    /// and enums on the way.
    fn index_defs_in_class(
        &mut self,
        namespace: &Namespace,
        fullname: &ClassFullname,
        typarams: &Vec<String>,
        defs: &Vec<Definition>,
    ) -> (r: Result<(StrMap<MethodSignature>, StrMap<MethodSignature>), Error>)
        ensures
            match sp_index_defs_in_class(
                old(self).sk_classes@,
                namespace@,
                fullname@,
                seq_views(typarams@),
                defs@,
                Seq::empty(),
                Seq::empty(),
            ) {
                Ok(t) => r matches Ok(p) && final(self).sk_classes@ == t.0 && p.0@ == t.1 && p.1@
                    == t.2,
                Err(k) => r matches Err(e) && e@.kind == k,
            },
        decreases dseq(defs@), 0int,
    {
        let mut instance_methods: StrMap<MethodSignature> = StrMap::new();
        let mut class_methods: StrMap<MethodSignature> = StrMap::new();
        let n = defs.len();
        let ghost d0 = self.sk_classes@;
        let ghost ns = namespace@;
        let ghost tp = seq_views(typarams@);
        proof {
            assert(defs@.skip(0) =~= defs@);
        }
        for i in 0..n
            invariant
                n == defs@.len(),
                ns == namespace@,
                tp == seq_views(typarams@),
                d0 == old(self).sk_classes@,
                sp_index_defs_in_class(d0, ns, fullname@, tp, defs@, Seq::empty(), Seq::empty())
                    == sp_index_defs_in_class(
                    self.sk_classes@,
                    ns,
                    fullname@,
                    tp,
                    defs@.skip(i as int),
                    instance_methods@,
                    class_methods@,
                ),
            decreases n - i,
        {
            proof {
                assert(defs@.skip(i as int)[0] == defs@[i as int]);
                assert(defs@.skip(i as int).drop_first() =~= defs@.skip(i + 1));
            }
            match &defs[i] {
                Definition::InstanceMethodDefinition { sig, .. } => {
                    let hir_sig = signature::create_signature(fullname, sig, typarams);
                    instance_methods.insert(sig.name.0.clone(), hir_sig);
                },
                Definition::ClassMethodDefinition { sig, .. } => {
                    let no_typarams: Vec<String> = Vec::new();
                    proof {
                        assert(seq_views(no_typarams@) =~= Seq::<Seq<char>>::empty());
                    }
                    let hir_sig = signature::create_signature(
                        &fullname.meta_name(),
                        sig,
                        &no_typarams,
                    );
                    class_methods.insert(sig.name.0.clone(), hir_sig);
                },
                Definition::ConstDefinition { .. } => {},
                Definition::ClassDefinition { name, typarams: tp2, superclass, defs: defs2 } => {
                    proof {
                        lemma_dseq_elem(defs@, i as int);
                    }
                    match self.index_class(namespace, name, tp2, superclass, defs2) {
                        Ok(()) => {},
                        Err(e) => {
                            return Err(e);
                        },
                    }
                },
                Definition::EnumDefinition { name, typarams: tp2, cases } => {
                    match self.index_enum(namespace, name, tp2, cases) {
                        Ok(()) => {},
                        Err(e) => {
                            return Err(e);
                        },
                    }
                },
            }
        }
        proof {
            assert(defs@.skip(n as int) =~= Seq::<Definition>::empty());
        }
        Ok((instance_methods, class_methods))
    }

    /// Index one class definition: compute its `.new` signature, walk its
    /// body, then register it — or merge its methods into an existing entry
    /// of the same fullname.
    fn index_class(
        &mut self,
        namespace: &Namespace,
        firstname: &ClassFirstname,
        typarams: &Vec<String>,
        ast_superclass: &Option<ConstName>,
        defs: &Vec<Definition>,
    ) -> (r: Result<(), Error>)
        ensures
            match sp_index_class(
                old(self).sk_classes@,
                namespace@,
                firstname@,
                seq_views(typarams@),
                *ast_superclass,
                defs@,
            ) {
                Ok(d) => r is Ok && final(self).sk_classes@ == d,
                Err(k) => r matches Err(e) && e@.kind == k,
            },
        decreases dseq(defs@), 1int,
    {
        let fullname = namespace.class_fullname(firstname);
        let metaclass_fullname = fullname.meta_name();
        let superclass = match ast_superclass {
            Some(n) => Superclass::from_const_name(n, typarams),
            None => Superclass::default(),
        };
        let init_params = self.initializer_params(typarams, &superclass, defs);
        let ret_new = crate::ty::return_type_of_new(&fullname, typarams);
        let new_sig = signature::signature_of_new(&metaclass_fullname, init_params, &ret_new);
        let inner_namespace = namespace.add(firstname);
        let pair = match self.index_defs_in_class(&inner_namespace, &fullname, typarams, defs) {
            Ok(p) => p,
            Err(e) => {
                return Err(e);
            },
        };
        let (instance_methods, class_methods) = pair;
        if self.sk_classes.contains_key(&fullname.0) {
            // Merge methods into the existing class: a class can be shipped
            // both by the standard library and by source.
            let cls = self.sk_classes.get(&fullname.0).unwrap();
            let mut cls2 = cls.dup();
            cls2.method_sigs.extend(instance_methods);
            self.sk_classes.insert(fullname.0.clone(), cls2);
            match self.sk_classes.get(&metaclass_fullname.0) {
                None => Err(
                    bug(msg3("metaclass `", metaclass_fullname.0.as_str(), "' is not indexed")),
                ),
                Some(meta) => {
                    let mut meta2 = meta.dup();
                    meta2.method_sigs.extend(class_methods);
                    let new_name = String::from_str("new");
                    if !meta2.method_sigs.contains_key(&new_name) {
                        meta2.method_sigs.insert(new_name, new_sig);
                    }
                    self.sk_classes.insert(metaclass_fullname.0.clone(), meta2);
                    Ok(())
                },
            }
        } else {
            self.add_new_class(
                &fullname,
                typarams,
                superclass,
                Some(new_sig),
                instance_methods,
                class_methods,
                false,
            )
        }
    }

    /// Index one enum definition: the enum class, then each case.
    fn index_enum(
        &mut self,
        namespace: &Namespace,
        firstname: &ClassFirstname,
        typarams: &Vec<String>,
        cases: &Vec<EnumCase>,
    ) -> (r: Result<(), Error>)
        ensures
            match sp_index_enum(
                old(self).sk_classes@,
                namespace@,
                firstname@,
                seq_views(typarams@),
                cases@,
            ) {
                Ok(d) => r is Ok && final(self).sk_classes@ == d,
                Err(k) => r matches Err(e) && e@.kind == k,
            },
    {
        let fullname = namespace.class_fullname(firstname);
        match self.add_new_class(
            &fullname,
            typarams,
            Superclass::simple("Object"),
            None,
            StrMap::new(),
            StrMap::new(),
            false,
        ) {
            Err(e) => Err(e),
            Ok(()) => {
                let n = cases.len();
                let ghost d1 = self.sk_classes@;
                let ghost tp = seq_views(typarams@);
                proof {
                    assert(cases@.skip(0) =~= cases@);
                }
                for i in 0..n
                    invariant
                        n == cases@.len(),
                        tp == seq_views(typarams@),
                        sp_index_enum(old(self).sk_classes@, namespace@, firstname@, tp, cases@)
                            == sp_index_enum_cases(d1, fullname@, tp, cases@),
                        sp_index_enum_cases(d1, fullname@, tp, cases@) == sp_index_enum_cases(
                            self.sk_classes@,
                            fullname@,
                            tp,
                            cases@.skip(i as int),
                        ),
                {
                    proof {
                        assert(cases@.skip(i as int)[0] == cases@[i as int]);
                        assert(cases@.skip(i as int).drop_first() =~= cases@.skip(i + 1));
                    }
                    match self.index_enum_case(&fullname, typarams, &cases[i]) {
                        Ok(()) => {},
                        Err(e) => {
                            return Err(e);
                        },
                    }
                }
                proof {
                    assert(cases@.skip(n as int) =~= Seq::<EnumCase>::empty());
                }
                Ok(())
            },
        }
    }

    /// Index one toplevel definition.
    fn index_def(&mut self, def: &Definition) -> (r: Result<(), Error>)
        ensures
            match sp_index_def(old(self).sk_classes@, *def) {
                Ok(d) => r is Ok && final(self).sk_classes@ == d,
                Err(k) => r matches Err(e) && e@.kind == k,
            },
    {
        match def {
            Definition::ClassDefinition { name, typarams, superclass, defs } => {
                let root_ns = Namespace::root();
                self.index_class(&root_ns, name, typarams, superclass, defs)
            },
            Definition::EnumDefinition { name, typarams, cases } => {
                let root_ns = Namespace::root();
                self.index_enum(&root_ns, name, typarams, cases)
            },
            Definition::ConstDefinition { .. } => Ok(()),
            Definition::InstanceMethodDefinition { sig, .. } => Err(
                syntax_error(msg3("method `", sig.name.0.as_str(), "' must not be toplevel")),
            ),
            Definition::ClassMethodDefinition { sig, .. } => Err(
                syntax_error(msg3("method `", sig.name.0.as_str(), "' must not be toplevel")),
            ),
        }
    }

    /// Index every toplevel definition, in declaration order.
    pub fn index_program(&mut self, toplevel_defs: &Vec<Definition>) -> (r: Result<(), Error>)
        ensures
            match sp_index_program(old(self).sk_classes@, toplevel_defs@) {
                Ok(d) => r is Ok && final(self).sk_classes@ == d,
                Err(k) => r matches Err(e) && e@.kind == k,
            },
            r matches Err(e) ==> exists|i: int|
                0 <= i < toplevel_defs@.len() && (match #[trigger] sp_index_program(
                    old(self).sk_classes@,
                    toplevel_defs@.take(i),
                ) {
                    // the definitions before the offending one are indexed
                    Ok(dd) => match sp_index_def(dd, toplevel_defs@[i]) {
                        Err(k2) => e@.kind == k2,
                        Ok(_) => false,
                    },
                    Err(_) => false,
                }),
    {
        let n = toplevel_defs.len();
        let ghost d0 = self.sk_classes@;
        proof {
            assert(toplevel_defs@.skip(0) =~= toplevel_defs@);
            assert(toplevel_defs@.take(0) =~= Seq::<Definition>::empty());
        }
        for i in 0..n
            invariant
                n == toplevel_defs@.len(),
                d0 == old(self).sk_classes@,
                sp_index_program(d0, toplevel_defs@) == sp_index_program(
                    self.sk_classes@,
                    toplevel_defs@.skip(i as int),
                ),
                sp_index_program(d0, toplevel_defs@.take(i as int)) == Ok::<DictV, ErrorKind>(
                    self.sk_classes@,
                ),
        {
            proof {
                assert(toplevel_defs@.skip(i as int)[0] == toplevel_defs@[i as int]);
                assert(toplevel_defs@.skip(i as int).drop_first() =~= toplevel_defs@.skip(i + 1));
                lemma_sp_index_program_snoc(d0, toplevel_defs@.take(i as int), toplevel_defs@[i as int]);
                assert(toplevel_defs@.take(i as int).push(toplevel_defs@[i as int])
                    =~= toplevel_defs@.take(i + 1));
            }
            let ghost pre = self.sk_classes@;
            match self.index_def(&toplevel_defs[i]) {
                Ok(()) => {},
                Err(e) => {
                    proof {
                        assert(sp_index_program(d0, toplevel_defs@.take(i as int)) == Ok::<
                            DictV,
                            ErrorKind,
                        >(pre));
                    }
                    return Err(e);
                },
            }
        }
        proof {
            assert(toplevel_defs@.skip(n as int) =~= Seq::<Definition>::empty());
        }
        Ok(())
    }
}

} // verus!
