//! Dictionary-wide properties of indexing.
//!
//! These proof functions state, once and for all, what the indexing
//! machinery guarantees: determinism, companion metaclasses, the agreement
//! of `initialize` and `new`, and the shape of enum-case ivars and getters.

use vstd::prelude::*;
use crate::ast::Definition;
use crate::ast::Param;
use crate::class_dict::DictV;
use crate::class_dict::SigsV;
use crate::class_dict::IVarsV;
use crate::convert_exprs::sp_ivars_indexed;
use crate::error::ErrorKind;
use crate::indexing::sp_add_new_class;
use crate::indexing::sp_enum_case_getters;
use crate::indexing::sp_enum_case_ivars;
use crate::indexing::sp_enum_case_new_sig;
use crate::indexing::sp_index_program;
use crate::indexing::sp_initializer_params;
use crate::indexing::sp_ivars_map;
use crate::names::meta_name_seq;
use crate::names::meta_prefix;
use crate::names::method_fullname_v;
use crate::sk::MethodSignatureV;
use crate::sk::SkClassV;
use crate::sk::SkIVarV;
use crate::sk::accessor_name_v;
use crate::signature::convert_params_v;
use crate::signature::signature_of_new_v;
use crate::strmap::lemma_get_insert;
use crate::strmap::lemma_key_idx_bounds;
use crate::strmap::spec_contains;
use crate::strmap::spec_get;
use crate::strmap::spec_insert;
use crate::ty::TermTyV;

verus! {

/// Indexing the same definitions twice yields identical dictionaries
/// (and identical outcomes altogether).
pub proof fn lemma_indexing_deterministic(
    d: DictV,
    defs: Seq<Definition>,
    r1: Result<DictV, ErrorKind>,
    r2: Result<DictV, ErrorKind>,
)
    requires
        r1 == sp_index_program(d, defs),
        r2 == sp_index_program(d, defs),
    ensures
        r1 == r2,
{
}

/// The `.new` and `#initialize` signatures of an enum case take exactly the
/// same parameters, and `new` returns the case's instance type.
pub proof fn lemma_enum_case_new_matches_initialize(
    typarams: Seq<Seq<char>>,
    fullname: Seq<char>,
    params: Seq<Param>,
)
    ensures
        sp_enum_case_new_sig(typarams, fullname, params).0.params == sp_enum_case_new_sig(
            typarams,
            fullname,
            params,
        ).1.params,
        sp_enum_case_new_sig(typarams, fullname, params).0.fullname.first_name == "new"@,
        sp_enum_case_new_sig(typarams, fullname, params).1.fullname.first_name == "initialize"@,
        params.len() == 0 ==> sp_enum_case_new_sig(typarams, fullname, params).0.ret_ty
            == crate::ty::raw_v(fullname),
{
}

/// The `new` parameters a class is registered with are exactly those of the
/// first `initialize` among its definitions, when there is one.
pub proof fn lemma_initializer_params_from_defs(
    d: DictV,
    cls_typarams: Seq<Seq<char>>,
    superclass: TermTyV,
    defs: Seq<Definition>,
    p: int,
)
    requires
        0 <= p < defs.len(),
        defs[p] matches Definition::InstanceMethodDefinition { sig, .. } && sig.name@
            == "initialize"@,
        forall|q: int|
            0 <= q < p ==> !(#[trigger] defs[q] matches Definition::InstanceMethodDefinition {
                sig,
                ..
            } && sig.name@ == "initialize"@),
    ensures
        defs[p] matches Definition::InstanceMethodDefinition { sig, .. } ==> sp_initializer_params(
            d,
            cls_typarams,
            superclass,
            defs,
        ) == convert_params_v(
            crate::ast::ast_param_views(sig.params@),
            cls_typarams,
            crate::names::seq_views(sig.typarams@),
        ),
    decreases p,
{
    if p > 0 {
        lemma_initializer_params_from_defs(
            d,
            cls_typarams,
            superclass,
            defs.drop_first(),
            p - 1,
        );
        assert(defs.drop_first()[p - 1] == defs[p]);
        assert forall|q: int|
            0 <= q < p - 1 implies !(#[trigger] defs.drop_first()[q]
            matches Definition::InstanceMethodDefinition {
            sig,
            ..
        } && sig.name@ == "initialize"@) by {
            assert(defs.drop_first()[q] == defs[q + 1]);
        }
    }
}

/// Registering a class registers its companion metaclass beside it, under
/// the name `Meta:<C>`, with the given `new` signature bound to `new`.
pub proof fn lemma_add_new_class_companions(
    d: DictV,
    fullname: Seq<char>,
    typaram_names: Seq<Seq<char>>,
    superclass: TermTyV,
    new_sig: MethodSignatureV,
    instance_methods: SigsV,
    class_methods: SigsV,
    const_is_obj: bool,
    d2: DictV,
)
    requires
        sp_add_new_class(
            d,
            fullname,
            typaram_names,
            superclass,
            Some(new_sig),
            instance_methods,
            class_methods,
            const_is_obj,
        ) == Ok::<DictV, ErrorKind>(d2),
        new_sig.fullname.first_name == "new"@,
    ensures
        spec_contains(d2, fullname),
        spec_contains(d2, meta_name_seq(fullname)),
        spec_get(d2, meta_name_seq(fullname)) matches Some(m) && spec_get(m.method_sigs, "new"@)
            == Some(new_sig),
        forall|k: Seq<char>| spec_contains(d, k) ==> spec_contains(d2, k),
{
    crate::names::lemma_meta_name_injective(fullname, fullname);
    let the_class = spec_get(d, "Class"@).unwrap();
    let cm2 = spec_insert(class_methods, "new"@, new_sig);
    lemma_get_insert(class_methods, "new"@, new_sig, "new"@);
    let d1 = spec_insert(
        d,
        fullname,
        crate::sk::SkClassV {
            fullname,
            typarams: typaram_names,
            superclass: Some(superclass),
            instance_ty: crate::ty::raw_v(fullname),
            ivars: Seq::empty(),
            method_sigs: instance_methods,
            const_is_obj,
            foreign: false,
        },
    );
    let meta = crate::sk::SkClassV {
        fullname: meta_name_seq(fullname),
        typarams: typaram_names,
        superclass: Some(crate::ty::raw_v("Class"@)),
        instance_ty: crate::ty::meta_v(fullname),
        ivars: the_class.ivars,
        method_sigs: cm2,
        const_is_obj: false,
        foreign: false,
    };
    lemma_get_insert(
        d,
        fullname,
        crate::sk::SkClassV {
            fullname,
            typarams: typaram_names,
            superclass: Some(superclass),
            instance_ty: crate::ty::raw_v(fullname),
            ivars: Seq::empty(),
            method_sigs: instance_methods,
            const_is_obj,
            foreign: false,
        },
        fullname,
    );
    lemma_get_insert(d1, meta_name_seq(fullname), meta, meta_name_seq(fullname));
    lemma_get_insert(d1, meta_name_seq(fullname), meta, fullname);
    assert(meta_name_seq(fullname) != fullname) by {
        assert(meta_name_seq(fullname).len() == meta_prefix().len() + fullname.len());
        assert(meta_prefix().len() > 0) by {
            reveal_strlit("Meta:");
        }
    }
    assert forall|k: Seq<char>| spec_contains(d, k) implies spec_contains(d2, k) by {
        lemma_get_insert(
            d,
            fullname,
            crate::sk::SkClassV {
                fullname,
                typarams: typaram_names,
                superclass: Some(superclass),
                instance_ty: crate::ty::raw_v(fullname),
                ivars: Seq::empty(),
                method_sigs: instance_methods,
                const_is_obj,
                foreign: false,
            },
            k,
        );
        lemma_get_insert(d1, meta_name_seq(fullname), meta, k);
    }
}

/// The ivars of an enum case occupy slots `0..n` in declaration order, all
/// readonly; with distinct parameter names the ivar table keeps exactly
/// that shape.
pub proof fn lemma_enum_case_ivars_shape(typarams: Seq<Seq<char>>, params: Seq<Param>)
    requires
        forall|i: int, j: int|
            0 <= i < j < params.len() ==> (#[trigger] params[i])@.name != (
            #[trigger] params[j])@.name,
    ensures
        sp_enum_case_ivars(typarams, params).len() == params.len(),
        forall|i: int|
            0 <= i < params.len() ==> (#[trigger] sp_enum_case_ivars(typarams, params)[i]).idx == i
                && sp_enum_case_ivars(typarams, params)[i].readonly && sp_enum_case_ivars(
                typarams,
                params,
            )[i].name == params[i]@.name,
        sp_ivars_map(Seq::empty(), sp_enum_case_ivars(typarams, params)) == Seq::new(
            params.len(),
            |i: int| (params[i]@.name, sp_enum_case_ivars(typarams, params)[i]),
        ),
        sp_ivars_indexed(sp_ivars_map(Seq::empty(), sp_enum_case_ivars(typarams, params)), 0),
{
    let ivars = sp_enum_case_ivars(typarams, params);
    lemma_ivars_map_distinct(Seq::empty(), ivars);
    assert(sp_ivars_map(Seq::empty(), ivars) =~= Seq::new(
        params.len(),
        |i: int| (params[i]@.name, ivars[i]),
    ));
}

/// Folding distinct-named ivars into a table appends them in order.
proof fn lemma_ivars_map_distinct(acc: IVarsV, ivars: Seq<SkIVarV>)
    requires
        forall|i: int, j: int|
            0 <= i < j < ivars.len() ==> (#[trigger] ivars[i]).name != (#[trigger] ivars[j]).name,
        forall|i: int| 0 <= i < ivars.len() ==> !spec_contains(acc, (#[trigger] ivars[i]).name),
    ensures
        sp_ivars_map(acc, ivars) == acc + Seq::new(ivars.len(), |i: int| (ivars[i].name, ivars[i])),
    decreases ivars.len(),
{
    if ivars.len() == 0 {
        assert(sp_ivars_map(acc, ivars) =~= acc + Seq::new(
            ivars.len(),
            |i: int| (ivars[i].name, ivars[i]),
        ));
    } else {
        let acc2 = spec_insert(acc, ivars[0].name, ivars[0]);
        lemma_key_idx_bounds(acc, ivars[0].name);
        assert(acc2 == acc.push((ivars[0].name, ivars[0])));
        assert forall|i: int|
            0 <= i < ivars.drop_first().len() implies !spec_contains(
            acc2,
            (#[trigger] ivars.drop_first()[i]).name,
        ) by {
            assert(ivars.drop_first()[i] == ivars[i + 1]);
            lemma_get_insert(acc, ivars[0].name, ivars[0], ivars[i + 1].name);
        }
        assert forall|i: int, j: int|
            0 <= i < j < ivars.drop_first().len() implies (#[trigger] ivars.drop_first()[i]).name
            != (#[trigger] ivars.drop_first()[j]).name by {
            assert(ivars.drop_first()[i] == ivars[i + 1]);
            assert(ivars.drop_first()[j] == ivars[j + 1]);
        }
        lemma_ivars_map_distinct(acc2, ivars.drop_first());
        assert(sp_ivars_map(acc, ivars) =~= acc + Seq::new(
            ivars.len(),
            |i: int| (ivars[i].name, ivars[i]),
        ));
    }
}

/// An enum case with distinct parameter names gets exactly one getter per
/// ivar, in order: same name, same type, no parameters.
pub proof fn lemma_enum_case_getters_shape(case_fullname: Seq<char>, ivars: Seq<SkIVarV>)
    requires
        forall|i: int, j: int|
            0 <= i < j < ivars.len() ==> (#[trigger] ivars[i]).name != (#[trigger] ivars[j]).name,
    ensures
        sp_enum_case_getters(Seq::empty(), case_fullname, ivars) == Seq::new(
            ivars.len(),
            |i: int|
                (
                    ivars[i].name,
                    MethodSignatureV {
                        fullname: method_fullname_v(
                            case_fullname,
                            accessor_name_v(ivars[i].name),
                        ),
                        ret_ty: ivars[i].ty,
                        params: Seq::empty(),
                        typarams: Seq::empty(),
                    },
                ),
        ),
{
    lemma_getters_distinct(Seq::empty(), case_fullname, ivars);
    assert(sp_enum_case_getters(Seq::empty(), case_fullname, ivars) =~= Seq::new(
        ivars.len(),
        |i: int|
            (
                ivars[i].name,
                MethodSignatureV {
                    fullname: method_fullname_v(case_fullname, accessor_name_v(ivars[i].name)),
                    ret_ty: ivars[i].ty,
                    params: Seq::empty(),
                    typarams: Seq::empty(),
                },
            ),
    ));
}

proof fn lemma_getters_distinct(acc: SigsV, case_fullname: Seq<char>, ivars: Seq<SkIVarV>)
    requires
        forall|i: int, j: int|
            0 <= i < j < ivars.len() ==> (#[trigger] ivars[i]).name != (#[trigger] ivars[j]).name,
        forall|i: int| 0 <= i < ivars.len() ==> !spec_contains(acc, (#[trigger] ivars[i]).name),
    ensures
        sp_enum_case_getters(acc, case_fullname, ivars) == acc + Seq::new(
            ivars.len(),
            |i: int|
                (
                    ivars[i].name,
                    MethodSignatureV {
                        fullname: method_fullname_v(
                            case_fullname,
                            accessor_name_v(ivars[i].name),
                        ),
                        ret_ty: ivars[i].ty,
                        params: Seq::empty(),
                        typarams: Seq::empty(),
                    },
                ),
        ),
    decreases ivars.len(),
{
    let mk = |i: int|
        (
            ivars[i].name,
            MethodSignatureV {
                fullname: method_fullname_v(case_fullname, accessor_name_v(ivars[i].name)),
                ret_ty: ivars[i].ty,
                params: Seq::empty(),
                typarams: Seq::empty(),
            },
        );
    if ivars.len() == 0 {
        assert(sp_enum_case_getters(acc, case_fullname, ivars) =~= acc + Seq::new(
            ivars.len(),
            mk,
        ));
    } else {
        let sig0 = MethodSignatureV {
            fullname: method_fullname_v(case_fullname, accessor_name_v(ivars[0].name)),
            ret_ty: ivars[0].ty,
            params: Seq::empty(),
            typarams: Seq::empty(),
        };
        let acc2 = spec_insert(acc, ivars[0].name, sig0);
        lemma_key_idx_bounds(acc, ivars[0].name);
        assert(acc2 == acc.push((ivars[0].name, sig0)));
        assert forall|i: int|
            0 <= i < ivars.drop_first().len() implies !spec_contains(
            acc2,
            (#[trigger] ivars.drop_first()[i]).name,
        ) by {
            assert(ivars.drop_first()[i] == ivars[i + 1]);
            lemma_get_insert(acc, ivars[0].name, sig0, ivars[i + 1].name);
        }
        assert forall|i: int, j: int|
            0 <= i < j < ivars.drop_first().len() implies (#[trigger] ivars.drop_first()[i]).name
            != (#[trigger] ivars.drop_first()[j]).name by {
            assert(ivars.drop_first()[i] == ivars[i + 1]);
            assert(ivars.drop_first()[j] == ivars[j + 1]);
        }
        lemma_getters_distinct(acc2, case_fullname, ivars.drop_first());
        assert(sp_enum_case_getters(acc, case_fullname, ivars) =~= acc + Seq::new(
            ivars.len(),
            mk,
        ));
    }
}

} // verus!

verus! {

/// Whether a class name is a metaclass name (carries the `Meta:` prefix).
pub open spec fn is_meta_name_v(s: Seq<char>) -> bool {
    s.len() >= meta_prefix().len() && s.take(meta_prefix().len() as int) == meta_prefix()
}

/// Every class in the dictionary has a companion metaclass registered
/// under its `Meta:` name.
pub open spec fn sp_companioned(d: DictV) -> bool {
    forall|i: int|
        0 <= i < d.len() && !is_meta_name_v((#[trigger] d[i]).0) ==> spec_contains(
            d,
            meta_name_seq(d[i].0),
        )
}

/// A metaclass name is meta-shaped.
proof fn lemma_meta_name_is_meta(f: Seq<char>)
    ensures
        is_meta_name_v(meta_name_seq(f)),
{
    reveal_strlit("Meta:");
    assert(meta_name_seq(f).take(meta_prefix().len() as int) =~= meta_prefix());
}

/// The keys of `spec_insert(d, k, c)` are the keys of `d` plus `k`.
proof fn lemma_insert_keys(d: DictV, k: Seq<char>, c: SkClassV, i: int)
    requires
        0 <= i < spec_insert(d, k, c).len(),
    ensures
        spec_insert(d, k, c)[i].0 == k || (0 <= i < d.len() && spec_insert(d, k, c)[i].0
            == d[i].0),
{
    lemma_key_idx_bounds(d, k);
}

/// Inserting a metaclass-named entry, or an entry whose companion is (or
/// ends up) present, keeps the dictionary companioned.
proof fn lemma_companioned_insert(d: DictV, k: Seq<char>, c: SkClassV)
    requires
        sp_companioned(d),
        is_meta_name_v(k) || spec_contains(spec_insert(d, k, c), meta_name_seq(k)),
    ensures
        sp_companioned(spec_insert(d, k, c)),
{
    let d2 = spec_insert(d, k, c);
    lemma_key_idx_bounds(d, k);
    assert forall|i: int|
        0 <= i < d2.len() && !is_meta_name_v((#[trigger] d2[i]).0) implies spec_contains(
        d2,
        meta_name_seq(d2[i].0),
    ) by {
        lemma_insert_keys(d, k, c, i);
        if d2[i].0 == k {
        } else {
            assert(spec_contains(d, meta_name_seq(d[i].0)));
            lemma_get_insert(d, k, c, meta_name_seq(d[i].0));
        }
    }
}

/// Inserting under a key that is already present keeps the dictionary
/// companioned.
proof fn lemma_companioned_insert_existing(d: DictV, k: Seq<char>, c: SkClassV)
    requires
        sp_companioned(d),
        spec_contains(d, k),
    ensures
        sp_companioned(spec_insert(d, k, c)),
{
    lemma_key_idx_bounds(d, k);
    if !is_meta_name_v(k) {
        assert(d[spec_key_idx_of(d, k)].0 == k);
        assert(spec_contains(d, meta_name_seq(k)));
        lemma_get_insert(d, k, c, meta_name_seq(k));
    }
    lemma_companioned_insert(d, k, c);
}

/// The first index bound to `k`.
spec fn spec_key_idx_of(d: DictV, k: Seq<char>) -> int {
    crate::strmap::spec_key_idx(d, k)
}

/// `sp_add_new_class` keeps the dictionary companioned: the class and its
/// metaclass go in together.
pub proof fn lemma_companioned_add_new_class(
    d: DictV,
    fullname: Seq<char>,
    typaram_names: Seq<Seq<char>>,
    superclass: TermTyV,
    new_sig: Option<MethodSignatureV>,
    instance_methods: SigsV,
    class_methods: SigsV,
    const_is_obj: bool,
    d2: DictV,
)
    requires
        sp_companioned(d),
        sp_add_new_class(
            d,
            fullname,
            typaram_names,
            superclass,
            new_sig,
            instance_methods,
            class_methods,
            const_is_obj,
        ) == Ok::<DictV, ErrorKind>(d2),
    ensures
        sp_companioned(d2),
{
    let the_class = spec_get(d, "Class"@).unwrap();
    let c1 = crate::sk::SkClassV {
        fullname,
        typarams: typaram_names,
        superclass: Some(superclass),
        instance_ty: crate::ty::raw_v(fullname),
        ivars: Seq::empty(),
        method_sigs: instance_methods,
        const_is_obj,
        foreign: false,
    };
    let cm2 = match new_sig {
        Some(sig) => spec_insert(class_methods, sig.fullname.first_name, sig),
        None => class_methods,
    };
    let m = crate::sk::SkClassV {
        fullname: meta_name_seq(fullname),
        typarams: typaram_names,
        superclass: Some(crate::ty::raw_v("Class"@)),
        instance_ty: crate::ty::meta_v(fullname),
        ivars: the_class.ivars,
        method_sigs: cm2,
        const_is_obj: false,
        foreign: false,
    };
    let d1 = spec_insert(d, fullname, c1);
    let mk = meta_name_seq(fullname);
    assert(d2 == spec_insert(d1, mk, m));
    lemma_meta_name_is_meta(fullname);
    lemma_get_insert(d1, mk, m, mk);
    assert forall|i: int|
        0 <= i < d2.len() && !is_meta_name_v((#[trigger] d2[i]).0) implies spec_contains(
        d2,
        meta_name_seq(d2[i].0),
    ) by {
        lemma_insert_keys(d1, mk, m, i);
        if d2[i].0 == mk {
        } else {
            lemma_insert_keys(d, fullname, c1, i);
            if d1[i].0 == fullname {
            } else {
                assert(spec_contains(d, meta_name_seq(d[i].0)));
                lemma_get_insert(d, fullname, c1, meta_name_seq(d[i].0));
                lemma_get_insert(d1, mk, m, meta_name_seq(d[i].0));
            }
        }
    }
}

/// `sp_define_ivars` keeps the dictionary companioned.
proof fn lemma_companioned_define_ivars(d: DictV, clsname: Seq<char>, ivars: IVarsV)
    requires
        sp_companioned(d),
    ensures
        sp_companioned(crate::class_dict::sp_define_ivars(d, clsname, ivars)),
{
    match spec_get(d, clsname) {
        Some(c) => {
            lemma_key_idx_bounds(d, clsname);
            lemma_companioned_insert_existing(
                d,
                clsname,
                crate::sk::SkClassV { ivars, ..c },
            );
        },
        None => {},
    }
}

/// One enum case keeps the dictionary companioned.
proof fn lemma_companioned_index_enum_case(
    d: DictV,
    enum_fullname: Seq<char>,
    typarams: Seq<Seq<char>>,
    case: crate::ast::EnumCase,
    d2: DictV,
)
    requires
        sp_companioned(d),
        crate::indexing::sp_index_enum_case(d, enum_fullname, typarams, case) == Ok::<
            DictV,
            ErrorKind,
        >(d2),
    ensures
        sp_companioned(d2),
{
    let ivar_list = sp_enum_case_ivars(typarams, case.params@);
    let fullname = enum_fullname + crate::names::path_sep() + case.name@;
    let superclass = crate::indexing::sp_enum_case_superclass(
        enum_fullname,
        typarams,
        case.params@.len() == 0,
    );
    let sigs = sp_enum_case_new_sig(typarams, fullname, case.params@);
    let instance_methods = spec_insert(
        sp_enum_case_getters(Seq::empty(), fullname, ivar_list),
        "initialize"@,
        sigs.1,
    );
    match sp_add_new_class(
        d,
        fullname,
        typarams,
        superclass,
        Some(sigs.0),
        instance_methods,
        Seq::empty(),
        case.params@.len() == 0,
    ) {
        Err(_) => {},
        Ok(d1) => {
            lemma_companioned_add_new_class(
                d,
                fullname,
                typarams,
                superclass,
                Some(sigs.0),
                instance_methods,
                Seq::empty(),
                case.params@.len() == 0,
                d1,
            );
            lemma_companioned_define_ivars(
                d1,
                fullname,
                sp_ivars_map(Seq::empty(), ivar_list),
            );
        },
    }
}

/// All cases of an enum keep the dictionary companioned.
proof fn lemma_companioned_index_enum_cases(
    d: DictV,
    enum_fullname: Seq<char>,
    typarams: Seq<Seq<char>>,
    cases: Seq<crate::ast::EnumCase>,
    d2: DictV,
)
    requires
        sp_companioned(d),
        crate::indexing::sp_index_enum_cases(d, enum_fullname, typarams, cases) == Ok::<
            DictV,
            ErrorKind,
        >(d2),
    ensures
        sp_companioned(d2),
    decreases cases.len(),
{
    if cases.len() > 0 {
        match crate::indexing::sp_index_enum_case(d, enum_fullname, typarams, cases[0]) {
            Err(_) => {},
            Ok(d1) => {
                lemma_companioned_index_enum_case(d, enum_fullname, typarams, cases[0], d1);
                lemma_companioned_index_enum_cases(
                    d1,
                    enum_fullname,
                    typarams,
                    cases.drop_first(),
                    d2,
                );
            },
        }
    }
}

/// Indexing an enum keeps the dictionary companioned.
proof fn lemma_companioned_index_enum(
    d: DictV,
    ns: Seq<Seq<char>>,
    firstname: Seq<char>,
    typarams: Seq<Seq<char>>,
    cases: Seq<crate::ast::EnumCase>,
    d2: DictV,
)
    requires
        sp_companioned(d),
        crate::indexing::sp_index_enum(d, ns, firstname, typarams, cases) == Ok::<
            DictV,
            ErrorKind,
        >(d2),
    ensures
        sp_companioned(d2),
{
    let fullname = crate::names::namespaced_name(ns, firstname);
    match sp_add_new_class(
        d,
        fullname,
        typarams,
        crate::ty::raw_v("Object"@),
        None,
        Seq::empty(),
        Seq::empty(),
        false,
    ) {
        Err(_) => {},
        Ok(d1) => {
            lemma_companioned_add_new_class(
                d,
                fullname,
                typarams,
                crate::ty::raw_v("Object"@),
                None,
                Seq::empty(),
                Seq::empty(),
                false,
                d1,
            );
            lemma_companioned_index_enum_cases(d1, fullname, typarams, cases, d2);
        },
    }
}

} // verus!

verus! {

/// The body of a class keeps the dictionary companioned: nested classes
/// and enums register their companions as they are indexed.
proof fn lemma_companioned_index_defs_in_class(
    d: DictV,
    ns: Seq<Seq<char>>,
    fullname: Seq<char>,
    typarams: Seq<Seq<char>>,
    defs: Seq<Definition>,
    instance_acc: SigsV,
    class_acc: SigsV,
    t: (DictV, SigsV, SigsV),
)
    requires
        sp_companioned(d),
        crate::indexing::sp_index_defs_in_class(
            d,
            ns,
            fullname,
            typarams,
            defs,
            instance_acc,
            class_acc,
        ) == Ok::<(DictV, SigsV, SigsV), ErrorKind>(t),
    ensures
        sp_companioned(t.0),
    decreases crate::ast::dseq(defs), 0int,
{
    if defs.len() == 0 {
    } else {
        assert(crate::ast::dsize(defs[0]) >= 1);
        match defs[0] {
            Definition::InstanceMethodDefinition { sig, .. } => {
                lemma_companioned_index_defs_in_class(
                    d,
                    ns,
                    fullname,
                    typarams,
                    defs.drop_first(),
                    spec_insert(
                        instance_acc,
                        sig@.name,
                        crate::signature::create_signature_v(fullname, sig@, typarams),
                    ),
                    class_acc,
                    t,
                );
            },
            Definition::ClassMethodDefinition { sig, .. } => {
                lemma_companioned_index_defs_in_class(
                    d,
                    ns,
                    fullname,
                    typarams,
                    defs.drop_first(),
                    instance_acc,
                    spec_insert(
                        class_acc,
                        sig@.name,
                        crate::signature::create_signature_v(
                            meta_name_seq(fullname),
                            sig@,
                            Seq::empty(),
                        ),
                    ),
                    t,
                );
            },
            Definition::ConstDefinition { .. } => {
                lemma_companioned_index_defs_in_class(
                    d,
                    ns,
                    fullname,
                    typarams,
                    defs.drop_first(),
                    instance_acc,
                    class_acc,
                    t,
                );
            },
            Definition::ClassDefinition { name, typarams: tp2, superclass, defs: defs2 } => {
                crate::ast::lemma_dseq_elem(defs, 0);
                match crate::indexing::sp_index_class(
                    d,
                    ns,
                    name@,
                    crate::names::seq_views(tp2@),
                    superclass,
                    defs2@,
                ) {
                    Err(_) => {},
                    Ok(dd) => {
                        lemma_companioned_index_class(
                            d,
                            ns,
                            name@,
                            crate::names::seq_views(tp2@),
                            superclass,
                            defs2@,
                            dd,
                        );
                        lemma_companioned_index_defs_in_class(
                            dd,
                            ns,
                            fullname,
                            typarams,
                            defs.drop_first(),
                            instance_acc,
                            class_acc,
                            t,
                        );
                    },
                }
            },
            Definition::EnumDefinition { name, typarams: tp2, cases } => {
                match crate::indexing::sp_index_enum(
                    d,
                    ns,
                    name@,
                    crate::names::seq_views(tp2@),
                    cases@,
                ) {
                    Err(_) => {},
                    Ok(dd) => {
                        lemma_companioned_index_enum(
                            d,
                            ns,
                            name@,
                            crate::names::seq_views(tp2@),
                            cases@,
                            dd,
                        );
                        lemma_companioned_index_defs_in_class(
                            dd,
                            ns,
                            fullname,
                            typarams,
                            defs.drop_first(),
                            instance_acc,
                            class_acc,
                            t,
                        );
                    },
                }
            },
        }
    }
}

/// Indexing one class keeps the dictionary companioned.
proof fn lemma_companioned_index_class(
    d: DictV,
    ns: Seq<Seq<char>>,
    firstname: Seq<char>,
    typarams: Seq<Seq<char>>,
    ast_superclass: Option<crate::ast::ConstName>,
    defs: Seq<Definition>,
    d2: DictV,
)
    requires
        sp_companioned(d),
        crate::indexing::sp_index_class(d, ns, firstname, typarams, ast_superclass, defs) == Ok::<
            DictV,
            ErrorKind,
        >(d2),
    ensures
        sp_companioned(d2),
    decreases crate::ast::dseq(defs), 1int,
{
    let fullname = crate::names::namespaced_name(ns, firstname);
    let mk = meta_name_seq(fullname);
    let superclass = match ast_superclass {
        Some(n) => crate::ast::const_name_to_ty_v(n@, typarams),
        None => crate::ty::raw_v("Object"@),
    };
    let new_sig = signature_of_new_v(
        mk,
        sp_initializer_params(d, typarams, superclass, defs),
        crate::ty::return_type_of_new_v(fullname, typarams),
    );
    match crate::indexing::sp_index_defs_in_class(
        d,
        ns.push(firstname),
        fullname,
        typarams,
        defs,
        Seq::empty(),
        Seq::empty(),
    ) {
        Err(_) => {},
        Ok(t) => {
            lemma_companioned_index_defs_in_class(
                d,
                ns.push(firstname),
                fullname,
                typarams,
                defs,
                Seq::empty(),
                Seq::empty(),
                t,
            );
            if spec_contains(t.0, fullname) {
                let c = spec_get(t.0, fullname).unwrap();
                let d3 = spec_insert(
                    t.0,
                    fullname,
                    SkClassV {
                        method_sigs: crate::strmap::spec_extend(c.method_sigs, t.1),
                        ..c
                    },
                );
                lemma_companioned_insert_existing(
                    t.0,
                    fullname,
                    SkClassV {
                        method_sigs: crate::strmap::spec_extend(c.method_sigs, t.1),
                        ..c
                    },
                );
                match spec_get(d3, mk) {
                    None => {},
                    Some(m) => {
                        let sigs2 = crate::strmap::spec_extend(m.method_sigs, t.2);
                        let sigs3 = if spec_contains(sigs2, "new"@) {
                            sigs2
                        } else {
                            spec_insert(sigs2, "new"@, new_sig)
                        };
                        lemma_key_idx_bounds(d3, mk);
                        lemma_companioned_insert_existing(
                            d3,
                            mk,
                            SkClassV { method_sigs: sigs3, ..m },
                        );
                    },
                }
            } else {
                lemma_companioned_add_new_class(
                    t.0,
                    fullname,
                    typarams,
                    superclass,
                    Some(new_sig),
                    t.1,
                    t.2,
                    false,
                    d2,
                );
            }
        },
    }
}

/// Indexing a whole program keeps the dictionary companioned: every class
/// the program introduces comes with its `Meta:` companion.
pub proof fn lemma_companioned_index_program(d: DictV, defs: Seq<Definition>, d2: DictV)
    requires
        sp_companioned(d),
        sp_index_program(d, defs) == Ok::<DictV, ErrorKind>(d2),
    ensures
        sp_companioned(d2),
    decreases crate::ast::dseq(defs), 3int,
{
    if defs.len() > 0 {
        crate::ast::lemma_dseq_elem(defs, 0);
        match crate::indexing::sp_index_def(d, defs[0]) {
            Err(_) => {},
            Ok(dd) => {
                lemma_companioned_index_def(d, defs[0], dd);
                lemma_companioned_index_program(dd, defs.drop_first(), d2);
            },
        }
    }
}

proof fn lemma_companioned_index_def(d: DictV, def: Definition, d2: DictV)
    requires
        sp_companioned(d),
        crate::indexing::sp_index_def(d, def) == Ok::<DictV, ErrorKind>(d2),
    ensures
        sp_companioned(d2),
    decreases crate::ast::dsize(def), 2int,
{
    match def {
        Definition::ClassDefinition { name, typarams, superclass, defs } => {
            lemma_companioned_index_class(
                d,
                Seq::empty(),
                name@,
                crate::names::seq_views(typarams@),
                superclass,
                defs@,
                d2,
            );
        },
        Definition::EnumDefinition { name, typarams, cases } => {
            lemma_companioned_index_enum(
                d,
                Seq::empty(),
                name@,
                crate::names::seq_views(typarams@),
                cases@,
                d2,
            );
        },
        _ => {},
    }
}

} // verus!

verus! {

/// The superclass a class header declares, or `Object`.
pub open spec fn sp_declared_superclass(
    ast_superclass: Option<crate::ast::ConstName>,
    typarams: Seq<Seq<char>>,
) -> TermTyV {
    match ast_superclass {
        Some(n) => crate::ast::const_name_to_ty_v(n@, typarams),
        None => crate::ty::raw_v("Object"@),
    }
}

/// The `new` signature a freshly indexed class gets: the initializer's
/// parameters and the class's own instance type.
pub open spec fn sp_class_new_sig(
    d: DictV,
    ns: Seq<Seq<char>>,
    firstname: Seq<char>,
    typarams: Seq<Seq<char>>,
    ast_superclass: Option<crate::ast::ConstName>,
    defs: Seq<Definition>,
) -> MethodSignatureV {
    signature_of_new_v(
        meta_name_seq(crate::names::namespaced_name(ns, firstname)),
        sp_initializer_params(d, typarams, sp_declared_superclass(ast_superclass, typarams), defs),
        crate::ty::return_type_of_new_v(crate::names::namespaced_name(ns, firstname), typarams),
    )
}

/// A class indexed under a new name carries, on its metaclass, a `new`
/// whose parameters are exactly the initializer parameters computed from
/// its definitions (the first `initialize`, or the superclass's `new`).
pub proof fn lemma_class_new_signature(
    d: DictV,
    ns: Seq<Seq<char>>,
    firstname: Seq<char>,
    typarams: Seq<Seq<char>>,
    ast_superclass: Option<crate::ast::ConstName>,
    defs: Seq<Definition>,
    d2: DictV,
)
    requires
        crate::indexing::sp_index_class(d, ns, firstname, typarams, ast_superclass, defs) == Ok::<
            DictV,
            ErrorKind,
        >(d2),
        crate::indexing::sp_index_defs_in_class(
            d,
            ns.push(firstname),
            crate::names::namespaced_name(ns, firstname),
            typarams,
            defs,
            Seq::empty(),
            Seq::empty(),
        ) matches Ok(t) && !spec_contains(t.0, crate::names::namespaced_name(ns, firstname)),
    ensures
        spec_get(d2, meta_name_seq(crate::names::namespaced_name(ns, firstname))) matches Some(m)
            && spec_get(m.method_sigs, "new"@) == Some(
            sp_class_new_sig(d, ns, firstname, typarams, ast_superclass, defs),
        ),
{
    let fullname = crate::names::namespaced_name(ns, firstname);
    let new_sig = sp_class_new_sig(d, ns, firstname, typarams, ast_superclass, defs);
    match crate::indexing::sp_index_defs_in_class(
        d,
        ns.push(firstname),
        fullname,
        typarams,
        defs,
        Seq::empty(),
        Seq::empty(),
    ) {
        Err(_) => {},
        Ok(t) => {
            lemma_add_new_class_companions(
                t.0,
                fullname,
                typarams,
                sp_declared_superclass(ast_superclass, typarams),
                new_sig,
                t.1,
                t.2,
                false,
                d2,
            );
        },
    }
}

} // verus!
