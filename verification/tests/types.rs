//! The type model and the subtyping primitives.

use shiika_front::class_dict::ClassDict;
use shiika_front::hir::{Hir, HirExpressionBase};
use shiika_front::names::{ClassFirstname, ClassFullname, MethodFullname, MethodFirstname, Namespace};
use shiika_front::sk::MethodSignature;
use shiika_front::stdlib::Stdlib;
use shiika_front::ty;
use shiika_front::convert_exprs::check_break_in_block;

fn stdlib_dict() -> ClassDict {
    ClassDict { sk_classes: Stdlib::create().sk_classes }
}

#[test]
fn meta_name_prefixes() {
    let c = ClassFullname(String::from("Foo::Bar"));
    assert_eq!(c.meta_name().0, "Meta:Foo::Bar");
}

#[test]
fn namespace_builds_fullnames() {
    let ns = Namespace::root().add(&ClassFirstname(String::from("Foo")));
    let full = ns.class_fullname(&ClassFirstname(String::from("Bar")));
    assert_eq!(full.0, "Foo::Bar");
    let top = Namespace::root().class_fullname(&ClassFirstname(String::from("Baz")));
    assert_eq!(top.0, "Baz");
}

#[test]
fn fullnames_of_type_terms() {
    assert_eq!(ty::raw("Int").fullname(), "Int");
    assert_eq!(ty::meta("Int").fullname(), "Meta:Int");
    let a = ty::spe("Array", vec![ty::raw("Int")]);
    assert_eq!(a.fullname(), "Array<Int>");
    let p = ty::spe("Pair", vec![ty::raw("Int"), ty::raw("Bool")]);
    assert_eq!(p.fullname(), "Pair<Int,Bool>");
    let m = ty::spe_meta("Array", vec![ty::raw("Int")]);
    assert_eq!(m.fullname(), "Meta:Array<Int>");
}

#[test]
fn equality_of_type_terms() {
    let a = ty::spe("Array", vec![ty::raw("Int")]);
    let b = ty::spe("Array", vec![ty::raw("Int")]);
    let c = ty::spe("Array", vec![ty::raw("Bool")]);
    assert!(a.equals_to(&b));
    assert!(!a.equals_to(&c));
    assert!(!a.equals_to(&ty::raw("Array")));
}

#[test]
fn substitution_replaces_type_parameters() {
    let t = ty::spe(
        "Array",
        vec![ty::typaram("T", ty::TyParamKind::Class, 0)],
    );
    let args = vec![ty::raw("Int")];
    let none: Vec<shiika_front::ty::TermTy> = vec![];
    let r = t.substitute(&args, &none);
    assert_eq!(r.fullname(), "Array<Int>");
}

#[test]
fn fn_x_info_extracts_the_return_type() {
    let f = ty::spe("Fn1", vec![ty::raw("Int"), ty::raw("Bool")]);
    let r = f.fn_x_info().expect("a lambda type");
    assert_eq!(r.fullname(), "Bool");
    assert!(ty::raw("Fn1").fn_x_info().is_none());
    let wrong = ty::spe("Fn2", vec![ty::raw("Int"), ty::raw("Bool")]);
    assert!(wrong.fn_x_info().is_none());
}

#[test]
fn nca_of_a_type_with_itself() {
    let dict = stdlib_dict();
    let t = ty::raw("Int");
    let r = dict.nearest_common_ancestor(&t, &t).expect("nca");
    assert!(r.equals_to(&t));
}

#[test]
fn nca_of_int_and_float_is_numeric() {
    let dict = stdlib_dict();
    let r = dict
        .nearest_common_ancestor(&ty::raw("Int"), &ty::raw("Float"))
        .expect("nca");
    assert_eq!(r.fullname(), "Numeric");
    let r2 = dict
        .nearest_common_ancestor(&ty::raw("Float"), &ty::raw("Int"))
        .expect("nca");
    assert_eq!(r2.fullname(), "Numeric");
}

#[test]
fn nca_unifies_generic_arguments_to_object() {
    let dict = stdlib_dict();
    let a = ty::spe("Array", vec![ty::raw("Int")]);
    let b = ty::spe("Array", vec![ty::raw("Bool")]);
    let r = dict.nearest_common_ancestor(&a, &b).expect("nca");
    assert_eq!(r.fullname(), "Array<Object>");
}

#[test]
fn conformance_follows_the_ancestor_chain() {
    let dict = stdlib_dict();
    assert!(dict.conforms_to(&ty::raw("Int"), &ty::raw("Numeric")));
    assert!(dict.conforms_to(&ty::raw("Int"), &ty::raw("Object")));
    assert!(!dict.conforms_to(&ty::raw("Numeric"), &ty::raw("Int")));
    assert!(dict.conforms_to(&ty::raw("Never"), &ty::raw("Int")));
}

#[test]
fn break_in_a_value_returning_block_is_rejected() {
    let lambda = Hir::lambda_expr(
        ty::spe("Fn0", vec![ty::raw("Never")]),
        String::from("lambda_1_in_test"),
        vec![],
        shiika_front::hir::HirExpressions::new(vec![]),
        vec![],
        vec![],
        true,
    );
    let sig = MethodSignature {
        fullname: MethodFullname {
            full_name: String::from("List#map"),
            first_name: MethodFirstname(String::from("map")),
        },
        ret_ty: ty::raw("Int"),
        params: vec![],
        typarams: vec![],
    };
    let err = match check_break_in_block(&sig, lambda) {
        Err(e) => e,
        Ok(_) => panic!("expected an error"),
    };
    assert!(matches!(err.kind, shiika_front::error::ErrorKind::ProgramError));
}

#[test]
fn break_in_a_void_block_rewrites_its_type() {
    let lambda = Hir::lambda_expr(
        ty::spe("Fn0", vec![ty::raw("Never")]),
        String::from("lambda_1_in_test"),
        vec![],
        shiika_front::hir::HirExpressions::new(vec![]),
        vec![],
        vec![],
        true,
    );
    let sig = MethodSignature {
        fullname: MethodFullname {
            full_name: String::from("List#each"),
            first_name: MethodFirstname(String::from("each")),
        },
        ret_ty: ty::raw("Void"),
        params: vec![],
        typarams: vec![],
    };
    let fixed = check_break_in_block(&sig, lambda).expect("allowed");
    match fixed.node {
        HirExpressionBase::HirLambdaExpr { ret_ty, has_break, .. } => {
            assert_eq!(ret_ty.fullname(), "Void");
            assert!(has_break);
        }
        _ => panic!("expected a lambda node"),
    }
}

#[test]
fn accessor_name_strips_the_at_sign() {
    let iv = shiika_front::sk::SkIVar {
        idx: 0,
        name: String::from("@count"),
        ty: ty::raw("Int"),
        readonly: true,
    };
    assert_eq!(iv.accessor_name(), "count");
}
