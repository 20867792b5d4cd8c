//! Lowering expressions into typed HIR.

use shiika_front::ast::{
    AstExpression, AstExpressionBody, AstMethodSignature, ConstName, Definition, EnumCase, Param,
    Program, PseudoVar, Typ,
};
use shiika_front::class_dict::ClassDict;
use shiika_front::error::ErrorKind;
use shiika_front::hir::{Hir, HirExpressionBase, HirLambdaCapture, SkMethodBody};
use shiika_front::hir_maker::HirMaker;
use shiika_front::names::{ClassFirstname, ConstFullname, MethodFirstname};
use shiika_front::stdlib::Stdlib;

fn expr(body: AstExpressionBody) -> AstExpression {
    AstExpression { body }
}

fn expect_err(
    r: Result<shiika_front::hir::HirExpression, shiika_front::error::Error>,
) -> shiika_front::error::Error {
    match r {
        Err(e) => e,
        Ok(_) => panic!("expected an error"),
    }
}

fn truth() -> AstExpression {
    expr(AstExpressionBody::PseudoVariable { token: PseudoVar::True })
}

fn int_lit(n: i32) -> AstExpression {
    expr(AstExpressionBody::DecimalLiteral { value: n })
}

fn fresh_maker() -> HirMaker {
    let stdlib = Stdlib::create();
    let dict = ClassDict { sk_classes: stdlib.sk_classes };
    let mut maker = HirMaker::new(dict, stdlib.imported_constants);
    maker.register_class_consts();
    maker
}

fn typ(name: &str) -> Typ {
    Typ { name: String::from(name), args: vec![] }
}

fn method_def(name: &str, params: Vec<Param>, ret: &str, body: Vec<AstExpression>) -> Definition {
    Definition::InstanceMethodDefinition {
        sig: AstMethodSignature {
            name: MethodFirstname(String::from(name)),
            params,
            ret_typ: typ(ret),
            typarams: vec![],
        },
        body_exprs: body,
    }
}

fn class_def(name: &str, defs: Vec<Definition>) -> Definition {
    Definition::ClassDefinition {
        name: ClassFirstname(String::from(name)),
        typarams: vec![],
        superclass: None,
        defs,
    }
}

fn ivar_assign(name: &str, rhs: AstExpression) -> AstExpression {
    expr(AstExpressionBody::IVarAssign {
        name: String::from(name),
        rhs: Box::new(rhs),
        is_var: false,
    })
}

fn lvar_assign(name: &str, rhs: AstExpression, is_var: bool) -> AstExpression {
    expr(AstExpressionBody::LVarAssign {
        name: String::from(name),
        rhs: Box::new(rhs),
        is_var,
    })
}

#[test]
fn decimal_literal_is_an_int() {
    let mut maker = fresh_maker();
    let e = maker.convert_expr(&int_lit(7)).unwrap();
    assert_eq!(e.ty.fullname(), "Int");
    assert!(matches!(e.node, HirExpressionBase::HirDecimalLiteral { value: 7 }));
}

#[test]
fn string_literal_is_interned() {
    let mut maker = fresh_maker();
    let e = maker
        .convert_expr(&expr(AstExpressionBody::StringLiteral {
            content: String::from("hi"),
        }))
        .unwrap();
    assert_eq!(e.ty.fullname(), "String");
    assert!(matches!(e.node, HirExpressionBase::HirStringLiteral { idx: 0 }));
    assert_eq!(maker.str_literals.len(), 1);
    assert_eq!(maker.str_literals[0], "hi");
}

#[test]
fn if_without_else_is_void() {
    let mut maker = fresh_maker();
    let e = maker
        .convert_expr(&expr(AstExpressionBody::If {
            cond_expr: Box::new(truth()),
            then_exprs: vec![int_lit(1)],
            else_exprs: None,
        }))
        .unwrap();
    assert_eq!(e.ty.fullname(), "Void");
    match e.node {
        HirExpressionBase::HirIfExpression { then_exprs, else_exprs, .. } => {
            // The then branch was voidified; the missing else is Void too.
            assert_eq!(then_exprs.ty.fullname(), "Void");
            assert_eq!(else_exprs.ty.fullname(), "Void");
        }
        _ => panic!("expected an if node"),
    }
}

#[test]
fn if_condition_must_be_bool() {
    let mut maker = fresh_maker();
    let err = expect_err(maker.convert_expr(&expr(AstExpressionBody::If {
        cond_expr: Box::new(int_lit(1)),
        then_exprs: vec![int_lit(1)],
        else_exprs: Some(vec![int_lit(2)]),
    })));
    assert!(matches!(err.kind, ErrorKind::TypeError));
}

#[test]
fn empty_array_literal_is_array_of_object() {
    let mut maker = fresh_maker();
    let e = maker
        .convert_expr(&expr(AstExpressionBody::ArrayLiteral { exprs: vec![] }))
        .unwrap();
    assert_eq!(e.ty.fullname(), "Array<Object>");
}

#[test]
fn array_literal_of_ints() {
    let mut maker = fresh_maker();
    let e = maker
        .convert_expr(&expr(AstExpressionBody::ArrayLiteral {
            exprs: vec![int_lit(1), int_lit(2)],
        }))
        .unwrap();
    assert_eq!(e.ty.fullname(), "Array<Int>");
}

#[test]
fn break_outside_a_loop_is_rejected() {
    let mut maker = fresh_maker();
    let err = expect_err(maker.convert_expr(&expr(AstExpressionBody::Break)));
    assert!(matches!(err.kind, ErrorKind::ProgramError));
}

#[test]
fn break_inside_while_is_accepted() {
    let mut maker = fresh_maker();
    let e = maker
        .convert_expr(&expr(AstExpressionBody::While {
            cond_expr: Box::new(truth()),
            body_exprs: vec![expr(AstExpressionBody::Break)],
        }))
        .unwrap();
    assert_eq!(e.ty.fullname(), "Void");
}

#[test]
fn break_inside_fn_lambda_is_rejected() {
    let mut maker = fresh_maker();
    let err = expect_err(maker.convert_expr(&expr(AstExpressionBody::LambdaExpr {
        params: vec![],
        exprs: vec![expr(AstExpressionBody::Break)],
        is_fn: true,
    })));
    assert!(matches!(err.kind, ErrorKind::ProgramError));
}

#[test]
fn return_inside_block_in_method_is_rejected() {
    let prog = Program {
        toplevel_defs: vec![class_def(
            "A",
            vec![method_def(
                "m",
                vec![],
                "Void",
                vec![expr(AstExpressionBody::LambdaExpr {
                    params: vec![],
                    exprs: vec![expr(AstExpressionBody::Return { arg: None })],
                    is_fn: false,
                })],
            )],
        )],
        toplevel_exprs: vec![],
    };
    let err = match Hir::from_ast(prog, Stdlib::create()) {
        Err(e) => e,
        Ok(_) => panic!("expected an error"),
    };
    assert!(matches!(err.kind, ErrorKind::ProgramError));
}

#[test]
fn var_redeclaration_is_rejected() {
    let prog = Program {
        toplevel_defs: vec![class_def(
            "A",
            vec![method_def(
                "m",
                vec![],
                "Void",
                vec![
                    lvar_assign("x", int_lit(1), false),
                    lvar_assign("x", int_lit(2), true),
                ],
            )],
        )],
        toplevel_exprs: vec![],
    };
    let err = match Hir::from_ast(prog, Stdlib::create()) {
        Err(e) => e,
        Ok(_) => panic!("expected an error"),
    };
    assert!(matches!(err.kind, ErrorKind::ProgramError));
}

#[test]
fn readonly_ivar_outside_initialize_is_rejected() {
    let prog = Program {
        toplevel_defs: vec![class_def(
            "A",
            vec![
                method_def("initialize", vec![], "Void", vec![ivar_assign("x", int_lit(1))]),
                method_def("poke", vec![], "Void", vec![ivar_assign("x", int_lit(2))]),
            ],
        )],
        toplevel_exprs: vec![],
    };
    let err = match Hir::from_ast(prog, Stdlib::create()) {
        Err(e) => e,
        Ok(_) => panic!("expected an error"),
    };
    assert!(matches!(err.kind, ErrorKind::ProgramError));
}

#[test]
fn inherited_ivar_keeps_its_slot() {
    let sub = Definition::ClassDefinition {
        name: ClassFirstname(String::from("B")),
        typarams: vec![],
        superclass: Some(ConstName { names: vec![String::from("A")], args: vec![] }),
        defs: vec![method_def(
            "initialize",
            vec![],
            "Void",
            vec![ivar_assign("x", int_lit(2)), ivar_assign("y", int_lit(3))],
        )],
    };
    let prog = Program {
        toplevel_defs: vec![
            class_def(
                "A",
                vec![method_def("initialize", vec![], "Void", vec![ivar_assign("x", int_lit(1))])],
            ),
            sub,
        ],
        toplevel_exprs: vec![],
    };
    let hir = Hir::from_ast(prog, Stdlib::create()).expect("compile");
    let b = hir.sk_classes.get(&String::from("B")).unwrap();
    let x = b.ivars.get(&String::from("x")).expect("x");
    assert_eq!(x.idx, 0);
    let y = b.ivars.get(&String::from("y")).expect("y");
    assert_eq!(y.idx, 1);
}

#[test]
fn capture_ladder_forwards_through_the_outer_lambda() {
    let inner = expr(AstExpressionBody::LambdaExpr {
        params: vec![],
        exprs: vec![expr(AstExpressionBody::BareName { name: String::from("x") })],
        is_fn: true,
    });
    let outer = expr(AstExpressionBody::LambdaExpr {
        params: vec![],
        exprs: vec![inner],
        is_fn: true,
    });
    let prog = Program {
        toplevel_defs: vec![class_def(
            "A",
            vec![method_def(
                "m",
                vec![],
                "Void",
                vec![lvar_assign("x", int_lit(1), false), outer],
            )],
        )],
        toplevel_exprs: vec![],
    };
    let hir = Hir::from_ast(prog, Stdlib::create()).expect("compile");
    let methods = hir.sk_methods.get(&String::from("A")).unwrap();
    let body = match &methods[0].body {
        SkMethodBody::ShiikaMethodBody { exprs } => exprs,
        _ => panic!("expected a lowered body"),
    };
    let outer_node = &body.exprs[1].node;
    match outer_node {
        HirExpressionBase::HirLambdaExpr { captures, exprs, .. } => {
            assert_eq!(captures.len(), 1);
            assert!(matches!(&captures[0], HirLambdaCapture::CaptureLVar { name } if name == "x"));
            match &exprs.exprs[0].node {
                HirExpressionBase::HirLambdaExpr { captures: inner_caps, .. } => {
                    assert_eq!(inner_caps.len(), 1);
                    assert!(matches!(
                        &inner_caps[0],
                        HirLambdaCapture::CaptureFwd { cidx: 0, .. }
                    ));
                }
                _ => panic!("expected the inner lambda"),
            }
        }
        _ => panic!("expected the outer lambda"),
    }
}

#[test]
fn lazy_specialization_registers_the_metaclass() {
    let mut maker = fresh_maker();
    let e = maker
        .convert_expr(&expr(AstExpressionBody::ConstRef {
            name: ConstName {
                names: vec![String::from("Array")],
                args: vec![ConstName { names: vec![String::from("Int")], args: vec![] }],
            },
        }))
        .unwrap();
    assert_eq!(e.ty.fullname(), "Meta:Array<Int>");
    assert!(maker
        .class_dict
        .lookup_class(&String::from("Meta:Array<Int>"))
        .is_some());
    assert!(maker
        .lookup_const(&ConstFullname(String::from("::Array<Int>")))
        .is_some());
    // A second reference reuses the cached constant.
    let e2 = maker
        .convert_expr(&expr(AstExpressionBody::ConstRef {
            name: ConstName {
                names: vec![String::from("Array")],
                args: vec![ConstName { names: vec![String::from("Int")], args: vec![] }],
            },
        }))
        .unwrap();
    assert_eq!(e2.ty.fullname(), "Meta:Array<Int>");
}

#[test]
fn constant_lookup_is_repeatable() {
    let maker = fresh_maker();
    let full = ConstFullname(String::from("::Int"));
    let t1 = maker.lookup_const(&full).expect("Int constant");
    let t2 = maker.lookup_const(&full).expect("Int constant");
    assert_eq!(t1.fullname(), t2.fullname());
    assert_eq!(t1.fullname(), "Meta:Int");
}

#[test]
fn new_returns_an_instance() {
    let prog = Program {
        toplevel_defs: vec![class_def("Cat", vec![])],
        toplevel_exprs: vec![expr(AstExpressionBody::MethodCall {
            receiver_expr: Some(Box::new(expr(AstExpressionBody::ConstRef {
                name: ConstName { names: vec![String::from("Cat")], args: vec![] },
            }))),
            method_name: MethodFirstname(String::from("new")),
            arg_exprs: vec![],
            type_args: vec![],
            primary: true,
            may_have_paren_wo_args: false,
        })],
    };
    let hir = Hir::from_ast(prog, Stdlib::create()).expect("compile");
    assert_eq!(hir.main_exprs.exprs.len(), 1);
    assert_eq!(hir.main_exprs.exprs[0].ty.fullname(), "Cat");
}

#[test]
fn while_condition_must_be_bool() {
    let mut maker = fresh_maker();
    let err = expect_err(maker.convert_expr(&expr(AstExpressionBody::While {
        cond_expr: Box::new(int_lit(3)),
        body_exprs: vec![],
    })));
    assert!(matches!(err.kind, ErrorKind::TypeError));
}

#[test]
fn logical_and_requires_bools() {
    let mut maker = fresh_maker();
    let ok = maker
        .convert_expr(&expr(AstExpressionBody::LogicalAnd {
            left: Box::new(truth()),
            right: Box::new(truth()),
        }))
        .unwrap();
    assert_eq!(ok.ty.fullname(), "Bool");
    let err = expect_err(maker.convert_expr(&expr(AstExpressionBody::LogicalOr {
        left: Box::new(truth()),
        right: Box::new(int_lit(1)),
    })));
    assert!(matches!(err.kind, ErrorKind::TypeError));
}

#[test]
fn unknown_bare_name_is_rejected() {
    let mut maker = fresh_maker();
    let err = expect_err(maker.convert_expr(&expr(AstExpressionBody::BareName {
        name: String::from("nothing_here"),
    })));
    assert!(matches!(err.kind, ErrorKind::ProgramError));
}

#[test]
fn calling_a_lambda_typed_local() {
    // f = fn() { 1 }; f() is a lambda invocation with the lambda's return type.
    let lambda = expr(AstExpressionBody::LambdaExpr {
        params: vec![],
        exprs: vec![int_lit(1)],
        is_fn: true,
    });
    let mut maker = fresh_maker();
    maker
        .convert_expr(&lvar_assign("f", lambda, false))
        .unwrap();
    let call = maker
        .convert_expr(&expr(AstExpressionBody::MethodCall {
            receiver_expr: None,
            method_name: MethodFirstname(String::from("f")),
            arg_exprs: vec![],
            type_args: vec![],
            primary: true,
            may_have_paren_wo_args: false,
        }))
        .unwrap();
    assert_eq!(call.ty.fullname(), "Int");
    assert!(matches!(call.node, HirExpressionBase::HirLambdaInvocation { .. }));
}

#[test]
fn lambda_type_is_fn_n() {
    let mut maker = fresh_maker();
    let e = maker
        .convert_expr(&expr(AstExpressionBody::LambdaExpr {
            params: vec![],
            exprs: vec![int_lit(1)],
            is_fn: true,
        }))
        .unwrap();
    assert_eq!(e.ty.fullname(), "Fn0<Int>");
}

#[test]
fn enum_case_superclass_is_the_enum() {
    let prog = Program {
        toplevel_defs: vec![Definition::EnumDefinition {
            name: ClassFirstname(String::from("Maybe")),
            typarams: vec![String::from("T")],
            cases: vec![
                EnumCase { name: ClassFirstname(String::from("Just")), params: vec![Param { name: String::from("v"), typ: typ("T") }] },
                EnumCase { name: ClassFirstname(String::from("None")), params: vec![] },
            ],
        }],
        toplevel_exprs: vec![],
    };
    let hir = Hir::from_ast(prog, Stdlib::create()).expect("compile");
    let just = hir.sk_classes.get(&String::from("Maybe::Just")).unwrap();
    assert_eq!(
        just.superclass.as_ref().unwrap().ty().fullname(),
        "Maybe<T>"
    );
    let none = hir.sk_classes.get(&String::from("Maybe::None")).unwrap();
    assert_eq!(
        none.superclass.as_ref().unwrap().ty().fullname(),
        "Maybe<Never>"
    );
}

#[test]
fn if_branches_are_cast_to_the_common_ancestor() {
    let animal = class_def("Animal", vec![]);
    let cat = Definition::ClassDefinition {
        name: ClassFirstname(String::from("Cat")),
        typarams: vec![],
        superclass: Some(ConstName { names: vec![String::from("Animal")], args: vec![] }),
        defs: vec![],
    };
    let dog = Definition::ClassDefinition {
        name: ClassFirstname(String::from("Dog")),
        typarams: vec![],
        superclass: Some(ConstName { names: vec![String::from("Animal")], args: vec![] }),
        defs: vec![],
    };
    let new_call = |cls: &str| {
        expr(AstExpressionBody::MethodCall {
            receiver_expr: Some(Box::new(expr(AstExpressionBody::ConstRef {
                name: ConstName { names: vec![String::from(cls)], args: vec![] },
            }))),
            method_name: MethodFirstname(String::from("new")),
            arg_exprs: vec![],
            type_args: vec![],
            primary: true,
            may_have_paren_wo_args: false,
        })
    };
    let prog = Program {
        toplevel_defs: vec![animal, cat, dog],
        toplevel_exprs: vec![expr(AstExpressionBody::If {
            cond_expr: Box::new(truth()),
            then_exprs: vec![new_call("Cat")],
            else_exprs: Some(vec![new_call("Dog")]),
        })],
    };
    let hir = Hir::from_ast(prog, Stdlib::create()).expect("compile");
    let if_expr = &hir.main_exprs.exprs[0];
    assert_eq!(if_expr.ty.fullname(), "Animal");
    match &if_expr.node {
        HirExpressionBase::HirIfExpression { then_exprs, else_exprs, .. } => {
            assert_eq!(then_exprs.ty.fullname(), "Animal");
            assert_eq!(else_exprs.ty.fullname(), "Animal");
            // Both branches end in a bit-cast of the original value.
            assert!(matches!(
                then_exprs.exprs.last().unwrap().node,
                HirExpressionBase::HirBitCast { .. }
            ));
            assert!(matches!(
                else_exprs.exprs.last().unwrap().node,
                HirExpressionBase::HirBitCast { .. }
            ));
        }
        _ => panic!("expected an if node"),
    }
}

#[test]
fn unknown_constant_is_a_name_error() {
    let mut maker = fresh_maker();
    let err = expect_err(maker.convert_expr(&expr(AstExpressionBody::ConstRef {
        name: ConstName { names: vec![String::from("NoSuchConst")], args: vec![] },
    })));
    assert!(matches!(err.kind, ErrorKind::NameError));
}

#[test]
fn unknown_ivar_is_a_name_error() {
    let mut maker = fresh_maker();
    let err = expect_err(maker.convert_expr(&expr(AstExpressionBody::IVarRef {
        name: String::from("nope"),
    })));
    assert!(matches!(err.kind, ErrorKind::NameError));
    let err2 = expect_err(maker.convert_expr(&ivar_assign("nope", int_lit(1))));
    assert!(matches!(err2.kind, ErrorKind::NameError));
}

#[test]
fn lambdas_may_take_many_parameters() {
    let mut maker = fresh_maker();
    let params: Vec<Param> = (0..12)
        .map(|i| Param { name: format!("p{}", i), typ: typ("Int") })
        .collect();
    let e = maker
        .convert_expr(&expr(AstExpressionBody::LambdaExpr {
            params,
            exprs: vec![int_lit(1)],
            is_fn: true,
        }))
        .unwrap();
    assert!(e.ty.fullname().starts_with("Fn12<"));
}

#[test]
fn lazy_specialization_emits_a_constant_initializer() {
    let mut maker = fresh_maker();
    maker
        .convert_expr(&expr(AstExpressionBody::ConstRef {
            name: ConstName {
                names: vec![String::from("Array")],
                args: vec![ConstName { names: vec![String::from("Int")], args: vec![] }],
            },
        }))
        .unwrap();
    assert_eq!(maker.const_inits.len(), 1);
    assert_eq!(maker.const_inits[0].ty.fullname(), "Meta:Array<Int>");
    assert!(matches!(
        maker.const_inits[0].node,
        HirExpressionBase::HirClassLiteral { .. }
    ));
}
