//! Dictionary-side behavior: indexing classes and enums.

use shiika_front::ast::{AstMethodSignature, Definition, EnumCase, Param, Program, Typ};
use shiika_front::class_dict::ClassDict;
use shiika_front::names::{ClassFirstname, ClassFullname, MethodFirstname};
use shiika_front::stdlib::Stdlib;
use shiika_front::index::Index;

fn typ(name: &str) -> Typ {
    Typ { name: String::from(name), args: vec![] }
}

fn param(name: &str, t: &str) -> Param {
    Param { name: String::from(name), typ: typ(t) }
}

fn simple_sig(name: &str, params: Vec<Param>, ret: &str) -> AstMethodSignature {
    AstMethodSignature {
        name: MethodFirstname(String::from(name)),
        params,
        ret_typ: typ(ret),
        typarams: vec![],
    }
}

fn maybe_enum() -> Definition {
    Definition::EnumDefinition {
        name: ClassFirstname(String::from("Maybe")),
        typarams: vec![String::from("T")],
        cases: vec![
            EnumCase { name: ClassFirstname(String::from("Just")), params: vec![param("v", "T")] },
            EnumCase { name: ClassFirstname(String::from("None")), params: vec![] },
        ],
    }
}

fn dict_with(defs: Vec<Definition>) -> ClassDict {
    let stdlib = Stdlib::create();
    let mut dict = ClassDict { sk_classes: stdlib.sk_classes };
    dict.index_program(&defs).expect("indexing should succeed");
    dict
}

#[test]
fn enum_with_cases_is_registered() {
    let dict = dict_with(vec![maybe_enum()]);
    assert!(dict.lookup_class(&String::from("Maybe")).is_some());
    assert!(dict.lookup_class(&String::from("Meta:Maybe")).is_some());
    assert!(dict.lookup_class(&String::from("Maybe::Just")).is_some());
    assert!(dict.lookup_class(&String::from("Maybe::None")).is_some());
    let none = dict.lookup_class(&String::from("Maybe::None")).unwrap();
    assert!(none.const_is_obj);
    let just = dict.lookup_class(&String::from("Maybe::Just")).unwrap();
    assert!(!just.const_is_obj);
}

#[test]
fn enum_case_has_readonly_ivar_at_slot_zero() {
    let dict = dict_with(vec![maybe_enum()]);
    let iv = dict
        .find_ivar(&String::from("Maybe::Just"), &String::from("v"))
        .expect("ivar v");
    assert_eq!(iv.idx, 0);
    assert!(iv.readonly);
    assert_eq!(iv.name, "v");
}

#[test]
fn enum_case_has_getter_and_initialize_and_new() {
    let dict = dict_with(vec![maybe_enum()]);
    let just = dict.lookup_class(&String::from("Maybe::Just")).unwrap();
    let getter = just.method_sigs.get(&String::from("v")).expect("getter v");
    assert_eq!(getter.params.len(), 0);
    let init = just
        .method_sigs
        .get(&String::from("initialize"))
        .expect("initialize");
    assert_eq!(init.params.len(), 1);
    assert_eq!(init.params[0].name, "v");
    let meta = dict.lookup_class(&String::from("Meta:Maybe::Just")).unwrap();
    let new_sig = meta.method_sigs.get(&String::from("new")).expect("new");
    assert_eq!(new_sig.params.len(), 1);
    assert_eq!(new_sig.params[0].name, "v");
}

#[test]
fn class_new_mirrors_initialize_params() {
    let cls = Definition::ClassDefinition {
        name: ClassFirstname(String::from("Point")),
        typarams: vec![],
        superclass: None,
        defs: vec![Definition::InstanceMethodDefinition {
            sig: simple_sig("initialize", vec![param("x", "Int"), param("y", "Int")], "Void"),
            body_exprs: vec![],
        }],
    };
    let dict = dict_with(vec![cls]);
    let meta = dict.lookup_class(&String::from("Meta:Point")).unwrap();
    let new_sig = meta.method_sigs.get(&String::from("new")).expect("new");
    assert_eq!(new_sig.params.len(), 2);
    assert_eq!(new_sig.params[0].name, "x");
    assert_eq!(new_sig.params[1].name, "y");
    assert_eq!(new_sig.ret_ty.fullname(), "Point");
}

#[test]
fn unknown_superclass_is_a_name_error() {
    let cls = Definition::ClassDefinition {
        name: ClassFirstname(String::from("Foo")),
        typarams: vec![],
        superclass: Some(shiika_front::ast::ConstName {
            names: vec![String::from("NoSuchClass")],
            args: vec![],
        }),
        defs: vec![],
    };
    let stdlib = Stdlib::create();
    let mut dict = ClassDict { sk_classes: stdlib.sk_classes };
    let err = dict.index_program(&vec![cls]).unwrap_err();
    assert!(matches!(err.kind, shiika_front::error::ErrorKind::NameError));
}

#[test]
fn method_definition_at_toplevel_is_a_syntax_error() {
    let def = Definition::InstanceMethodDefinition {
        sig: simple_sig("oops", vec![], "Void"),
        body_exprs: vec![],
    };
    let stdlib = Stdlib::create();
    let mut dict = ClassDict { sk_classes: stdlib.sk_classes };
    let err = dict.index_program(&vec![def]).unwrap_err();
    assert!(matches!(err.kind, shiika_front::error::ErrorKind::SyntaxError));
}

#[test]
fn indexing_twice_yields_identical_dictionaries() {
    let d1 = dict_with(vec![maybe_enum()]);
    let d2 = dict_with(vec![maybe_enum()]);
    assert_eq!(d1.sk_classes.len(), d2.sk_classes.len());
    for i in 0..d1.sk_classes.len() {
        assert_eq!(d1.sk_classes.key_at(i), d2.sk_classes.key_at(i));
        let c1 = d1.sk_classes.val_at(i);
        let c2 = d2.sk_classes.val_at(i);
        assert_eq!(c1.fullname.0, c2.fullname.0);
        assert_eq!(c1.method_sigs.len(), c2.method_sigs.len());
        assert_eq!(c1.ivars.len(), c2.ivars.len());
        assert_eq!(c1.const_is_obj, c2.const_is_obj);
    }
}

#[test]
fn index_facade_finds_classes_and_methods() {
    let stdlib = Stdlib::create();
    let cls = Definition::ClassDefinition {
        name: ClassFirstname(String::from("Greeter")),
        typarams: vec![],
        superclass: None,
        defs: vec![Definition::InstanceMethodDefinition {
            sig: simple_sig("greet", vec![], "Void"),
            body_exprs: vec![],
        }],
    };
    let ix = Index::new(stdlib.sk_classes, &vec![cls]).expect("index");
    let full = ClassFullname(String::from("Greeter"));
    assert!(ix.find_class(&full).is_some());
    let sig = ix
        .find_method(&full, &MethodFirstname(String::from("greet")))
        .expect("greet");
    assert_eq!(sig.fullname.full_name, "Greeter#greet");
    assert!(ix.find_class(&ClassFullname(String::from("Nope"))).is_none());
}

#[test]
fn merging_a_known_class_extends_its_methods() {
    let stdlib = Stdlib::create();
    let mut dict = ClassDict { sk_classes: stdlib.sk_classes };
    let cls = Definition::ClassDefinition {
        name: ClassFirstname(String::from("Int")),
        typarams: vec![],
        superclass: None,
        defs: vec![Definition::InstanceMethodDefinition {
            sig: simple_sig("abs", vec![], "Int"),
            body_exprs: vec![],
        }],
    };
    dict.index_program(&vec![cls]).expect("merge");
    let int_cls = dict.lookup_class(&String::from("Int")).unwrap();
    assert!(int_cls.method_sigs.get(&String::from("abs")).is_some());
    // The superclass recorded at seeding time is kept.
    assert_eq!(
        int_cls.superclass.as_ref().unwrap().ty().fullname(),
        "Numeric"
    );
}

#[test]
fn float_class_record() {
    let f = shiika_front::stdlib::create_class();
    assert_eq!(f.fullname.0, "Float");
    assert!(f.foreign);
    assert!(f.method_sigs.get(&String::from("+")).is_some());
    assert!(f.method_sigs.get(&String::from("to_i")).is_some());
}

#[test]
fn from_ast_compiles_a_program() {
    let prog = Program {
        toplevel_defs: vec![maybe_enum()],
        toplevel_exprs: vec![],
    };
    let hir = shiika_front::hir::Hir::from_ast(prog, Stdlib::create()).expect("compile");
    assert!(hir.sk_classes.get(&String::from("Maybe::Just")).is_some());
    // Stdlib methods are attached to the finished program.
    assert!(hir.sk_methods.get(&String::from("Object")).is_some());
    assert_eq!(hir.main_exprs.exprs.len(), 0);
}

#[test]
fn every_class_has_a_companion_metaclass() {
    let point = Definition::ClassDefinition {
        name: ClassFirstname(String::from("Point")),
        typarams: vec![],
        superclass: None,
        defs: vec![],
    };
    let dict = dict_with(vec![maybe_enum(), point]);
    for i in 0..dict.sk_classes.len() {
        let name = dict.sk_classes.key_at(i);
        if !name.starts_with("Meta:") {
            let meta = format!("Meta:{}", name);
            assert!(
                dict.lookup_class(&meta).is_some(),
                "class {} has no companion metaclass",
                name
            );
        }
    }
}
