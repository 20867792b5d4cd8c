//! The bundled standard-library descriptor.
//!
//! The indexer is seeded with these classes; the bodies of their methods
//! are supplied by the backend, so every method here carries a
//! `RustMethodBody`.

use vstd::prelude::*;
use crate::hir::SkMethod;
use crate::hir::SkMethodBody;
use crate::names::ClassFullname;
use crate::names::method_fullname;
use crate::sk::MethodParam;
use crate::sk::MethodSignature;
use crate::sk::SkClass;
use crate::sk::SkIVar;
use crate::strmap::StrMap;
use crate::superclass::Superclass;
use crate::ty;
use crate::ty::TermTy;

verus! {

/// The standard-library descriptor: classes, methods, and the constants
/// visible to resolution.
pub struct Stdlib {
    pub sk_classes: StrMap<SkClass>,
    pub sk_methods: StrMap<Vec<SkMethod>>,
    pub imported_constants: StrMap<TermTy>,
}

/// A backend-implemented method with the given parameters.
fn rust_method(cls: &str, name: &str, params: Vec<MethodParam>, ret_ty: TermTy) -> (r: SkMethod) {
    let sig = MethodSignature {
        fullname: method_fullname(&ClassFullname(String::from_str(cls)), name),
        ret_ty,
        params,
        typarams: Vec::new(),
    };
    SkMethod { signature: sig, body: SkMethodBody::RustMethodBody }
}

fn one_param(name: &str, t: TermTy) -> (r: Vec<MethodParam>) {
    let mut v: Vec<MethodParam> = Vec::new();
    v.push(MethodParam { name: String::from_str(name), ty: t });
    v
}

/// The ivars every class object carries: its name.
fn class_ivars() -> (r: StrMap<SkIVar>) {
    let mut ivars: StrMap<SkIVar> = StrMap::new();
    ivars.insert(
        String::from_str("name"),
        SkIVar {
            idx: 0,
            name: String::from_str("name"),
            ty: ty::raw("String"),
            readonly: true,
        },
    );
    ivars
}

/// The `Float` class: its methods live in the backend.
pub fn create_class() -> (r: SkClass)
    ensures
        r@.fullname == "Float"@,
        r@.instance_ty == ty::raw_v("Float"@),
        r@.foreign,
{
    SkClass {
        fullname: ClassFullname(String::from_str("Float")),
        typarams: Vec::new(),
        superclass: Some(Superclass::simple("Numeric")),
        instance_ty: ty::raw("Float"),
        ivars: StrMap::new(),
        method_sigs: float_method_sigs(),
        const_is_obj: false,
        foreign: true,
    }
}

fn float_method_sigs() -> (r: StrMap<MethodSignature>) {
    let mut sigs: StrMap<MethodSignature> = StrMap::new();
    sigs.insert(
        String::from_str("+"),
        MethodSignature {
            fullname: method_fullname(&ClassFullname(String::from_str("Float")), "+"),
            ret_ty: ty::raw("Float"),
            params: one_param("other", ty::raw("Float")),
            typarams: Vec::new(),
        },
    );
    sigs.insert(
        String::from_str("to_i"),
        MethodSignature {
            fullname: method_fullname(&ClassFullname(String::from_str("Float")), "to_i"),
            ret_ty: ty::raw("Int"),
            params: Vec::new(),
            typarams: Vec::new(),
        },
    );
    sigs
}

/// The backend-implemented methods of `Object`.
pub fn create_methods() -> (r: Vec<SkMethod>) {
    let mut methods: Vec<SkMethod> = Vec::new();
    methods.push(
        rust_method("Object", "putchar", one_param("ord", ty::raw("Int")), ty::raw("Void")),
    );
    methods
}

/// The backend-implemented class methods of `Shiika::Internal::Memory`.
pub fn create_class_methods() -> (r: Vec<SkMethod>) {
    let mut methods: Vec<SkMethod> = Vec::new();
    methods.push(
        rust_method(
            "Meta:Shiika::Internal::Memory",
            "gc_malloc",
            one_param("n_bytes", ty::raw("Int")),
            ty::raw("Shiika::Internal::Ptr"),
        ),
    );
    let mut realloc_params = one_param("ptr", ty::raw("Shiika::Internal::Ptr"));
    realloc_params.push(MethodParam { name: String::from_str("n_bytes"), ty: ty::raw("Int") });
    methods.push(
        rust_method(
            "Meta:Shiika::Internal::Memory",
            "gc_realloc",
            realloc_params,
            ty::raw("Shiika::Internal::Ptr"),
        ),
    );
    methods
}

/// Insert a class, keeping the builtin `Class` entry in place.
fn insert_keeping_class(sk_classes: &mut StrMap<SkClass>, key: String, cls: SkClass)
    requires
        crate::strmap::spec_contains(old(sk_classes)@, "Class"@),
    ensures
        crate::strmap::spec_contains(final(sk_classes)@, "Class"@),
{
    let ghost d0 = sk_classes@;
    let ghost kv = key@;
    let ghost cv = cls@;
    sk_classes.insert(key, cls);
    proof {
        crate::strmap::lemma_get_insert(d0, kv, cv, "Class"@);
    }
}

/// A plain class record with no ivars and no methods yet.
fn plain_class(name: &str, superclass_name: Option<&str>, const_is_obj: bool) -> (r: SkClass) {
    SkClass {
        fullname: ClassFullname(String::from_str(name)),
        typarams: Vec::new(),
        superclass: match superclass_name {
            Some(s) => Some(Superclass::simple(s)),
            None => None,
        },
        instance_ty: ty::raw(name),
        ivars: StrMap::new(),
        method_sigs: StrMap::new(),
        const_is_obj,
        foreign: false,
    }
}

/// The companion metaclass of a seeded class, with a parameterless `new`.
fn meta_of(name: &str) -> (r: SkClass) {
    let fullname = ClassFullname(String::from_str(name)).meta_name();
    let mut sigs: StrMap<MethodSignature> = StrMap::new();
    sigs.insert(
        String::from_str("new"),
        MethodSignature {
            fullname: method_fullname(&fullname, "new"),
            ret_ty: ty::raw(name),
            params: Vec::new(),
            typarams: Vec::new(),
        },
    );
    SkClass {
        fullname,
        typarams: Vec::new(),
        superclass: Some(Superclass::simple("Class")),
        instance_ty: ty::meta(name),
        ivars: class_ivars(),
        method_sigs: sigs,
        const_is_obj: false,
        foreign: false,
    }
}

impl Stdlib {
    /// The bundled descriptor: the core classes, their metaclasses, the
    /// backend methods, and one constant per class.  The builtin `Class`,
    /// which every metaclass derives from, is always among them.
    pub fn create() -> (r: Stdlib)
        ensures
            crate::strmap::spec_contains(r.sk_classes@, "Class"@),
    {
        let mut sk_classes: StrMap<SkClass> = StrMap::new();
        let mut imported_constants: StrMap<TermTy> = StrMap::new();
        let names: Vec<String> = {
            let mut v: Vec<String> = Vec::new();
            v.push(String::from_str("Object"));
            v.push(String::from_str("Class"));
            v.push(String::from_str("Void"));
            v.push(String::from_str("Never"));
            v.push(String::from_str("Bool"));
            v.push(String::from_str("Int"));
            v.push(String::from_str("String"));
            v.push(String::from_str("Numeric"));
            v
        };
        let n = names.len();
        for i in 0..n
            invariant
                n == names@.len(),
        {
            let name = names[i].as_str();
            let sup = if i == 0 {
                None
            } else {
                Some("Object")
            };
            let cls = plain_class(name, sup, false);
            sk_classes.insert(String::from_str(name), cls);
            let meta = meta_of(name);
            sk_classes.insert(meta.fullname.0.clone(), meta);
            let mut const_name = String::from_str("::");
            const_name.append(name);
            imported_constants.insert(const_name, ty::meta(name));
        }
        // `Class` carries the name of the class object.
        let mut class_cls = plain_class("Class", Some("Object"), false);
        class_cls.ivars = class_ivars();
        let ghost class_key = "Class"@;
        let ghost clsv = class_cls@;
        let ghost d0 = sk_classes@;
        sk_classes.insert(String::from_str("Class"), class_cls);
        proof {
            crate::strmap::lemma_get_insert(d0, class_key, clsv, class_key);
        }
        // `Int` and `Float` sit under `Numeric`.
        insert_keeping_class(&mut sk_classes, String::from_str("Int"), plain_class("Int", Some("Numeric"), false));
        let float_cls = create_class();
        insert_keeping_class(&mut sk_classes, String::from_str("Float"), float_cls);
        insert_keeping_class(&mut sk_classes, String::from_str("Meta:Float"), meta_of("Float"));
        imported_constants.insert(String::from_str("::Float"), ty::meta("Float"));
        // `Void` is a singleton: its bare name denotes the unique instance.
        insert_keeping_class(&mut sk_classes, String::from_str("Void"), plain_class("Void", Some("Object"), true));
        imported_constants.insert(String::from_str("::Void"), ty::raw("Void"));
        // The generic `Array<T>`.
        let mut ary = plain_class("Array", Some("Object"), false);
        ary.typarams = {
            let mut tp: Vec<crate::ty::TyParam> = Vec::new();
            tp.push(crate::ty::TyParam { name: String::from_str("T") });
            tp
        };
        insert_keeping_class(&mut sk_classes, String::from_str("Array"), ary);
        insert_keeping_class(&mut sk_classes, String::from_str("Meta:Array"), meta_of("Array"));
        imported_constants.insert(String::from_str("::Array"), ty::meta("Array"));
        let mut sk_methods: StrMap<Vec<SkMethod>> = StrMap::new();
        sk_methods.insert(String::from_str("Object"), create_methods());
        sk_methods.insert(String::from_str("Meta:Shiika::Internal::Memory"), create_class_methods());
        Stdlib { sk_classes, sk_methods, imported_constants }
    }
}

} // verus!
