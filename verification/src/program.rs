//! Lowering a whole program.
//!
//! After indexing, each method body is lowered in declaration order, nested
//! definitions before siblings; the toplevel expressions become the main
//! expression sequence.

use vstd::prelude::*;
use crate::ast::Definition;
use crate::ast::Program;
use crate::ast::dseq;
use crate::ast::lemma_dseq_elem;
use crate::class_dict::ClassDict;
use crate::error::Error;
use crate::error::bug;
use crate::error::msg3;
use crate::hir::Hir;
use crate::hir::HirExpression;
use crate::hir::HirExpressions;
use crate::hir::SkMethod;
use crate::hir::SkMethodBody;
use crate::hir_maker::CtxKind;
use crate::hir_maker::HirMaker;
use crate::hir_maker::MethodCtx;
use crate::hir_maker::ctx_captures_wf;
use crate::names::ClassFullname;
use crate::names::ClassFirstname;
use crate::names::Namespace;
use crate::signature::typaram_names;
use crate::stdlib::Stdlib;
use crate::strmap::DupView;
use crate::strmap::spec_contains;
use crate::strmap::StrMap;

verus! {

impl HirMaker {
    /// Lower every method body under the toplevel definitions.
    pub fn convert_program(&mut self, toplevel_defs: &Vec<Definition>) -> (r: Result<
        StrMap<Vec<SkMethod>>,
        Error,
    >)
        requires
            ctx_captures_wf(old(self).ctx.lambdas@),
            old(self).ctx.lambdas@.len() == 0,
        ensures
            ctx_captures_wf(final(self).ctx.lambdas@),
            final(self).ctx.lambdas@.len() == 0,
            toplevel_defs@.len() == 0 ==> (r matches Ok(m) && m@.len() == 0 && *final(self)
                == *old(self)),
    {
        let mut methods: StrMap<Vec<SkMethod>> = StrMap::new();
        let root = Namespace::root();
        let n = toplevel_defs.len();
        for i in 0..n
            invariant
                n == toplevel_defs@.len(),
                ctx_captures_wf(self.ctx.lambdas@),
                self.ctx.lambdas@.len() == 0,
                root@.len() == 0,
                n == 0 ==> *self == *old(self),
                n == 0 ==> methods@ == Seq::<(Seq<char>, Seq<SkMethod>)>::empty(),
        {
            if let Definition::ClassDefinition { name, typarams, defs, .. } = &toplevel_defs[i] {
                proof {
                    lemma_dseq_elem(toplevel_defs@, i as int);
                }
                match self.convert_class_methods(&root, name, typarams, defs, &mut methods) {
                    Ok(()) => {},
                    Err(e) => {
                        return Err(e);
                    },
                }
            }
        }
        Ok(methods)
    }

    /// Lower the methods of one class definition, recursing into nested
    /// classes.
    fn convert_class_methods(
        &mut self,
        namespace: &Namespace,
        firstname: &ClassFirstname,
        typarams: &Vec<String>,
        defs: &Vec<Definition>,
        methods: &mut StrMap<Vec<SkMethod>>,
    ) -> (r: Result<(), Error>)
        requires
            ctx_captures_wf(old(self).ctx.lambdas@),
            old(self).ctx.lambdas@.len() == 0,
        ensures
            ctx_captures_wf(final(self).ctx.lambdas@),
            final(self).ctx.lambdas@.len() == 0,
        decreases dseq(defs@),
    {
        let fullname = namespace.class_fullname(firstname);
        let metaclass_fullname = fullname.meta_name();
        let inner_namespace = namespace.add(firstname);
        let mut instance_methods: Vec<SkMethod> = Vec::new();
        let mut class_methods: Vec<SkMethod> = Vec::new();
        let n = defs.len();
        for i in 0..n
            invariant
                n == defs@.len(),
                ctx_captures_wf(self.ctx.lambdas@),
                self.ctx.lambdas@.len() == 0,
            decreases dseq(defs@), n - i,
        {
            match &defs[i] {
                Definition::InstanceMethodDefinition { sig, body_exprs } => {
                    let m = match self.convert_method_def(
                        &fullname,
                        &sig.name.0,
                        body_exprs,
                        typarams,
                        false,
                    ) {
                        Ok(m) => m,
                        Err(e) => {
                            return Err(e);
                        },
                    };
                    instance_methods.push(m);
                },
                Definition::ClassMethodDefinition { sig, body_exprs } => {
                    let m = match self.convert_method_def(
                        &fullname,
                        &sig.name.0,
                        body_exprs,
                        typarams,
                        true,
                    ) {
                        Ok(m) => m,
                        Err(e) => {
                            return Err(e);
                        },
                    };
                    class_methods.push(m);
                },
                Definition::ClassDefinition { name, typarams: tp2, defs: defs2, .. } => {
                    proof {
                        lemma_dseq_elem(defs@, i as int);
                    }
                    match self.convert_class_methods(
                        &inner_namespace,
                        name,
                        tp2,
                        defs2,
                        methods,
                    ) {
                        Ok(()) => {},
                        Err(e) => {
                            return Err(e);
                        },
                    }
                },
                _ => {},
            }
        }
        methods.insert(fullname.0.clone(), instance_methods);
        methods.insert(metaclass_fullname.0.clone(), class_methods);
        Ok(())
    }

    /// Lower one method body against its registered signature.
    fn convert_method_def(
        &mut self,
        class_fullname: &ClassFullname,
        method_name: &String,
        body_exprs: &Vec<crate::ast::AstExpression>,
        class_typarams: &Vec<String>,
        is_class_method: bool,
    ) -> (r: Result<SkMethod, Error>)
        requires
            ctx_captures_wf(old(self).ctx.lambdas@),
            old(self).ctx.lambdas@.len() == 0,
        ensures
            ctx_captures_wf(final(self).ctx.lambdas@),
            final(self).ctx.lambdas@.len() == 0,
            r matches Ok(m) ==> (m.body matches SkMethodBody::ShiikaMethodBody { .. }) && ({
                let owner_name = if is_class_method {
                    crate::names::meta_name_seq(class_fullname@)
                } else {
                    class_fullname@
                };
                match crate::strmap::spec_get(old(self).class_dict.sk_classes@, owner_name) {
                    Some(c) => crate::strmap::spec_get(c.method_sigs, method_name@) == Some(
                        m.signature@,
                    ),
                    None => false,
                }
            }),
            ({
                let owner_name = if is_class_method {
                    crate::names::meta_name_seq(class_fullname@)
                } else {
                    class_fullname@
                };
                match crate::strmap::spec_get(old(self).class_dict.sk_classes@, owner_name) {
                    Some(c) => crate::strmap::spec_contains(c.method_sigs, method_name@),
                    None => false,
                }
            }) && body_exprs@.len() == 0 ==> r is Ok,
    {
        let owner = if is_class_method {
            class_fullname.meta_name()
        } else {
            class_fullname.clone()
        };
        let (sig, super_ivars) = {
            let cls = match self.class_dict.lookup_class(&owner.0) {
                Some(c) => c,
                None => {
                    return Err(bug(msg3("class `", owner.0.as_str(), "' is not indexed")));
                },
            };
            let sig = match cls.method_sigs.get(method_name) {
                Some(s) => s.dup(),
                None => {
                    return Err(
                        bug(msg3("method `", method_name.as_str(), "' is not indexed")),
                    );
                },
            };
            let super_base = match &cls.superclass {
                Some(s) => Some(self.class_dict.base_name_of_exec(s.ty())),
                None => None,
            };
            let super_ivars = match super_base {
                Some(b) => match self.class_dict.lookup_class(&b) {
                    Some(sc) => sc.ivars.dup(),
                    None => StrMap::new(),
                },
                None => StrMap::new(),
            };
            (sig, super_ivars)
        };
        let method_typarams = typaram_names(&sig.typarams);
        self.ctx.method = Some(
            MethodCtx {
                signature: sig.dup(),
                lvars: StrMap::new(),
                super_ivars,
                iivars: StrMap::new(),
            },
        );
        self.ctx.current = CtxKind::Method;
        self.ctx.self_ty = if is_class_method {
            crate::ty::meta(class_fullname.0.as_str())
        } else {
            crate::ty::raw(class_fullname.0.as_str())
        };
        let mut old_typarams: Vec<String> = Vec::new();
        let ct = class_typarams.len();
        for i in 0..ct
            invariant
                ct == class_typarams@.len(),
                ctx_captures_wf(self.ctx.lambdas@),
                self.ctx.lambdas@.len() == 0,
        {
            old_typarams.push(class_typarams[i].clone());
        }
        self.ctx.typarams = old_typarams;
        self.ctx.method_typarams = method_typarams;
        let body = self.convert_exprs(body_exprs);
        let exprs = match body {
            Ok(h) => h,
            Err(e) => {
                self.reset_to_toplevel();
                return Err(e);
            },
        };
        // `initialize` fixes the class's ivar layout: the inherited ivars
        // followed by the newly declared ones.
        if !is_class_method && method_name.eq(&String::from_str("initialize")) {
            let merged = match &self.ctx.method {
                Some(mc) => {
                    let mut merged = mc.super_ivars.dup();
                    let kn = mc.iivars.len();
                    let iv = mc.iivars.dup();
                    for i in 0..kn
                        invariant
                            kn == iv@.len(),
                    {
                        merged.insert(iv.key_at(i).clone(), iv.val_at(i).dup());
                    }
                    merged
                },
                None => StrMap::new(),
            };
            if self.class_dict.sk_classes.contains_key(&class_fullname.0) {
                self.class_dict.define_ivars(class_fullname, merged);
            }
        }
        self.reset_to_toplevel();
        Ok(SkMethod { signature: sig, body: SkMethodBody::ShiikaMethodBody { exprs } })
    }

    /// Leave any method frame: back to the toplevel environment.
    fn reset_to_toplevel(&mut self)
        requires
            ctx_captures_wf(old(self).ctx.lambdas@),
        ensures
            ctx_captures_wf(final(self).ctx.lambdas@),
            final(self).ctx.lambdas@.len() == old(self).ctx.lambdas@.len(),
            final(self).ctx.current == CtxKind::Toplevel,
            final(self).ctx.method is None,
    {
        self.ctx.method = None;
        self.ctx.current = CtxKind::Toplevel;
        self.ctx.self_ty = crate::ty::raw("Object");
        self.ctx.typarams = Vec::new();
        self.ctx.method_typarams = Vec::new();
    }
}

impl Hir {
    /// Compile a parsed program over the standard library: index every
    /// definition, lower every method, then lower the toplevel
    /// expressions.
    pub fn from_ast(prog: Program, stdlib: Stdlib) -> (r: Result<Hir, Error>)
        ensures
            crate::indexing::sp_index_program(stdlib.sk_classes@, prog.toplevel_defs@) matches Err(
                k,
            ) ==> (r matches Err(e) && e@.kind == k),
            r is Ok ==> crate::indexing::sp_index_program(
                stdlib.sk_classes@,
                prog.toplevel_defs@,
            ) is Ok,
            prog.toplevel_defs@.len() == 0 && prog.toplevel_exprs@.len() == 0 ==> r is Ok,
    {
        let mut class_dict = ClassDict { sk_classes: stdlib.sk_classes };
        match class_dict.index_program(&prog.toplevel_defs) {
            Ok(()) => {},
            Err(e) => {
                return Err(e);
            },
        }
        let mut maker = HirMaker::new(class_dict, stdlib.imported_constants);
        maker.register_class_consts();
        let sk_methods = match maker.convert_program(&prog.toplevel_defs) {
            Ok(m) => m,
            Err(e) => {
                return Err(e);
            },
        };
        let mut main: Vec<HirExpression> = Vec::new();
        let cn = prog.toplevel_defs.len();
        for i in 0..cn
            invariant
                cn == prog.toplevel_defs@.len(),
                ctx_captures_wf(maker.ctx.lambdas@),
                crate::indexing::sp_index_program(stdlib.sk_classes@, prog.toplevel_defs@) is Ok,
        {
            if let Definition::ConstDefinition { names, expr } = &prog.toplevel_defs[i] {
                match maker.convert_const_assign(names, expr) {
                    Ok(e) => {
                        main.push(e);
                    },
                    Err(e) => {
                        return Err(e);
                    },
                }
            }
        }
        let tn = prog.toplevel_exprs.len();
        for i in 0..tn
            invariant
                tn == prog.toplevel_exprs@.len(),
                ctx_captures_wf(maker.ctx.lambdas@),
                crate::indexing::sp_index_program(stdlib.sk_classes@, prog.toplevel_defs@) is Ok,
        {
            match maker.convert_expr(&prog.toplevel_exprs[i]) {
                Ok(e) => {
                    main.push(e);
                },
                Err(e) => {
                    return Err(e);
                },
            }
        }
        let main_exprs = HirExpressions::new(main);
        let mut hir = Hir {
            sk_classes: maker.class_dict.sk_classes,
            sk_methods,
            constants: maker.constants,
            const_inits: maker.const_inits,
            main_exprs,
            str_literals: maker.str_literals,
        };
        // Stdlib classes are already indexed; their methods are attached
        // here.
        hir.add_methods(stdlib.sk_methods);
        Ok(hir)
    }
}

} // verus!

verus! {

/// Whether the text contains the character `c`.
pub open spec fn sp_has_char(s: Seq<char>, c: char) -> bool {
    exists|i: int| 0 <= i < s.len() && s[i] == c
}

/// Whether the text starts with the `Meta:` prefix.
pub open spec fn sp_starts_with_meta(s: Seq<char>) -> bool {
    s.len() >= 5 && s.subrange(0, 5) == "Meta:"@
}

/// Whether `s` contains the character `c`.
fn has_char(s: &str, c: char) -> (r: bool)
    ensures
        r == sp_has_char(s@, c),
{
    let n = s.unicode_len();
    for i in 0..n
        invariant
            n == s@.len(),
            forall|j: int| 0 <= j < i ==> s@[j] != c,
    {
        if s.get_char(i) == c {
            return true;
        }
    }
    false
}

/// Whether `s` starts with the `Meta:` prefix.
fn starts_with_meta(s: &str) -> (r: bool)
    ensures
        r == sp_starts_with_meta(s@),
{
    let n = s.unicode_len();
    if n < 5 {
        return false;
    }
    let head = s.substring_char(0, 5);
    String::from_str(head).eq(&String::from_str("Meta:"))
}

impl HirMaker {
    /// Register one constant per named class: the class object (or, for a
    /// singleton-like class, its unique instance).
    pub fn register_class_consts(&mut self)
        ensures
            *final(self) == (HirMaker { constants: final(self).constants, ..*old(self) }),
            forall|j: int|
                0 <= j < old(self).class_dict.sk_classes@.len() ==> ({
                    let k = (#[trigger] old(self).class_dict.sk_classes@[j]).0;
                    (!sp_starts_with_meta(k) && !sp_has_char(k, '<')) ==> spec_contains(
                        final(self).constants@,
                        crate::names::path_sep() + k,
                    )
                }),
    {
        let mut consts: Vec<(String, crate::ty::TermTy)> = Vec::new();
        let n = self.class_dict.sk_classes.len();
        for i in 0..n
            invariant
                n == self.class_dict.sk_classes@.len(),
                *self == *old(self),
                forall|j: int|
                    0 <= j < i ==> ({
                        let k = (#[trigger] self.class_dict.sk_classes@[j]).0;
                        (!sp_starts_with_meta(k) && !sp_has_char(k, '<')) ==> exists|m: int|
                            0 <= m < consts@.len() && (#[trigger] consts@[m]).0@
                                == crate::names::path_sep() + k
                    }),
        {
            let name = self.class_dict.sk_classes.key_at(i);
            let cls = self.class_dict.sk_classes.val_at(i);
            let ghost pre_consts = consts@;
            if !starts_with_meta(name.as_str()) && !has_char(name.as_str(), '<') {
                let mut cn = String::from_str("::");
                cn.append(name.as_str());
                let t = if cls.const_is_obj {
                    crate::ty::raw(name.as_str())
                } else {
                    cls.class_ty()
                };
                consts.push((cn, t));
            }
            proof {
                assert forall|j: int|
                    0 <= j < i + 1 implies ({
                    let k = (#[trigger] self.class_dict.sk_classes@[j]).0;
                    (!sp_starts_with_meta(k) && !sp_has_char(k, '<')) ==> exists|m: int|
                        0 <= m < consts@.len() && (#[trigger] consts@[m]).0@
                            == crate::names::path_sep() + k
                }) by {
                    let k = self.class_dict.sk_classes@[j].0;
                    if !sp_starts_with_meta(k) && !sp_has_char(k, '<') {
                        if j < i {
                            let mm = choose|m: int|
                                0 <= m < pre_consts.len() && (#[trigger] pre_consts[m]).0@
                                    == crate::names::path_sep() + k;
                            assert((#[trigger] consts@[mm]).0@ == crate::names::path_sep() + k);
                        } else {
                            assert((#[trigger] consts@[consts@.len() - 1]).0@
                                == crate::names::path_sep() + k);
                        }
                    }
                }
            }
        }
        let mut rest = consts;
        let ghost all = consts@;
        let ghost done: int = 0;
        let mut inserted: usize = 0;
        while inserted < rest.len()
            invariant
                inserted <= rest@.len(),
                rest@ == all,
                *self == (HirMaker { constants: self.constants, ..*old(self) }),
                forall|m: int|
                    0 <= m < inserted ==> spec_contains(
                        self.constants@,
                        (#[trigger] all[m]).0@,
                    ),
            decreases rest.len() - inserted,
        {
            let k = rest[inserted].0.clone();
            let v = crate::strmap::DupView::dup(&rest[inserted].1);
            let ghost pre = self.constants@;
            self.constants.insert(k, v);
            proof {
                crate::strmap::lemma_get_insert(pre, all[inserted as int].0@, v@, all[inserted as int].0@);
                assert forall|m: int| 0 <= m < inserted + 1 implies spec_contains(
                    self.constants@,
                    (#[trigger] all[m]).0@,
                ) by {
                    if m < inserted {
                        crate::strmap::lemma_get_insert(pre, all[inserted as int].0@, v@, all[m].0@);
                    }
                }
            }
            inserted = inserted + 1;
        }
    }
}

} // verus!
