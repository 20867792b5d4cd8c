//! The lowering context.
//!
//! A `HirMaker` carries the class dictionary, the constant tables, the
//! string-literal table, and an explicit stack of scopes: the optional
//! method frame at the bottom (or the toplevel frame), and one frame per
//! lambda being lowered.  Variable resolution walks the stack from the
//! innermost scope outward, recording a capture whenever the binder lives
//! in an outer scope.

use vstd::prelude::*;
use crate::class_dict::ClassDict;
use crate::error::Error;
use crate::error::msg3;
use crate::error::program_error;
use crate::hir::Hir;
use crate::hir::HirExpression;
use crate::names::Namespace;
use crate::sk::MethodParam;
use crate::sk::MethodSignature;
use crate::sk::SkIVar;
use crate::strmap::DupView;
use crate::strmap::StrMap;
use crate::strmap::spec_contains;
use crate::strmap::spec_get;
use crate::ty::TermTy;
use crate::ty::TermTyV;

verus! {

/// A local variable as the context records it.
pub struct CtxLVar {
    pub name: String,
    pub ty: TermTy,
    pub readonly: bool,
}

/// View of a context local.
pub struct CtxLVarV {
    pub name: Seq<char>,
    pub ty: TermTyV,
    pub readonly: bool,
}

impl View for CtxLVar {
    type V = CtxLVarV;

    open spec fn view(&self) -> CtxLVarV {
        CtxLVarV { name: self.name@, ty: self.ty@, readonly: self.readonly }
    }
}

impl DupView for CtxLVar {
    fn dup(&self) -> (r: Self)
        ensures
            r@ == self@,
    {
        CtxLVar { name: self.name.clone(), ty: self.ty.dup(), readonly: self.readonly }
    }
}

/// Which construct is being lowered right now.
#[derive(Clone, Copy, PartialEq, Eq, Structural)]
pub enum CtxKind {
    Toplevel,
    Method,
    While,
    Lambda,
}

/// What a recorded capture refers to in its binding scope.
pub enum LambdaCaptureDetail {
    CapLVar { name: String },
    CapFnArg { idx: usize },
}

/// A free variable of a lambda: where its binder lives (`ctx_depth` is the
/// index of the binding lambda, or `None` for the method or toplevel
/// frame), its type, and what it is there.
pub struct LambdaCapture {
    pub ctx_depth: Option<usize>,
    pub ty: TermTy,
    pub detail: LambdaCaptureDetail,
}

/// One lambda being lowered.
pub struct LambdaCtx {
    pub is_fn: bool,
    pub params: Vec<MethodParam>,
    pub lvars: StrMap<CtxLVar>,
    pub captures: Vec<LambdaCapture>,
    pub has_break: bool,
}

/// The method being lowered.
pub struct MethodCtx {
    pub signature: MethodSignature,
    pub lvars: StrMap<CtxLVar>,
    /// The ivars inherited from the superclass.
    pub super_ivars: StrMap<SkIVar>,
    /// The ivars this `initialize` declares.
    pub iivars: StrMap<SkIVar>,
}

/// The scope stack and the naming environment of the lowering.
pub struct HirMakerContext {
    pub current: CtxKind,
    pub method: Option<MethodCtx>,
    pub lambdas: Vec<LambdaCtx>,
    pub toplevel_lvars: StrMap<CtxLVar>,
    /// Namespaces for constant resolution, innermost first; the last is the
    /// root namespace.
    pub const_scopes: Vec<Namespace>,
    pub self_ty: TermTy,
    /// Type parameters of the enclosing class.
    pub typarams: Vec<String>,
    /// Type parameters of the enclosing method.
    pub method_typarams: Vec<String>,
}

/// No lambda's capture list refers to that lambda's own scope or an inner
/// one: every capture points strictly outward, to an enclosing lambda or to
/// the method frame (`-1`).
pub open spec fn ctx_captures_wf(lambdas: Seq<LambdaCtx>) -> bool {
    forall|i: int, j: int|
        0 <= i < lambdas.len() && 0 <= j < lambdas[i].captures@.len() ==> match (
        #[trigger] lambdas[i].captures@[j]).ctx_depth {
            Some(d) => d < i,
            None => true,
        }
}

/// Whether `name` is one of the parameters.
pub open spec fn sp_params_have(params: Seq<MethodParam>, name: Seq<char>) -> bool {
    exists|i: int| 0 <= i < params.len() && (#[trigger] params[i])@.name == name
}

/// The two spellings of a parameter's name agree.
pub proof fn lemma_param_names(params: Seq<MethodParam>)
    ensures
        forall|i: int|
            0 <= i < params.len() ==> (#[trigger] params[i])@.name == crate::sk::param_views(
                params,
            )[i].name,
{
}

/// Whether `name` is bound in one lambda frame.
pub open spec fn sp_lambda_scope_has(l: LambdaCtx, name: Seq<char>) -> bool {
    spec_contains(l.lvars@, name) || sp_params_have(l.params@, name)
}

/// Whether `name` is bound in the bottom frame (method or toplevel).
pub open spec fn sp_base_scope_has(ctx: HirMakerContext, name: Seq<char>) -> bool {
    match ctx.method {
        Some(mc) => spec_contains(mc.lvars@, name) || sp_params_have(mc.signature.params@, name),
        None => spec_contains(ctx.toplevel_lvars@, name),
    }
}

/// Whether `name` is visible from the innermost scope.
pub open spec fn sp_var_visible(ctx: HirMakerContext, name: Seq<char>) -> bool {
    (exists|i: int|
        0 <= i < ctx.lambdas@.len() && sp_lambda_scope_has(#[trigger] ctx.lambdas@[i], name))
        || sp_base_scope_has(ctx, name)
}

/// What the scope walk finds in one scope: a local, or a parameter.
pub enum ScopeHit {
    HitLVar { lv: CtxLVarV },
    HitParam { idx: int, ty: TermTyV },
}

/// What `name` means in scope `s` (scope 0 is the innermost lambda; the
/// scope after the last lambda is the method or toplevel frame).  A local
/// shadows a parameter of the same scope.
pub open spec fn sp_scope_hit(ctx: HirMakerContext, name: Seq<char>, s: int) -> Option<ScopeHit> {
    let n = ctx.lambdas@.len() as int;
    if s < n {
        let l = ctx.lambdas@[n - 1 - s];
        match spec_get(l.lvars@, name) {
            Some(lv) => Some(ScopeHit::HitLVar { lv }),
            None => {
                let pi = crate::signature::sp_param_idx(l.params@, name);
                if pi >= 0 {
                    Some(ScopeHit::HitParam { idx: pi, ty: l.params@[pi]@.ty })
                } else {
                    None
                }
            },
        }
    } else {
        match ctx.method {
            Some(mc) => match spec_get(mc.lvars@, name) {
                Some(lv) => Some(ScopeHit::HitLVar { lv }),
                None => {
                    let pi = crate::signature::sp_param_idx(mc.signature.params@, name);
                    if pi >= 0 {
                        Some(ScopeHit::HitParam { idx: pi, ty: mc.signature.params@[pi]@.ty })
                    } else {
                        None
                    }
                },
            },
            None => match spec_get(ctx.toplevel_lvars@, name) {
                Some(lv) => Some(ScopeHit::HitLVar { lv }),
                None => None,
            },
        }
    }
}

/// The first scope, from the innermost outward, where `name` is bound.
pub open spec fn sp_walk_from(ctx: HirMakerContext, name: Seq<char>, s: int) -> Option<
    (int, ScopeHit),
>
    decreases ctx.lambdas@.len() + 1 - s,
{
    if s > ctx.lambdas@.len() {
        None
    } else {
        match sp_scope_hit(ctx, name, s) {
            Some(h) => Some((s, h)),
            None => sp_walk_from(ctx, name, s + 1),
        }
    }
}

pub open spec fn sp_walk(ctx: HirMakerContext, name: Seq<char>) -> Option<(int, ScopeHit)> {
    sp_walk_from(ctx, name, 0)
}

/// The binding of `name` in the innermost scope, if any.
pub open spec fn sp_innermost_lvar(ctx: HirMakerContext, name: Seq<char>) -> Option<CtxLVarV> {
    if ctx.lambdas@.len() > 0 {
        spec_get(ctx.lambdas@.last().lvars@, name)
    } else {
        match ctx.method {
            Some(mc) => spec_get(mc.lvars@, name),
            None => spec_get(ctx.toplevel_lvars@, name),
        }
    }
}

/// The method frame is the body of `initialize` (the only place where new
/// ivars may be declared), and no lambda is open.
pub open spec fn sp_in_initializer(ctx: HirMakerContext) -> bool {
    &&& ctx.lambdas@.len() == 0
    &&& match ctx.method {
        Some(mc) => mc.signature.fullname@.first_name == "initialize"@,
        None => false,
    }
}

/// Result of looking up a local variable.
pub enum LVarInfo {
    /// Found in the current scope.
    CurrentScope { ty: TermTy, name: String },
    /// Found among the current frame's parameters.
    Argument { ty: TermTy, idx: usize },
    /// Found in an outer scope, reachable through capture slot `cidx`.
    OuterScope { ty: TermTy, cidx: usize, readonly: bool },
}

/// The type carried by a lookup result.
pub open spec fn sp_lvar_ty(info: LVarInfo) -> TermTyV {
    match info {
        LVarInfo::CurrentScope { ty, .. } => ty@,
        LVarInfo::Argument { ty, .. } => ty@,
        LVarInfo::OuterScope { ty, .. } => ty@,
    }
}

impl LVarInfo {
    /// The type of the variable.
    pub fn lvar_ty(&self) -> (r: &TermTy)
        ensures
            r@ == sp_lvar_ty(*self),
    {
        match self {
            LVarInfo::CurrentScope { ty, .. } => ty,
            LVarInfo::Argument { ty, .. } => ty,
            LVarInfo::OuterScope { ty, .. } => ty,
        }
    }

    /// An expression that reads the variable.
    pub fn ref_expr(&self) -> (r: HirExpression)
        ensures
            r.ty@ == sp_lvar_ty(*self),
            match *self {
                LVarInfo::CurrentScope { .. } => r.node matches
                    crate::hir::HirExpressionBase::HirLVarRef { .. },
                LVarInfo::Argument { idx, .. } => r.node == (
                crate::hir::HirExpressionBase::HirArgRef { idx }),
                LVarInfo::OuterScope { cidx, readonly, .. } => r.node == (
                crate::hir::HirExpressionBase::HirLambdaCaptureRef { cidx, readonly }),
            },
    {
        match self {
            LVarInfo::CurrentScope { ty, name } => Hir::lvar_ref(ty.dup(), name.clone()),
            LVarInfo::Argument { ty, idx } => Hir::hir_arg_ref(ty.dup(), *idx),
            LVarInfo::OuterScope { ty, cidx, readonly } => Hir::lambda_capture_ref(
                ty.dup(),
                *cidx,
                *readonly,
            ),
        }
    }

    /// An expression that updates the variable; arguments cannot be
    /// updated.
    pub fn assign_expr(&self, expr: HirExpression) -> (r: HirExpression)
        requires
            !(self is Argument),
        ensures
            r.ty@ == expr.ty@,
            match *self {
                LVarInfo::CurrentScope { .. } => (match r.node {
                    crate::hir::HirExpressionBase::HirLVarAssign { rhs: stored, .. } => *stored
                        == expr,
                    _ => false,
                }),
                LVarInfo::OuterScope { cidx, .. } => (match r.node {
                    crate::hir::HirExpressionBase::HirLambdaCaptureWrite { cidx: c2, rhs: stored } => c2
                        == cidx && *stored == expr,
                    _ => false,
                }),
                LVarInfo::Argument { .. } => true,
            },
    {
        match self {
            LVarInfo::CurrentScope { name, .. } => Hir::lvar_assign(name, expr),
            LVarInfo::OuterScope { cidx, .. } => Hir::lambda_capture_write(*cidx, expr),
            LVarInfo::Argument { .. } => Hir::lambda_capture_write(0, expr),
        }
    }
}

/// Everything the lowering carries.
pub struct HirMaker {
    pub class_dict: ClassDict,
    pub constants: StrMap<TermTy>,
    pub imported_constants: StrMap<TermTy>,
    pub const_inits: Vec<HirExpression>,
    pub str_literals: Vec<String>,
    pub lambda_ct: usize,
    pub ctx: HirMakerContext,
}

impl HirMaker {
    /// A fresh lowering over a finished dictionary, at the toplevel.
    pub fn new(class_dict: ClassDict, imported_constants: StrMap<TermTy>) -> (r: HirMaker)
        ensures
            r.class_dict == class_dict,
            r.imported_constants == imported_constants,
            r.constants@ == Seq::<(Seq<char>, TermTyV)>::empty(),
            r.str_literals@ == Seq::<String>::empty(),
            r.ctx.lambdas@.len() == 0,
            r.ctx.current == CtxKind::Toplevel,
            r.ctx.method is None,
            ctx_captures_wf(r.ctx.lambdas@),
            r.ctx.self_ty@ == crate::ty::raw_v("Object"@),
    {
        let root = Namespace::root();
        let mut const_scopes: Vec<Namespace> = Vec::new();
        const_scopes.push(root);
        HirMaker {
            class_dict,
            constants: StrMap::new(),
            imported_constants,
            const_inits: Vec::new(),
            str_literals: Vec::new(),
            lambda_ct: 0,
            ctx: HirMakerContext {
                current: CtxKind::Toplevel,
                method: None,
                lambdas: Vec::new(),
                toplevel_lvars: StrMap::new(),
                const_scopes,
                self_ty: crate::ty::raw("Object"),
                typarams: Vec::new(),
                method_typarams: Vec::new(),
            },
        }
    }

    /// Intern a string literal and return its index.
    pub fn register_string_literal(&mut self, content: &str) -> (idx: usize)
        ensures
            final(self).str_literals@ == old(self).str_literals@.push(
                final(self).str_literals@.last(),
            ),
            final(self).str_literals@.last()@ == content@,
            idx == old(self).str_literals@.len(),
            *final(self) == (HirMaker { str_literals: final(self).str_literals, ..*old(self) }),
    {
        let idx = self.str_literals.len();
        self.str_literals.push(String::from_str(content));
        idx
    }

    /// Record a capture on the innermost lambda.
    pub fn push_lambda_capture(&mut self, cap: LambdaCapture) -> (cidx: usize)
        requires
            old(self).ctx.lambdas@.len() > 0,
            ctx_captures_wf(old(self).ctx.lambdas@),
            match cap.ctx_depth {
                Some(d) => d < old(self).ctx.lambdas@.len() - 1,
                None => old(self).ctx.lambdas@.len() >= 1,
            },
        ensures
            ctx_captures_wf(final(self).ctx.lambdas@),
            final(self).ctx.lambdas@.len() == old(self).ctx.lambdas@.len(),
            cidx == old(self).ctx.lambdas@.last().captures@.len(),
            *final(self) == (HirMaker { ctx: final(self).ctx, ..*old(self) }),
            final(self).ctx == (HirMakerContext { lambdas: final(self).ctx.lambdas, ..old(self).ctx }),
            forall|i: int|
                0 <= i < old(self).ctx.lambdas@.len() - 1 ==> final(self).ctx.lambdas@[i] == old(
                    self,
                ).ctx.lambdas@[i],
            final(self).ctx.lambdas@.last().captures@ == old(
                self,
            ).ctx.lambdas@.last().captures@.push(cap),
            final(self).ctx.lambdas@.last() == (LambdaCtx {
                captures: final(self).ctx.lambdas@.last().captures,
                ..old(self).ctx.lambdas@.last()
            }),
    {
        let mut last = self.ctx.lambdas.pop().unwrap();
        let ghost precaps = last.captures@;
        let cidx = last.captures.len();
        last.captures.push(cap);
        self.ctx.lambdas.push(last);
        proof {
            let ls = self.ctx.lambdas@;
            let ols = old(self).ctx.lambdas@;
            assert(ls.len() == ols.len());
            assert forall|i: int, j: int|
                0 <= i < ls.len() && 0 <= j < ls[i].captures@.len() implies match (
            #[trigger] ls[i].captures@[j]).ctx_depth {
                Some(d) => d < i,
                None => true,
            } by {
                if i < ls.len() - 1 {
                    assert(ls[i] == ols[i]);
                } else {
                    if j < precaps.len() {
                        assert(ols[i].captures@[j] == ls[i].captures@[j]);
                    }
                }
            }
        }
        cidx
    }
}

} // verus!

verus! {

impl HirMaker {
    /// Declare a new local in the innermost scope.
    pub fn declare_lvar(&mut self, name: &String, ty: TermTy, readonly: bool)
        requires
            ctx_captures_wf(old(self).ctx.lambdas@),
        ensures
            ctx_captures_wf(final(self).ctx.lambdas@),
            final(self).ctx.lambdas@.len() == old(self).ctx.lambdas@.len(),
            final(self).ctx.current == old(self).ctx.current,
            *final(self) == (HirMaker { ctx: final(self).ctx, ..*old(self) }),
            sp_var_visible(final(self).ctx, name@),
            sp_innermost_lvar(final(self).ctx, name@) == Some(
                CtxLVarV { name: name@, ty: ty@, readonly },
            ),
    {
        let lvar = CtxLVar { name: name.clone(), ty, readonly };
        let n = self.ctx.lambdas.len();
        if n > 0 {
            let mut last = self.ctx.lambdas.pop().unwrap();
            last.lvars.insert(name.clone(), lvar);
            self.ctx.lambdas.push(last);
            proof {
                let ls = self.ctx.lambdas@;
                let ols = old(self).ctx.lambdas@;
                crate::strmap::lemma_get_insert(
                    ols.last().lvars@,
                    name@,
                    lvar@,
                    name@,
                );
                assert(sp_lambda_scope_has(ls[ls.len() - 1], name@));
                assert forall|i: int, j: int|
                    0 <= i < ls.len() && 0 <= j < ls[i].captures@.len() implies match (
                #[trigger] ls[i].captures@[j]).ctx_depth {
                    Some(d) => d < i,
                    None => true,
                } by {
                    if i < ls.len() - 1 {
                        assert(ls[i] == ols[i]);
                    } else {
                        assert(ls[i].captures@[j] == ols[i].captures@[j]);
                    }
                }
            }
        } else {
            match self.ctx.method.as_mut() {
                Some(mc) => {
                    mc.lvars.insert(name.clone(), lvar);
                    proof {
                        crate::strmap::lemma_get_insert(
                            old(self).ctx.method.unwrap().lvars@,
                            name@,
                            lvar@,
                            name@,
                        );
                    }
                },
                None => {
                    self.ctx.toplevel_lvars.insert(name.clone(), lvar);
                    proof {
                        crate::strmap::lemma_get_insert(
                            old(self).ctx.toplevel_lvars@,
                            name@,
                            lvar@,
                            name@,
                        );
                    }
                },
            }
        }
    }

    /// Find the variable of the given name, walking the scopes from the
    /// innermost outward; a hit in an outer scope records a capture on the
    /// innermost lambda.  With `updating`, readonly locals and arguments
    /// are rejected.
    pub fn find_var(&mut self, name: &String, updating: bool) -> (r: Result<
        Option<LVarInfo>,
        Error,
    >)
        requires
            ctx_captures_wf(old(self).ctx.lambdas@),
        ensures
            ctx_captures_wf(final(self).ctx.lambdas@),
            final(self).ctx.lambdas@.len() == old(self).ctx.lambdas@.len(),
            *final(self) == (HirMaker { ctx: final(self).ctx, ..*old(self) }),
            final(self).ctx == (
            HirMakerContext { lambdas: final(self).ctx.lambdas, ..old(self).ctx }),
            forall|i: int|
                0 <= i < old(self).ctx.lambdas@.len() - 1 ==> final(self).ctx.lambdas@[i] == old(
                    self,
                ).ctx.lambdas@[i],
            old(self).ctx.lambdas@.len() > 0 ==> final(self).ctx.lambdas@.last() == (LambdaCtx {
                captures: final(self).ctx.lambdas@.last().captures,
                ..old(self).ctx.lambdas@.last()
            }),
            !updating ==> r is Ok,
            r matches Ok(Some(info)) ==> sp_var_visible(old(self).ctx, name@) && (updating
                ==> !(info is Argument)),
            r matches Ok(None) ==> !sp_var_visible(old(self).ctx, name@) && *final(self) == *old(
                self,
            ),
            !sp_var_visible(old(self).ctx, name@) ==> r == Ok::<Option<LVarInfo>, Error>(None),
            ({
                // The result reflects the innermost binding the walk finds:
                // its kind, its type, and for an outer binding the recorded
                // capture.
                let w = sp_walk(old(self).ctx, name@);
                let n0 = old(self).ctx.lambdas@.len() as int;
                match w {
                    None => true,
                    Some(sh) => match sh.1 {
                        ScopeHit::HitLVar { lv } => {
                            if updating && lv.readonly {
                                r matches Err(e) && e@.kind == crate::error::ErrorKind::ProgramError
                            } else if sh.0 == 0 {
                                r matches Ok(o) && (match o {
                                    Some(info) => match info {
                                        LVarInfo::CurrentScope { ty, name: n2 } => ty@ == lv.ty
                                            && n2@ == name@,
                                        _ => false,
                                    },
                                    None => false,
                                })
                            } else {
                                r matches Ok(o) && (match o {
                                    Some(info) => match info {
                                        LVarInfo::OuterScope { ty, cidx, readonly } => ({
                                            let cap = final(self).ctx.lambdas@.last().captures@.last();
                                            &&& ty@ == lv.ty
                                            &&& !readonly
                                            &&& cidx == old(self).ctx.lambdas@.last().captures@.len()
                                            &&& final(self).ctx.lambdas@.last().captures@.len() == cidx + 1
                                            &&& cap.ctx_depth == (if sh.0 < n0 {
                                                Some((n0 - 1 - sh.0) as usize)
                                            } else {
                                                None::<usize>
                                            })
                                            &&& cap.ty@ == lv.ty
                                            &&& (match cap.detail {
                                                LambdaCaptureDetail::CapLVar { name: nc } => nc@
                                                    == name@,
                                                _ => false,
                                            })
                                        }),
                                        _ => false,
                                    },
                                    None => false,
                                })
                            }
                        },
                        ScopeHit::HitParam { idx, ty } => {
                            if updating {
                                r matches Err(e) && e@.kind == crate::error::ErrorKind::ProgramError
                            } else if sh.0 == 0 {
                                r matches Ok(o) && (match o {
                                    Some(info) => match info {
                                        LVarInfo::Argument { ty: t2, idx: i2 } => t2@ == ty && i2
                                            as int == idx,
                                        _ => false,
                                    },
                                    None => false,
                                })
                            } else {
                                r matches Ok(o) && (match o {
                                    Some(info) => match info {
                                        LVarInfo::OuterScope { ty: t2, cidx, readonly } => ({
                                            let cap = final(self).ctx.lambdas@.last().captures@.last();
                                            &&& t2@ == ty
                                            &&& readonly
                                            &&& cidx == old(self).ctx.lambdas@.last().captures@.len()
                                            &&& final(self).ctx.lambdas@.last().captures@.len() == cidx + 1
                                            &&& cap.ctx_depth == (if sh.0 < n0 {
                                                Some((n0 - 1 - sh.0) as usize)
                                            } else {
                                                None::<usize>
                                            })
                                            &&& cap.ty@ == ty
                                            &&& (match cap.detail {
                                                LambdaCaptureDetail::CapFnArg { idx: ic } => ic
                                                    as int == idx,
                                                _ => false,
                                            })
                                        }),
                                        _ => false,
                                    },
                                    None => false,
                                })
                            }
                        },
                    },
                }
            }),
    {
        let n = self.ctx.lambdas.len();
        let ghost octx = old(self).ctx;
        for s in 0..n
            invariant
                n == self.ctx.lambdas@.len(),
                *self == *old(self),
                octx == old(self).ctx,
                ctx_captures_wf(self.ctx.lambdas@),
                forall|j: int|
                    n - s <= j < n ==> !sp_lambda_scope_has(#[trigger] octx.lambdas@[j], name@),
                sp_walk(octx, name@) == sp_walk_from(octx, name@, s as int),
        {
            let li = n - 1 - s;
            let found_lvar = match self.ctx.lambdas[li].lvars.get(name) {
                Some(lv) => Some((lv.ty.dup(), lv.readonly)),
                None => None,
            };
            if let Some((lv_ty, lv_readonly)) = found_lvar {
                proof {
                    assert(sp_lambda_scope_has(octx.lambdas@[li as int], name@));
                    let lv2 = spec_get(octx.lambdas@[li as int].lvars@, name@).unwrap();
                    assert(lv2.ty == lv_ty@ && lv2.readonly == lv_readonly);
                    assert(sp_scope_hit(octx, name@, s as int) == Some(
                        ScopeHit::HitLVar { lv: lv2 },
                    ));
                    assert(sp_walk(octx, name@) == Some((s as int, ScopeHit::HitLVar { lv: lv2 })));
                }
                if updating && lv_readonly {
                    return Err(
                        program_error(
                            msg3("cannot reassign to `", name.as_str(), "' (hint: declare it with `var')"),
                        ),
                    );
                }
                if s == 0 {
                    return Ok(Some(LVarInfo::CurrentScope { ty: lv_ty, name: name.clone() }));
                }
                let cap = LambdaCapture {
                    ctx_depth: Some(li),
                    ty: lv_ty.dup(),
                    detail: LambdaCaptureDetail::CapLVar { name: name.clone() },
                };
                let cidx = self.push_lambda_capture(cap);
                return Ok(Some(LVarInfo::OuterScope { ty: lv_ty, cidx, readonly: false }));
            }
            let found_param = match crate::signature::find_param(
                &self.ctx.lambdas[li].params,
                name,
            ) {
                Some(pi) => Some((self.ctx.lambdas[li].params[pi].ty.dup(), pi)),
                None => None,
            };
            if let Some((p_ty, pi)) = found_param {
                proof {
                    lemma_param_names(octx.lambdas@[li as int].params@);
                    assert(sp_params_have(octx.lambdas@[li as int].params@, name@));
                    assert(sp_lambda_scope_has(octx.lambdas@[li as int], name@));
                    crate::signature::lemma_param_idx_bounds(
                        octx.lambdas@[li as int].params@,
                        name@,
                    );
                    assert(sp_scope_hit(octx, name@, s as int) == Some(
                        ScopeHit::HitParam {
                            idx: pi as int,
                            ty: octx.lambdas@[li as int].params@[pi as int]@.ty,
                        },
                    ));
                }
                if updating {
                    return Err(
                        program_error(
                            msg3("you cannot reassign to the argument `", name.as_str(), "'"),
                        ),
                    );
                }
                if s == 0 {
                    return Ok(Some(LVarInfo::Argument { ty: p_ty, idx: pi }));
                }
                let cap = LambdaCapture {
                    ctx_depth: Some(li),
                    ty: p_ty.dup(),
                    detail: LambdaCaptureDetail::CapFnArg { idx: pi },
                };
                let cidx = self.push_lambda_capture(cap);
                return Ok(Some(LVarInfo::OuterScope { ty: p_ty, cidx, readonly: true }));
            }
            proof {
                lemma_param_names(octx.lambdas@[li as int].params@);
                assert(!sp_lambda_scope_has(octx.lambdas@[li as int], name@));
                if crate::signature::sp_param_idx(octx.lambdas@[li as int].params@, name@) >= 0 {
                    crate::signature::lemma_param_idx_bounds(
                        octx.lambdas@[li as int].params@,
                        name@,
                    );
                }
                assert(sp_scope_hit(octx, name@, s as int) is None);
            }
        }
        // The bottom frame: the method being lowered, or the toplevel.
        let found_base: Option<(TermTy, bool, Option<usize>)> = match &self.ctx.method {
            Some(mc) => match mc.lvars.get(name) {
                Some(lv) => Some((lv.ty.dup(), lv.readonly, None)),
                None => match crate::signature::find_param(&mc.signature.params, name) {
                    Some(pi) => Some((mc.signature.params[pi].ty.dup(), true, Some(pi))),
                    None => None,
                },
            },
            None => match self.ctx.toplevel_lvars.get(name) {
                Some(lv) => Some((lv.ty.dup(), lv.readonly, None)),
                None => None,
            },
        };
        match found_base {
            None => {
                proof {
                    if octx.method is Some {
                        lemma_param_names(octx.method.unwrap().signature.params@);
                        if crate::signature::sp_param_idx(
                            octx.method.unwrap().signature.params@,
                            name@,
                        ) >= 0 {
                            crate::signature::lemma_param_idx_bounds(
                                octx.method.unwrap().signature.params@,
                                name@,
                            );
                        }
                    }
                    assert(!sp_base_scope_has(octx, name@));
                    assert(sp_scope_hit(octx, name@, n as int) is None);
                    assert(sp_walk_from(octx, name@, n as int + 1) is None);
                }
                Ok(None)
            },
            Some((b_ty, b_readonly, b_param)) => {
                proof {
                    if octx.method is Some {
                        lemma_param_names(octx.method.unwrap().signature.params@);
                    }
                    assert(sp_base_scope_has(octx, name@));
                }
                match b_param {
                    None => {
                        proof {
                            let lv2 = if octx.method is Some {
                                spec_get(octx.method.unwrap().lvars@, name@).unwrap()
                            } else {
                                spec_get(octx.toplevel_lvars@, name@).unwrap()
                            };
                            assert(lv2.ty == b_ty@ && lv2.readonly == b_readonly);
                            assert(sp_scope_hit(octx, name@, n as int) == Some(
                                ScopeHit::HitLVar { lv: lv2 },
                            ));
                        }
                        if updating && b_readonly {
                            return Err(
                                program_error(
                                    msg3("cannot reassign to `", name.as_str(), "' (hint: declare it with `var')"),
                                ),
                            );
                        }
                        if n == 0 {
                            return Ok(
                                Some(LVarInfo::CurrentScope { ty: b_ty, name: name.clone() }),
                            );
                        }
                        let cap = LambdaCapture {
                            ctx_depth: None,
                            ty: b_ty.dup(),
                            detail: LambdaCaptureDetail::CapLVar { name: name.clone() },
                        };
                        let cidx = self.push_lambda_capture(cap);
                        Ok(Some(LVarInfo::OuterScope { ty: b_ty, cidx, readonly: false }))
                    },
                    Some(pi) => {
                        proof {
                            crate::signature::lemma_param_idx_bounds(
                                octx.method.unwrap().signature.params@,
                                name@,
                            );
                            assert(sp_scope_hit(octx, name@, n as int) == Some(
                                ScopeHit::HitParam {
                                    idx: pi as int,
                                    ty: octx.method.unwrap().signature.params@[pi as int]@.ty,
                                },
                            ));
                        }
                        if updating {
                            return Err(
                                program_error(
                                    msg3("you cannot reassign to the argument `", name.as_str(), "'"),
                                ),
                            );
                        }
                        if n == 0 {
                            return Ok(Some(LVarInfo::Argument { ty: b_ty, idx: pi }));
                        }
                        let cap = LambdaCapture {
                            ctx_depth: None,
                            ty: b_ty.dup(),
                            detail: LambdaCaptureDetail::CapFnArg { idx: pi },
                        };
                        let cidx = self.push_lambda_capture(cap);
                        Ok(Some(LVarInfo::OuterScope { ty: b_ty, cidx, readonly: true }))
                    },
                }
            },
        }
    }

    /// The variable of the given name, if visible.
    pub fn lookup_var(&mut self, name: &String) -> (r: Option<LVarInfo>)
        requires
            ctx_captures_wf(old(self).ctx.lambdas@),
        ensures
            ctx_captures_wf(final(self).ctx.lambdas@),
            final(self).ctx.lambdas@.len() == old(self).ctx.lambdas@.len(),
            *final(self) == (HirMaker { ctx: final(self).ctx, ..*old(self) }),
            final(self).ctx == (
            HirMakerContext { lambdas: final(self).ctx.lambdas, ..old(self).ctx }),
            r is Some ==> sp_var_visible(old(self).ctx, name@),
            r is None ==> !sp_var_visible(old(self).ctx, name@) && *final(self) == *old(self),
    {
        match self.find_var(name, false) {
            Ok(r) => r,
            Err(_) => None,
        }
    }
}

} // verus!

verus! {

/// A resolved constant name: the namespace it was found under, the path
/// segments, and the resolved type arguments, if any.
pub struct ResolvedConstName {
    pub namespace: Namespace,
    pub names: Vec<String>,
    pub args: Vec<ResolvedConstName>,
    /// The types the arguments denote, in the same order as `args`.
    pub arg_tys: Vec<TermTy>,
}

/// The mathematical shape of a resolved constant name.
pub struct ResolvedConstNameV {
    pub namespace: Seq<Seq<char>>,
    pub names: Seq<Seq<char>>,
    pub args: Seq<ResolvedConstNameV>,
    pub arg_tys: Seq<TermTyV>,
}

pub open spec fn rcn_view(n: ResolvedConstName) -> ResolvedConstNameV
    decreases n,
{
    ResolvedConstNameV {
        namespace: crate::names::seq_views(n.namespace.0@),
        names: crate::names::seq_views(n.names@),
        args: rcn_views(n.args@),
        arg_tys: crate::ty::tys_view(n.arg_tys@),
    }
}

pub open spec fn rcn_views(s: Seq<ResolvedConstName>) -> Seq<ResolvedConstNameV>
    decreases s,
{
    if s.len() == 0 {
        Seq::empty()
    } else {
        seq![rcn_view(s[0])] + rcn_views(s.drop_first())
    }
}

pub proof fn lemma_rcn_views(s: Seq<ResolvedConstName>)
    ensures
        rcn_views(s).len() == s.len(),
        forall|i: int| 0 <= i < s.len() ==> rcn_views(s)[i] == rcn_view(s[i]),
    decreases s,
{
    if s.len() > 0 {
        lemma_rcn_views(s.drop_first());
    }
}

impl View for ResolvedConstName {
    type V = ResolvedConstNameV;

    open spec fn view(&self) -> ResolvedConstNameV {
        rcn_view(*self)
    }
}

/// The printable form of a resolved name: the joined path, plus `<args>`
/// when generic.
pub open spec fn sp_rcn_string(n: ResolvedConstNameV) -> Seq<char>
    decreases n,
{
    let path = crate::names::join_with(n.namespace + n.names, crate::names::path_sep());
    if n.args.len() == 0 {
        path
    } else {
        path + "<"@ + crate::names::join_with(sp_rcn_strings(n.args), ","@) + ">"@
    }
}

pub open spec fn sp_rcn_strings(s: Seq<ResolvedConstNameV>) -> Seq<Seq<char>>
    decreases s,
{
    if s.len() == 0 {
        Seq::empty()
    } else {
        seq![sp_rcn_string(s[0])] + sp_rcn_strings(s.drop_first())
    }
}

pub proof fn lemma_sp_rcn_strings(s: Seq<ResolvedConstNameV>)
    ensures
        sp_rcn_strings(s).len() == s.len(),
        forall|i: int| 0 <= i < s.len() ==> sp_rcn_strings(s)[i] == sp_rcn_string(s[i]),
    decreases s,
{
    if s.len() > 0 {
        lemma_sp_rcn_strings(s.drop_first());
    }
}

impl ResolvedConstName {
    /// The printable form: the joined path, plus `<args>` when generic.
    pub fn to_string(&self) -> (r: String)
        ensures
            r@ == sp_rcn_string(self@),
        decreases *self,
    {
        proof {
            lemma_rcn_views(self.args@);
            lemma_sp_rcn_strings(rcn_views(self.args@));
        }
        let mut parts: Vec<String> = Vec::new();
        let nns = self.namespace.0.len();
        for i in 0..nns
            invariant
                nns == self.namespace.0@.len(),
                parts@.len() == i,
                forall|j: int| 0 <= j < i ==> parts@[j]@ == self.namespace.0@[j]@,
        {
            parts.push(self.namespace.0[i].clone());
        }
        let nn = self.names.len();
        for i in 0..nn
            invariant
                nn == self.names@.len(),
                parts@.len() == nns + i,
                forall|j: int| 0 <= j < nns ==> parts@[j]@ == self.namespace.0@[j]@,
                forall|j: int| 0 <= j < i ==> parts@[nns + j]@ == self.names@[j]@,
        {
            parts.push(self.names[i].clone());
        }
        proof {
            assert(crate::names::seq_views(parts@) =~= self@.namespace + self@.names);
        }
        let mut s = crate::names::join_strings(&parts, "::");
        if self.args.len() > 0 {
            s.append("<");
            let ghost argvs = sp_rcn_strings(rcn_views(self.args@));
            let na = self.args.len();
            for i in 0..na
                invariant
                    na == self.args@.len(),
                    argvs == sp_rcn_strings(rcn_views(self.args@)),
                    argvs.len() == na,
                    forall|j: int| 0 <= j < na ==> argvs[j] == sp_rcn_string(self.args@[j]@),
                    s@ == crate::names::join_with(
                        self@.namespace + self@.names,
                        crate::names::path_sep(),
                    ) + "<"@ + crate::names::join_with(argvs.take(i as int), ","@),
            {
                if i > 0 {
                    s.append(",");
                }
                let part = self.args[i].to_string();
                s.append(part.as_str());
                proof {
                    assert(argvs.take(i + 1).drop_last() =~= argvs.take(i as int));
                    if i == 0 {
                        assert(argvs.take(1)[0] == argvs[0]);
                    }
                }
            }
            s.append(">");
            proof {
                assert(argvs.take(na as int) =~= argvs);
            }
        }
        s
    }

    /// The toplevel constant this name denotes.
    pub fn to_const_fullname(&self) -> (r: crate::names::ConstFullname)
        ensures
            r@ == crate::names::path_sep() + sp_rcn_string(self@),
    {
        let mut s = String::from_str("::");
        let inner = self.to_string();
        s.append(inner.as_str());
        crate::names::ConstFullname(s)
    }

    pub fn has_type_args(&self) -> (r: bool)
        ensures
            r == (self.args@.len() > 0),
    {
        self.args.len() > 0
    }
}

/// `lookup_const` at the level of views: program constants shadow imported
/// ones.
pub open spec fn sp_lookup_const(
    consts: Seq<(Seq<char>, TermTyV)>,
    imported: Seq<(Seq<char>, TermTyV)>,
    full: Seq<char>,
) -> Option<TermTyV> {
    match spec_get(consts, full) {
        Some(t) => Some(t),
        None => spec_get(imported, full),
    }
}

/// Looking a constant path up twice yields the same type.
pub proof fn lemma_const_lookup_deterministic(
    consts: Seq<(Seq<char>, TermTyV)>,
    imported: Seq<(Seq<char>, TermTyV)>,
    full: Seq<char>,
    r1: Option<TermTyV>,
    r2: Option<TermTyV>,
)
    requires
        r1 == sp_lookup_const(consts, imported, full),
        r2 == sp_lookup_const(consts, imported, full),
    ensures
        r1 == r2,
{
}

impl HirMaker {
    /// The registered type of a constant, if any.
    pub fn lookup_const(&self, full: &crate::names::ConstFullname) -> (r: Option<TermTy>)
        ensures
            match r {
                Some(t) => sp_lookup_const(self.constants@, self.imported_constants@, full@)
                    == Some(t@),
                None => sp_lookup_const(self.constants@, self.imported_constants@, full@) is None,
            },
    {
        match self.constants.get(&full.0) {
            Some(t) => Some(t.dup()),
            None => match self.imported_constants.get(&full.0) {
                Some(t) => Some(t.dup()),
                None => None,
            },
        }
    }

    /// A reference to the type parameter named `name`, if one is in scope;
    /// method type parameters shadow class ones.
    pub fn lookup_typaram(&self, name: &String) -> (r: Option<TermTy>)
        ensures
            match r {
                Some(t) => sp_lookup_typaram(
                    crate::names::seq_views(self.ctx.typarams@),
                    crate::names::seq_views(self.ctx.method_typarams@),
                    name@,
                ) == Some(t@),
                None => sp_lookup_typaram(
                    crate::names::seq_views(self.ctx.typarams@),
                    crate::names::seq_views(self.ctx.method_typarams@),
                    name@,
                ) is None,
            },
    {
        if let Some(i) = crate::names::find_str(&self.ctx.method_typarams, name) {
            return Some(
                crate::ty::typaram(name.as_str(), crate::ty::TyParamKind::Method, i),
            );
        }
        if let Some(i) = crate::names::find_str(&self.ctx.typarams, name) {
            return Some(crate::ty::typaram(name.as_str(), crate::ty::TyParamKind::Class, i));
        }
        None
    }

    /// Resolve a plain constant path through the constant scopes, innermost
    /// first.
    fn resolve_simple_const(&self, names: &Vec<String>) -> (r: Result<
        (TermTy, ResolvedConstName),
        Error,
    >)
        ensures
            ({
                let spr = sp_resolve_simple(
                    self.constants@,
                    self.imported_constants@,
                    sp_scope_views(self.ctx.const_scopes@),
                    crate::names::seq_views(self.ctx.typarams@),
                    crate::names::seq_views(self.ctx.method_typarams@),
                    crate::names::seq_views(names@),
                );
                match r {
                    Ok(p) => spr == Ok::<
                        (TermTyV, ResolvedConstNameV),
                        crate::error::ErrorKind,
                    >((p.0@, p.1@)),
                    Err(e) => spr matches Err(k) && e@.kind == k,
                }
            }),
    {
        let ghost consts = self.constants@;
        let ghost imported = self.imported_constants@;
        let ghost scopes_v = sp_scope_views(self.ctx.const_scopes@);
        let ghost namesv = crate::names::seq_views(names@);
        let ghost cls_tp = crate::names::seq_views(self.ctx.typarams@);
        let ghost mth_tp = crate::names::seq_views(self.ctx.method_typarams@);
        if names.len() == 1 {
            if let Some(t) = self.lookup_typaram(&names[0]) {
                let mut names2: Vec<String> = Vec::new();
                names2.push(names[0].clone());
                let resolved = ResolvedConstName {
                    namespace: Namespace::root(),
                    names: names2,
                    args: Vec::new(),
                    arg_tys: Vec::new(),
                };
                proof {
                    assert(crate::names::seq_views(resolved.names@) =~= namesv);
                    assert(rcn_views(resolved.args@) =~= Seq::<ResolvedConstNameV>::empty());
                    assert(crate::ty::tys_view(resolved.arg_tys@) =~= Seq::<TermTyV>::empty());
                }
                return Ok((t, resolved));
            }
        }
        let ns_count = self.ctx.const_scopes.len();
        proof {
            assert(scopes_v.skip(0) =~= scopes_v);
        }
        for si in 0..ns_count
            invariant
                ns_count == self.ctx.const_scopes@.len(),
                consts == self.constants@,
                imported == self.imported_constants@,
                scopes_v == sp_scope_views(self.ctx.const_scopes@),
                namesv == crate::names::seq_views(names@),
                cls_tp == crate::names::seq_views(self.ctx.typarams@),
                mth_tp == crate::names::seq_views(self.ctx.method_typarams@),
                !(namesv.len() == 1 && sp_lookup_typaram(cls_tp, mth_tp, namesv[0]) is Some),
                scopes_v.len() == ns_count,
                sp_resolve_in_scopes(consts, imported, scopes_v, namesv) == sp_resolve_in_scopes(
                    consts,
                    imported,
                    scopes_v.skip(si as int),
                    namesv,
                ),
        {
            proof {
                assert(scopes_v.skip(si as int)[0] == scopes_v[si as int]);
                assert(scopes_v.skip(si as int).drop_first() =~= scopes_v.skip(si + 1));
            }
            let scope = &self.ctx.const_scopes[si];
            let mut parts: Vec<String> = Vec::new();
            let np = scope.0.len();
            for i in 0..np
                invariant
                    np == scope.0@.len(),
                    parts@.len() == i,
                    forall|j: int| 0 <= j < i ==> parts@[j]@ == scope.0@[j]@,
            {
                parts.push(scope.0[i].clone());
            }
            let nn = names.len();
            for i in 0..nn
                invariant
                    nn == names@.len(),
                    np == scope.0@.len(),
                    parts@.len() == np + i,
                    forall|j: int| 0 <= j < np ==> parts@[j]@ == scope.0@[j]@,
                    forall|j: int| 0 <= j < i ==> parts@[np + j]@ == names@[j]@,
            {
                parts.push(names[i].clone());
            }
            proof {
                assert(crate::names::seq_views(parts@) =~= scopes_v[si as int] + namesv);
            }
            let full = crate::names::toplevel_const(&parts);
            if let Some(t) = self.lookup_const(&full) {
                let mut names2: Vec<String> = Vec::new();
                let nn2 = names.len();
                for i in 0..nn2
                    invariant
                        nn2 == names@.len(),
                        names2@.len() == i,
                        forall|j: int| 0 <= j < i ==> names2@[j]@ == names@[j]@,
                {
                    names2.push(names[i].clone());
                }
                let resolved = ResolvedConstName {
                    namespace: scope.clone(),
                    names: names2,
                    args: Vec::new(),
                    arg_tys: Vec::new(),
                };
                proof {
                    assert(crate::names::seq_views(resolved.names@) =~= namesv);
                    assert(rcn_views(resolved.args@) =~= Seq::<ResolvedConstNameV>::empty());
                    assert(crate::ty::tys_view(resolved.arg_tys@) =~= Seq::<TermTyV>::empty());
                }
                return Ok((t, resolved));
            }
        }
        proof {
            assert(scopes_v.skip(ns_count as int) =~= Seq::<Seq<Seq<char>>>::empty());
        }
        Err(
            crate::error::name_error(
                msg3(
                    "constant `",
                    if names.len() > 0 {
                        names[0].as_str()
                    } else {
                        ""
                    },
                    "' was not found",
                ),
            ),
        )
    }

    /// Resolve a constant name, which may carry type arguments.
    pub(crate) fn resolve_const_name(
        &self,
        name: &crate::ast::ConstName,
        class_only: bool,
    ) -> (r: Result<(TermTy, ResolvedConstName), Error>)
        ensures
            ({
                let spr = sp_resolve_const_name(
                    self.constants@,
                    self.imported_constants@,
                    sp_scope_views(self.ctx.const_scopes@),
                    crate::names::seq_views(self.ctx.typarams@),
                    crate::names::seq_views(self.ctx.method_typarams@),
                    *name,
                    class_only,
                );
                match r {
                    Ok(p) => spr == Ok::<
                        (TermTyV, ResolvedConstNameV),
                        crate::error::ErrorKind,
                    >((p.0@, p.1@)),
                    Err(e) => spr matches Err(k) && e@.kind == k,
                }
            }),
        decreases crate::ast::cn_size(*name), 1int,
    {
        let ghost consts = self.constants@;
        let ghost imported = self.imported_constants@;
        let ghost scopes_v = sp_scope_views(self.ctx.const_scopes@);
        let ghost cls_tp = crate::names::seq_views(self.ctx.typarams@);
        let ghost mth_tp = crate::names::seq_views(self.ctx.method_typarams@);
        let pair = match self.resolve_simple_const(&name.names) {
            Ok(p) => p,
            Err(e) => {
                return Err(e);
            },
        };
        let (base_ty, base_resolved) = pair;
        if !base_ty.is_metaclass() && !base_ty.is_typaram_ref() && (name.has_type_args()
            || class_only) {
            return Err(
                program_error(
                    msg3(
                        "`",
                        if name.names.len() > 0 {
                            name.names[0].as_str()
                        } else {
                            ""
                        },
                        "' is not a class",
                    ),
                ),
            );
        }
        if !name.has_type_args() {
            return Ok((base_ty, base_resolved));
        }
        let mut arg_types: Vec<TermTy> = Vec::new();
        let mut args_resolved: Vec<ResolvedConstName> = Vec::new();
        let na = name.args.len();
        proof {
            assert(name.args@.skip(0) =~= name.args@);
        }
        for i in 0..na
            invariant
                na == name.args@.len(),
                na > 0,
                consts == self.constants@,
                imported == self.imported_constants@,
                scopes_v == sp_scope_views(self.ctx.const_scopes@),
                cls_tp == crate::names::seq_views(self.ctx.typarams@),
                mth_tp == crate::names::seq_views(self.ctx.method_typarams@),
                sp_resolve_simple(
                    consts,
                    imported,
                    scopes_v,
                    cls_tp,
                    mth_tp,
                    crate::names::seq_views(name.names@),
                ) == Ok::<(TermTyV, ResolvedConstNameV), crate::error::ErrorKind>(
                    (base_ty@, base_resolved@),
                ),
                base_ty@ is Meta || base_ty@ is SpeMeta || base_ty@ is TyParamRef,
                sp_resolve_args(consts, imported, scopes_v, cls_tp, mth_tp, name.args@) == (
                match sp_resolve_args(
                    consts,
                    imported,
                    scopes_v,
                    cls_tp,
                    mth_tp,
                    name.args@.skip(i as int),
                ) {
                    Ok(p) => Ok::<(Seq<TermTyV>, Seq<ResolvedConstNameV>), crate::error::ErrorKind>(
                        (crate::ty::tys_view(arg_types@) + p.0, rcn_views(args_resolved@) + p.1),
                    ),
                    Err(k) => Err(k),
                }),
        {
            proof {
                assert(name.args@.skip(i as int)[0] == name.args@[i as int]);
                assert(name.args@.skip(i as int).drop_first() =~= name.args@.skip(i + 1));
                crate::ast::lemma_cn_seq_elem(name.args@, i as int);
            }
            let ghost pre_tys = crate::ty::tys_view(arg_types@);
            let ghost pre_rcns = rcn_views(args_resolved@);
            let ghost pre_vec_t = arg_types@;
            let ghost pre_vec_r = args_resolved@;
            match self.resolve_class_const(&name.args[i]) {
                Ok((t, rn)) => {
                    let ghost tv = t@;
                    let ghost rv = rn@;
                    arg_types.push(t);
                    args_resolved.push(rn);
                    proof {
                        assert(arg_types@.drop_last() =~= pre_vec_t);
                        assert(args_resolved@.drop_last() =~= pre_vec_r);
                        lemma_tys_view_push(arg_types@, pre_tys, tv);
                        lemma_rcn_views_push(args_resolved@, pre_rcns, rv);
                        assert(pre_tys + (seq![tv] + sp_rest_tys(
                            consts,
                            imported,
                            scopes_v,
                            cls_tp,
                            mth_tp,
                            name.args@.skip(i + 1),
                        )) =~= (pre_tys + seq![tv]) + sp_rest_tys(
                            consts,
                            imported,
                            scopes_v,
                            cls_tp,
                            mth_tp,
                            name.args@.skip(i + 1),
                        ));
                        assert(pre_rcns + (seq![rv] + sp_rest_rcns(
                            consts,
                            imported,
                            scopes_v,
                            cls_tp,
                            mth_tp,
                            name.args@.skip(i + 1),
                        )) =~= (pre_rcns + seq![rv]) + sp_rest_rcns(
                            consts,
                            imported,
                            scopes_v,
                            cls_tp,
                            mth_tp,
                            name.args@.skip(i + 1),
                        ));
                    }
                },
                Err(e) => {
                    return Err(e);
                },
            }
        }
        proof {
            assert(name.args@.skip(na as int) =~= Seq::<crate::ast::ConstName>::empty());
            assert(crate::ty::tys_view(arg_types@) + Seq::<TermTyV>::empty() =~= crate::ty::tys_view(
                arg_types@,
            ));
            assert(rcn_views(args_resolved@) + Seq::<ResolvedConstNameV>::empty() =~= rcn_views(
                args_resolved@,
            ));
        }
        let base_string = base_resolved.to_string();
        let arg_types2 = crate::ty::dup_tys(&arg_types);
        let t = crate::ty::spe_meta(base_string.as_str(), arg_types);
        let resolved = ResolvedConstName {
            namespace: base_resolved.namespace,
            names: base_resolved.names,
            args: args_resolved,
            arg_tys: arg_types2,
        };
        Ok((t, resolved))
    }

    /// Resolve a constant name that must denote a class; strips the
    /// metaclass layer unless the name is a type parameter.
    pub(crate) fn resolve_class_const(&self, name: &crate::ast::ConstName) -> (r: Result<
        (TermTy, ResolvedConstName),
        Error,
    >)
        ensures
            ({
                let spr = sp_resolve_class_const(
                    self.constants@,
                    self.imported_constants@,
                    sp_scope_views(self.ctx.const_scopes@),
                    crate::names::seq_views(self.ctx.typarams@),
                    crate::names::seq_views(self.ctx.method_typarams@),
                    *name,
                );
                match r {
                    Ok(p) => spr == Ok::<
                        (TermTyV, ResolvedConstNameV),
                        crate::error::ErrorKind,
                    >((p.0@, p.1@)),
                    Err(e) => spr matches Err(k) && e@.kind == k,
                }
            }),
        decreases crate::ast::cn_size(*name), 2int,
    {
        let pair = match self.resolve_const_name(name, true) {
            Ok(p) => p,
            Err(e) => {
                return Err(e);
            },
        };
        let (resolved_ty, resolved_name) = pair;
        let t = if resolved_ty.is_typaram_ref() {
            resolved_ty
        } else {
            resolved_ty.instance_ty()
        };
        Ok((t, resolved_name))
    }

    /// A freshly numbered name for the lambda being lowered.
    pub fn create_lambda_name(&mut self) -> (r: String)
        ensures
            *final(self) == (
            HirMaker { lambda_ct: final(self).lambda_ct, ..*old(self) }),
            final(self).lambda_ct as int == if old(self).lambda_ct < usize::MAX {
                old(self).lambda_ct + 1
            } else {
                old(self).lambda_ct as int
            },
            r@ == "lambda_"@ + crate::names::sp_decimal(final(self).lambda_ct as nat) + "_in_"@ + (match old(
                self,
            ).ctx.method {
                Some(mc) => mc.signature.fullname@.full_name,
                None => "toplevel"@,
            }),
    {
        if self.lambda_ct < usize::MAX {
            self.lambda_ct = self.lambda_ct + 1;
        }
        let mut s = String::from_str("lambda_");
        let num = crate::names::usize_to_string(self.lambda_ct);
        s.append(num.as_str());
        s.append("_in_");
        match &self.ctx.method {
            Some(mc) => {
                s.append(mc.signature.fullname.full_name.as_str());
            },
            None => {
                s.append("toplevel");
            },
        }
        s
    }
}

} // verus!

verus! {

/// The type parameter a bare name denotes, if any; method-level ones
/// shadow class-level ones.
pub open spec fn sp_lookup_typaram(
    cls: Seq<Seq<char>>,
    mth: Seq<Seq<char>>,
    name: Seq<char>,
) -> Option<TermTyV> {
    if crate::names::str_idx_of(mth, name) >= 0 {
        Some(
            TermTyV::TyParamRef {
                name,
                kind: crate::ty::TyParamKind::Method,
                idx: crate::names::str_idx_of(mth, name) as nat,
            },
        )
    } else if crate::names::str_idx_of(cls, name) >= 0 {
        Some(
            TermTyV::TyParamRef {
                name,
                kind: crate::ty::TyParamKind::Class,
                idx: crate::names::str_idx_of(cls, name) as nat,
            },
        )
    } else {
        None
    }
}

/// The views of the constant scopes.
pub open spec fn sp_scope_views(s: Seq<Namespace>) -> Seq<Seq<Seq<char>>> {
    Seq::new(s.len(), |i: int| s[i]@)
}

/// The walk through the constant scopes, innermost first: the first scope
/// under which the joined path is a known constant wins.
pub open spec fn sp_resolve_in_scopes(
    consts: Seq<(Seq<char>, TermTyV)>,
    imported: Seq<(Seq<char>, TermTyV)>,
    scopes: Seq<Seq<Seq<char>>>,
    names: Seq<Seq<char>>,
) -> Result<(TermTyV, ResolvedConstNameV), crate::error::ErrorKind>
    decreases scopes.len(),
{
    if scopes.len() == 0 {
        Err(crate::error::ErrorKind::NameError)
    } else {
        match sp_lookup_const(
            consts,
            imported,
            crate::names::toplevel_const_seq(scopes[0] + names),
        ) {
            Some(t) => Ok(
                (
                    t,
                    ResolvedConstNameV {
                        namespace: scopes[0],
                        names,
                        args: Seq::empty(),
                        arg_tys: Seq::empty(),
                    },
                ),
            ),
            None => sp_resolve_in_scopes(consts, imported, scopes.drop_first(), names),
        }
    }
}

/// `resolve_simple_const` at the level of views: a single name that is a
/// type parameter in scope, or a constant found through the scopes.
pub open spec fn sp_resolve_simple(
    consts: Seq<(Seq<char>, TermTyV)>,
    imported: Seq<(Seq<char>, TermTyV)>,
    scopes: Seq<Seq<Seq<char>>>,
    cls_tp: Seq<Seq<char>>,
    mth_tp: Seq<Seq<char>>,
    names: Seq<Seq<char>>,
) -> Result<(TermTyV, ResolvedConstNameV), crate::error::ErrorKind> {
    if names.len() == 1 && sp_lookup_typaram(cls_tp, mth_tp, names[0]) is Some {
        Ok(
            (
                sp_lookup_typaram(cls_tp, mth_tp, names[0]).unwrap(),
                ResolvedConstNameV {
                    namespace: Seq::empty(),
                    names,
                    args: Seq::empty(),
                    arg_tys: Seq::empty(),
                },
            ),
        )
    } else {
        sp_resolve_in_scopes(consts, imported, scopes, names)
    }
}

/// `resolve_const_name` at the level of views.
pub open spec fn sp_resolve_const_name(
    consts: Seq<(Seq<char>, TermTyV)>,
    imported: Seq<(Seq<char>, TermTyV)>,
    scopes: Seq<Seq<Seq<char>>>,
    cls_tp: Seq<Seq<char>>,
    mth_tp: Seq<Seq<char>>,
    n: crate::ast::ConstName,
    class_only: bool,
) -> Result<(TermTyV, ResolvedConstNameV), crate::error::ErrorKind>
    decreases crate::ast::cn_size(n), 1int,
{
    match sp_resolve_simple(
        consts,
        imported,
        scopes,
        cls_tp,
        mth_tp,
        crate::names::seq_views(n.names@),
    ) {
        Err(k) => Err(k),
        Ok((base_ty, base_rcn)) => {
            if !(base_ty is Meta || base_ty is SpeMeta) && !(base_ty is TyParamRef) && (
            n.args@.len() > 0 || class_only) {
                Err(crate::error::ErrorKind::ProgramError)
            } else if n.args@.len() == 0 {
                Ok((base_ty, base_rcn))
            } else {
                match sp_resolve_args(consts, imported, scopes, cls_tp, mth_tp, n.args@) {
                    Err(k) => Err(k),
                    Ok(p) => Ok(
                        (
                            crate::ty::spe_meta_v(sp_rcn_string(base_rcn), p.0),
                            ResolvedConstNameV {
                                namespace: base_rcn.namespace,
                                names: base_rcn.names,
                                args: p.1,
                                arg_tys: p.0,
                            },
                        ),
                    ),
                }
            }
        },
    }
}

/// `resolve_class_const` at the level of views: strips the metaclass layer
/// unless the name is a type parameter.
pub open spec fn sp_resolve_class_const(
    consts: Seq<(Seq<char>, TermTyV)>,
    imported: Seq<(Seq<char>, TermTyV)>,
    scopes: Seq<Seq<Seq<char>>>,
    cls_tp: Seq<Seq<char>>,
    mth_tp: Seq<Seq<char>>,
    n: crate::ast::ConstName,
) -> Result<(TermTyV, ResolvedConstNameV), crate::error::ErrorKind>
    decreases crate::ast::cn_size(n), 2int,
{
    match sp_resolve_const_name(consts, imported, scopes, cls_tp, mth_tp, n, true) {
        Err(k) => Err(k),
        Ok((t, r)) => Ok(
            (
                if t is TyParamRef {
                    t
                } else {
                    crate::ty::instance_ty_v(t)
                },
                r,
            ),
        ),
    }
}

/// The type arguments of a constant name, resolved in order.
pub open spec fn sp_resolve_args(
    consts: Seq<(Seq<char>, TermTyV)>,
    imported: Seq<(Seq<char>, TermTyV)>,
    scopes: Seq<Seq<Seq<char>>>,
    cls_tp: Seq<Seq<char>>,
    mth_tp: Seq<Seq<char>>,
    args: Seq<crate::ast::ConstName>,
) -> Result<(Seq<TermTyV>, Seq<ResolvedConstNameV>), crate::error::ErrorKind>
    decreases crate::ast::cn_seq(args), 3int,
    via sp_resolve_args_dec
{
    if args.len() == 0 {
        Ok((Seq::empty(), Seq::empty()))
    } else {
        match sp_resolve_class_const(consts, imported, scopes, cls_tp, mth_tp, args[0]) {
            Err(k) => Err(k),
            Ok((t, r)) => match sp_resolve_args(
                consts,
                imported,
                scopes,
                cls_tp,
                mth_tp,
                args.drop_first(),
            ) {
                Err(k) => Err(k),
                Ok(p) => Ok((seq![t] + p.0, seq![r] + p.1)),
            },
        }
    }
}

#[via_fn]
proof fn sp_resolve_args_dec(
    consts: Seq<(Seq<char>, TermTyV)>,
    imported: Seq<(Seq<char>, TermTyV)>,
    scopes: Seq<Seq<Seq<char>>>,
    cls_tp: Seq<Seq<char>>,
    mth_tp: Seq<Seq<char>>,
    args: Seq<crate::ast::ConstName>,
) {
    if args.len() > 0 {
        crate::ast::lemma_cn_seq_elem(args, 0);
    }
}

/// Resolving the same constant name twice, in the same environment, gives
/// the same type and the same resolved name.
pub proof fn lemma_resolution_deterministic(
    consts: Seq<(Seq<char>, TermTyV)>,
    imported: Seq<(Seq<char>, TermTyV)>,
    scopes: Seq<Seq<Seq<char>>>,
    cls_tp: Seq<Seq<char>>,
    mth_tp: Seq<Seq<char>>,
    n: crate::ast::ConstName,
    class_only: bool,
    r1: Result<(TermTyV, ResolvedConstNameV), crate::error::ErrorKind>,
    r2: Result<(TermTyV, ResolvedConstNameV), crate::error::ErrorKind>,
)
    requires
        r1 == sp_resolve_const_name(consts, imported, scopes, cls_tp, mth_tp, n, class_only),
        r2 == sp_resolve_const_name(consts, imported, scopes, cls_tp, mth_tp, n, class_only),
    ensures
        r1 == r2,
{
}

} // verus!

verus! {

/// The resolved types of the remaining arguments, assuming they resolve.
pub open spec fn sp_rest_tys(
    consts: Seq<(Seq<char>, TermTyV)>,
    imported: Seq<(Seq<char>, TermTyV)>,
    scopes: Seq<Seq<Seq<char>>>,
    cls_tp: Seq<Seq<char>>,
    mth_tp: Seq<Seq<char>>,
    args: Seq<crate::ast::ConstName>,
) -> Seq<TermTyV> {
    match sp_resolve_args(consts, imported, scopes, cls_tp, mth_tp, args) {
        Ok(p) => p.0,
        Err(_) => Seq::empty(),
    }
}

/// The resolved names of the remaining arguments, assuming they resolve.
pub open spec fn sp_rest_rcns(
    consts: Seq<(Seq<char>, TermTyV)>,
    imported: Seq<(Seq<char>, TermTyV)>,
    scopes: Seq<Seq<Seq<char>>>,
    cls_tp: Seq<Seq<char>>,
    mth_tp: Seq<Seq<char>>,
    args: Seq<crate::ast::ConstName>,
) -> Seq<ResolvedConstNameV> {
    match sp_resolve_args(consts, imported, scopes, cls_tp, mth_tp, args) {
        Ok(p) => p.1,
        Err(_) => Seq::empty(),
    }
}

/// Appending one element extends the element-wise views by its view.
proof fn lemma_tys_view_push(s: Seq<TermTy>, pre: Seq<TermTyV>, tv: TermTyV)
    requires
        s.len() > 0,
        crate::ty::tys_view(s.drop_last()) == pre,
        s.last()@ == tv,
    ensures
        crate::ty::tys_view(s) == pre + seq![tv],
{
    crate::ty::lemma_tys_view(s);
    crate::ty::lemma_tys_view(s.drop_last());
    assert(crate::ty::tys_view(s) =~= pre + seq![tv]);
}

proof fn lemma_rcn_views_push(s: Seq<ResolvedConstName>, pre: Seq<ResolvedConstNameV>, rv: ResolvedConstNameV)
    requires
        s.len() > 0,
        rcn_views(s.drop_last()) == pre,
        s.last()@ == rv,
    ensures
        rcn_views(s) == pre + seq![rv],
{
    lemma_rcn_views(s);
    lemma_rcn_views(s.drop_last());
    assert(rcn_views(s) =~= pre + seq![rv]);
}

} // verus!

verus! {

/// A constant found through the scope walk is registered under the joined
/// name of the scope it was found in.
pub proof fn lemma_resolved_const_is_registered(
    consts: Seq<(Seq<char>, TermTyV)>,
    imported: Seq<(Seq<char>, TermTyV)>,
    scopes: Seq<Seq<Seq<char>>>,
    names: Seq<Seq<char>>,
    t: TermTyV,
    rcn: ResolvedConstNameV,
)
    requires
        sp_resolve_in_scopes(consts, imported, scopes, names) == Ok::<
            (TermTyV, ResolvedConstNameV),
            crate::error::ErrorKind,
        >((t, rcn)),
    ensures
        sp_lookup_const(
            consts,
            imported,
            crate::names::toplevel_const_seq(rcn.namespace + rcn.names),
        ) == Some(t),
        rcn.args.len() == 0,
        rcn.names == names,
    decreases scopes.len(),
{
    if scopes.len() > 0 {
        match sp_lookup_const(
            consts,
            imported,
            crate::names::toplevel_const_seq(scopes[0] + names),
        ) {
            Some(_) => {},
            None => {
                lemma_resolved_const_is_registered(
                    consts,
                    imported,
                    scopes.drop_first(),
                    names,
                    t,
                    rcn,
                );
            },
        }
    }
}

} // verus!
