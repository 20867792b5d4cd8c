//! Lowering parsed expressions into typed HIR.
//!
//! Each `convert_*` function lowers one expression form, computes its type,
//! and leaves the scope stack exactly as deep as it found it; the capture
//! well-formedness of `hir_maker` is preserved throughout.

use vstd::prelude::*;
use crate::ast::AstExpression;
use crate::ast::AstExpressionBody;
use crate::ast::ConstName;
use crate::ast::Param;
use crate::ast::PseudoVar;
use crate::ast::eseq;
use crate::ast::esize;
use crate::ast::lemma_eseq_elem;
use crate::error::Error;
use crate::error::ErrorKind;
use crate::error::bug;
use crate::error::msg3;
use crate::error::program_error;
use crate::error::type_error;
use crate::hir::Hir;
use crate::hir::HirBreakFrom;
use crate::hir::HirExpression;
use crate::hir::HirExpressionBase;
use crate::hir::HirExpressions;
use crate::hir::HirLVar;
use crate::hir::HirLambdaCapture;
use crate::hir::HirReturnFrom;
use crate::hir::void_const_ref;
use crate::hir_maker::CtxKind;
use crate::hir_maker::HirMaker;
use crate::hir_maker::LambdaCapture;
use crate::hir_maker::LambdaCaptureDetail;
use crate::hir_maker::LambdaCtx;
use crate::hir_maker::ResolvedConstName;
use crate::hir_maker::ctx_captures_wf;
use crate::hir_maker::CtxLVarV;
use crate::hir_maker::sp_in_initializer;
use crate::hir_maker::sp_innermost_lvar;
use crate::hir_maker::sp_var_visible;
use crate::names::ClassFullname;
use crate::names::MethodFirstname;
use crate::names::toplevel_const;
use crate::names::toplevel_const_seq;
use crate::names::seq_views;
use crate::sk::MethodParam;
use crate::sk::MethodSignature;
use crate::sk::SkIVar;
use crate::sk::SkIVarV;
use crate::strmap::DupView;
use crate::strmap::StrMap;
use crate::strmap::spec_contains;
use crate::strmap::spec_get;
use crate::strmap::spec_insert;
use crate::ty;
use crate::ty::TermTy;
use crate::ty::TermTyV;
use crate::ty::dup_tys;
use crate::ty::fn_x_info_v;
use crate::ty::fn_x_string;
use crate::ty::lemma_tys_view;
use crate::ty::raw_v;
use crate::ty::tys_view;
use crate::type_checking::check_condition_ty;
use crate::type_checking::check_logical_operator_ty;
use crate::type_checking::check_method_args;
use crate::type_checking::check_reassign_var;
use crate::type_checking::check_return_arg_type;
use crate::class_dict::sp_find_ivar;

verus! {

/// The scope stack is as deep as before and the same construct is current.
pub open spec fn keeps_ctx(pre: HirMaker, post: HirMaker) -> bool {
    &&& post.ctx.lambdas@.len() == pre.ctx.lambdas@.len()
    &&& post.ctx.current == pre.ctx.current
}

/// Every signature of a generic metaclass, specialized by the given type
/// arguments, keyed as before.
pub open spec fn sp_specialized_sigs(
    acc: crate::class_dict::SigsV,
    sigs: crate::class_dict::SigsV,
    args: Seq<TermTyV>,
) -> crate::class_dict::SigsV
    decreases sigs.len(),
{
    if sigs.len() == 0 {
        acc
    } else {
        sp_specialized_sigs(
            spec_insert(
                acc,
                sigs[0].0,
                crate::sk::specialize_sig_v(sigs[0].1, args, Seq::empty()),
            ),
            sigs.drop_first(),
            args,
        )
    }
}

/// A recorded capture binds in the directly enclosing scope: the innermost
/// remaining lambda, or the method frame when no lambda remains.
pub open spec fn sp_captured_here(c: LambdaCapture, n: nat) -> bool {
    match c.ctx_depth {
        Some(d) => n > 0 && d == n - 1,
        None => n == 0,
    }
}

/// How many of the first `k` captures are forwarded (bound farther out than
/// the directly enclosing scope).
pub open spec fn sp_fwd_before(caps: Seq<LambdaCapture>, n: nat, k: int) -> nat
    decreases k,
{
    if k <= 0 {
        0
    } else {
        sp_fwd_before(caps, n, k - 1) + if sp_captured_here(caps[k - 1], n) {
            0nat
        } else {
            1nat
        }
    }
}

/// The block-break rule passes: no argument, the last argument is not a
/// block with a `break`, or the method returns `Void`.
pub open spec fn sp_block_break_ok(ret_ty: TermTyV, args: Seq<HirExpression>) -> bool {
    args.len() == 0 || match args.last().node {
        HirExpressionBase::HirLambdaExpr { has_break, .. } => !has_break || ret_ty == raw_v(
            "Void"@,
        ),
        _ => true,
    }
}

/// The result type of an `if`, stated over the stored branches: a `Never`
/// branch defers to the other, a `Void` result voidified both, and
/// otherwise both branches were brought to the result type.
pub open spec fn sp_if_ty_rule(t: HirExpressions, el: HirExpressions, ty: TermTyV) -> bool {
    if t.ty@ == raw_v("Never"@) {
        ty == el.ty@
    } else if el.ty@ == raw_v("Never"@) {
        ty == t.ty@
    } else if ty == raw_v("Void"@) {
        t.ty@ == raw_v("Void"@) && el.ty@ == raw_v("Void"@)
    } else {
        t.ty@ == ty && el.ty@ == ty
    }
}

/// The indices of an ivar table count up from `base` in insertion order.
pub open spec fn sp_ivars_indexed(ivars: Seq<(Seq<char>, crate::sk::SkIVarV)>, base: nat) -> bool {
    forall|j: int| 0 <= j < ivars.len() ==> (#[trigger] ivars[j]).1.idx == base + j
}

/// The type `FnN<param tys..., ret ty>` of a lambda.
pub fn lambda_ty(params: &Vec<MethodParam>, ret_ty: &TermTy) -> (r: TermTy)
    ensures
        fn_x_info_v(r@) == Some(ret_ty@),
{
    let mut tyargs: Vec<TermTy> = Vec::new();
    let n = params.len();
    for i in 0..n
        invariant
            n == params@.len(),
            tyargs@.len() == i,
    {
        tyargs.push(params[i].ty.dup());
    }
    tyargs.push(ret_ty.dup());
    proof {
        crate::ty::lemma_tys_view(tyargs@);
    }
    let fn_name = fn_x_string(n);
    let r = ty::spe(fn_name.as_str(), tyargs);
    proof {
        assert(tys_view(tyargs@).last() == ret_ty@);
    }
    r
}

/// A `break` inside a block is only allowed when the block may return
/// `Void`; in that case the block's return type is rewritten to `Void`.
pub fn check_break_in_block(sig: &MethodSignature, last_arg: HirExpression) -> (r: Result<
    HirExpression,
    Error,
>)
    ensures
        (match last_arg.node {
            HirExpressionBase::HirLambdaExpr { has_break, .. } => has_break,
            _ => false,
        } && sig.ret_ty@ != raw_v("Void"@)) ==> (r matches Err(e) && e@.kind
            == ErrorKind::ProgramError),
        (match last_arg.node {
            HirExpressionBase::HirLambdaExpr { has_break, .. } => !has_break,
            _ => true,
        }) ==> r == Ok::<HirExpression, Error>(last_arg),
        (match last_arg.node {
            HirExpressionBase::HirLambdaExpr { has_break, .. } => has_break,
            _ => false,
        } && sig.ret_ty@ == raw_v("Void"@)) ==> (r matches Ok(e) && e.ty == last_arg.ty && (
        match (e.node, last_arg.node) {
            (
                HirExpressionBase::HirLambdaExpr {
                    name: n1,
                    params: p1,
                    exprs: e1,
                    captures: c1,
                    lvars: l1,
                    ret_ty: rt1,
                    has_break: hb1,
                },
                HirExpressionBase::HirLambdaExpr {
                    name: n2,
                    params: p2,
                    exprs: e2,
                    captures: c2,
                    lvars: l2,
                    has_break: hb2,
                    ..
                },
            ) => n1 == n2 && p1 == p2 && e1 == e2 && c1 == c2 && l1 == l2 && hb1 == hb2 && rt1@
                == raw_v("Void"@),
            _ => false,
        })),
{
    match last_arg.node {
        HirExpressionBase::HirLambdaExpr {
            name,
            params,
            exprs,
            captures,
            lvars,
            ret_ty,
            has_break,
        } => {
            if has_break {
                if sig.ret_ty.is_void_type() {
                    let node = HirExpressionBase::HirLambdaExpr {
                        name,
                        params,
                        exprs,
                        captures,
                        lvars,
                        ret_ty: ty::raw("Void"),
                        has_break,
                    };
                    Ok(HirExpression { ty: last_arg.ty, node })
                } else {
                    Err(
                        program_error(
                            String::from_str(
                                "`break' not allowed because this block is expected to return a value",
                            ),
                        ),
                    )
                }
            } else {
                let node = HirExpressionBase::HirLambdaExpr {
                    name,
                    params,
                    exprs,
                    captures,
                    lvars,
                    ret_ty,
                    has_break,
                };
                Ok(HirExpression { ty: last_arg.ty, node })
            }
        },
        node => Ok(HirExpression { ty: last_arg.ty, node }),
    }
}

impl HirMaker {
    /// Whether the lowering stands directly in the body of `initialize`.
    pub fn is_in_initializer(&self) -> (r: bool)
        ensures
            r == sp_in_initializer(self.ctx),
    {
        if self.ctx.lambdas.len() != 0 {
            return false;
        }
        match &self.ctx.method {
            Some(mc) => mc.signature.fullname.first_name.0.eq(&String::from_str("initialize")),
            None => false,
        }
    }

    /// `self` as an expression.
    pub fn convert_self_expr(&self) -> (r: HirExpression)
        ensures
            r.ty@ == self.ctx.self_ty@,
            r.node == HirExpressionBase::HirSelfExpression,
    {
        Hir::self_expression(self.ctx.self_ty.dup())
    }

    /// Lower a list of expressions; the list's type is the last one's.
    pub fn convert_exprs(&mut self, exprs: &Vec<AstExpression>) -> (r: Result<
        HirExpressions,
        Error,
    >)
        requires
            ctx_captures_wf(old(self).ctx.lambdas@),
        ensures
            ctx_captures_wf(final(self).ctx.lambdas@),
            keeps_ctx(*old(self), *final(self)),
            exprs@.len() == 0 ==> (r matches Ok(h) && h.ty@ == raw_v("Void"@) && h.exprs@.len()
                == 0),
            r matches Ok(h) ==> h.exprs@.len() == exprs@.len() && (if h.exprs@.len() == 0 {
                h.ty@ == raw_v("Void"@)
            } else {
                h.ty@ == h.exprs@.last().ty@
            }),
            (forall|i: int|
                0 <= i < exprs@.len() ==> (#[trigger] exprs@[i]).body is DecimalLiteral)
                ==> r is Ok,
        decreases eseq(exprs@), 1int,
    {
        let mut hir_exprs: Vec<HirExpression> = Vec::new();
        let n = exprs.len();
        for i in 0..n
            invariant
                n == exprs@.len(),
                ctx_captures_wf(self.ctx.lambdas@),
                keeps_ctx(*old(self), *self),
                hir_exprs@.len() == i,
            decreases eseq(exprs@), 1int, n - i,
        {
            proof {
                lemma_eseq_elem(exprs@, i as int);
            }
            match self.convert_expr(&exprs[i]) {
                Ok(e) => {
                    hir_exprs.push(e);
                },
                Err(e) => {
                    return Err(e);
                },
            }
        }
        Ok(HirExpressions::new(hir_exprs))
    }

    /// Lower one expression.
    pub fn convert_expr(&mut self, expr: &AstExpression) -> (r: Result<HirExpression, Error>)
        requires
            ctx_captures_wf(old(self).ctx.lambdas@),
        ensures
            ctx_captures_wf(final(self).ctx.lambdas@),
            keeps_ctx(*old(self), *final(self)),
            expr.body matches AstExpressionBody::DecimalLiteral { value } ==> (r matches Ok(e)
                && *final(self) == *old(self) && e.ty@ == raw_v("Int"@) && e.node == (
            HirExpressionBase::HirDecimalLiteral { value })),
            expr.body is PseudoVariable ==> (r is Ok && *final(self) == *old(self)),
            (expr.body matches AstExpressionBody::PseudoVariable { token: PseudoVar::True }) ==> (
            r matches Ok(e) && e.ty@ == raw_v("Bool"@)),
            expr.body is StringLiteral ==> r is Ok,
        decreases esize(*expr), 0int,
    {
        match &expr.body {
            AstExpressionBody::LogicalNot { expr: e } => self.convert_logical_not(e),
            AstExpressionBody::LogicalAnd { left, right } => self.convert_logical_and(left, right),
            AstExpressionBody::LogicalOr { left, right } => self.convert_logical_or(left, right),
            AstExpressionBody::If { cond_expr, then_exprs, else_exprs } => self.convert_if_expr(
                cond_expr,
                then_exprs,
                else_exprs,
            ),
            AstExpressionBody::While { cond_expr, body_exprs } => self.convert_while_expr(
                cond_expr,
                body_exprs,
            ),
            AstExpressionBody::Break => self.convert_break_expr(),
            AstExpressionBody::Return { arg } => self.convert_return_expr(arg),
            AstExpressionBody::LVarAssign { name, rhs, is_var } => self.convert_lvar_assign(
                name,
                rhs,
                *is_var,
            ),
            AstExpressionBody::IVarAssign { name, rhs, is_var } => self.convert_ivar_assign(
                name,
                rhs,
                *is_var,
            ),
            AstExpressionBody::ConstAssign { names, rhs } => self.convert_const_assign(names, rhs),
            AstExpressionBody::MethodCall { receiver_expr, method_name, arg_exprs, type_args, .. } => self.convert_method_call(
                receiver_expr,
                method_name,
                arg_exprs,
                type_args,
            ),
            AstExpressionBody::LambdaExpr { params, exprs, is_fn } => self.convert_lambda_expr(
                params,
                exprs,
                *is_fn,
            ),
            AstExpressionBody::BareName { name } => self.convert_bare_name(name),
            AstExpressionBody::IVarRef { name } => self.convert_ivar_ref(name),
            AstExpressionBody::ConstRef { name } => self.convert_const_ref(name),
            AstExpressionBody::PseudoVariable { token } => self.convert_pseudo_variable(*token),
            AstExpressionBody::ArrayLiteral { exprs } => self.convert_array_literal(exprs),
            AstExpressionBody::DecimalLiteral { value } => Ok(Hir::decimal_literal(*value)),
            AstExpressionBody::StringLiteral { content } => Ok(self.convert_string_literal(
                content,
            )),
        }
    }

    fn convert_logical_not(&mut self, expr: &AstExpression) -> (r: Result<HirExpression, Error>)
        requires
            ctx_captures_wf(old(self).ctx.lambdas@),
        ensures
            ctx_captures_wf(final(self).ctx.lambdas@),
            keeps_ctx(*old(self), *final(self)),
            r matches Ok(e) ==> e.ty@ == raw_v("Bool"@) && (match e.node {
                HirExpressionBase::HirLogicalNot { expr: inner } => inner.ty@ == raw_v("Bool"@),
                _ => false,
            }),
            (expr.body matches AstExpressionBody::PseudoVariable { token: PseudoVar::True })
                ==> r is Ok,
        decreases esize(*expr), 2int,
    {
        let expr_hir = match self.convert_expr(expr) {
            Ok(e) => e,
            Err(e) => {
                return Err(e);
            },
        };
        match check_logical_operator_ty(&expr_hir.ty, "the argument of logical not") {
            Ok(()) => Ok(Hir::logical_not(expr_hir)),
            Err(e) => Err(e),
        }
    }

    fn convert_logical_and(&mut self, left: &AstExpression, right: &AstExpression) -> (r: Result<
        HirExpression,
        Error,
    >)
        requires
            ctx_captures_wf(old(self).ctx.lambdas@),
        ensures
            ctx_captures_wf(final(self).ctx.lambdas@),
            keeps_ctx(*old(self), *final(self)),
            r matches Ok(e) ==> e.ty@ == raw_v("Bool"@) && (match e.node {
                HirExpressionBase::HirLogicalAnd { left: l, right: rr } => l.ty@ == raw_v("Bool"@)
                    && rr.ty@ == raw_v("Bool"@),
                _ => false,
            }),
            (left.body matches AstExpressionBody::PseudoVariable { token: PseudoVar::True })
                && (right.body matches AstExpressionBody::PseudoVariable {
                token: PseudoVar::True,
            }) ==> r is Ok,
        decreases esize(*left) + esize(*right), 2int,
    {
        let left_hir = match self.convert_expr(left) {
            Ok(e) => e,
            Err(e) => {
                return Err(e);
            },
        };
        let right_hir = match self.convert_expr(right) {
            Ok(e) => e,
            Err(e) => {
                return Err(e);
            },
        };
        match check_logical_operator_ty(&left_hir.ty, "the lhs of logical and") {
            Ok(()) => {},
            Err(e) => {
                return Err(e);
            },
        }
        match check_logical_operator_ty(&right_hir.ty, "the rhs of logical and") {
            Ok(()) => {},
            Err(e) => {
                return Err(e);
            },
        }
        Ok(Hir::logical_and(left_hir, right_hir))
    }

    fn convert_logical_or(&mut self, left: &AstExpression, right: &AstExpression) -> (r: Result<
        HirExpression,
        Error,
    >)
        requires
            ctx_captures_wf(old(self).ctx.lambdas@),
        ensures
            ctx_captures_wf(final(self).ctx.lambdas@),
            keeps_ctx(*old(self), *final(self)),
            r matches Ok(e) ==> e.ty@ == raw_v("Bool"@) && (match e.node {
                HirExpressionBase::HirLogicalOr { left: l, right: rr } => l.ty@ == raw_v("Bool"@)
                    && rr.ty@ == raw_v("Bool"@),
                _ => false,
            }),
            (left.body matches AstExpressionBody::PseudoVariable { token: PseudoVar::True })
                && (right.body matches AstExpressionBody::PseudoVariable {
                token: PseudoVar::True,
            }) ==> r is Ok,
        decreases esize(*left) + esize(*right), 2int,
    {
        let left_hir = match self.convert_expr(left) {
            Ok(e) => e,
            Err(e) => {
                return Err(e);
            },
        };
        let right_hir = match self.convert_expr(right) {
            Ok(e) => e,
            Err(e) => {
                return Err(e);
            },
        };
        match check_logical_operator_ty(&left_hir.ty, "the lhs of logical or") {
            Ok(()) => {},
            Err(e) => {
                return Err(e);
            },
        }
        match check_logical_operator_ty(&right_hir.ty, "the rhs of logical or") {
            Ok(()) => {},
            Err(e) => {
                return Err(e);
            },
        }
        Ok(Hir::logical_or(left_hir, right_hir))
    }

    /// Lower an `if`.  The result type follows the priority rules: a
    /// `Never` branch defers to the other branch; a `Void` branch voidifies
    /// the other and the whole `if`; otherwise the nearest common ancestor
    /// is taken and differing branches are bit-cast to it.  An `if` without
    /// an else branch is always `Void`.
    fn convert_if_expr(
        &mut self,
        cond_expr: &AstExpression,
        then_exprs: &Vec<AstExpression>,
        else_exprs: &Option<Vec<AstExpression>>,
    ) -> (r: Result<HirExpression, Error>)
        requires
            ctx_captures_wf(old(self).ctx.lambdas@),
        ensures
            ctx_captures_wf(final(self).ctx.lambdas@),
            keeps_ctx(*old(self), *final(self)),
            r matches Ok(e) ==> match e.node {
                HirExpressionBase::HirIfExpression { cond_expr: c, then_exprs: t, else_exprs: el } => {
                    &&& c.ty@ == raw_v("Bool"@)
                    &&& (t.ty@ == e.ty@ || t.ty@ == raw_v("Never"@))
                    &&& (el.ty@ == e.ty@ || el.ty@ == raw_v("Never"@))
                    &&& sp_if_ty_rule(*t, *el, e.ty@)
                },
                _ => false,
            },
            else_exprs is None && r is Ok ==> (r matches Ok(e) && e.ty@ == raw_v("Void"@)),
            (cond_expr.body matches AstExpressionBody::PseudoVariable { token: PseudoVar::True })
                && then_exprs@.len() == 0 && else_exprs is None ==> r is Ok,
        decreases esize(*cond_expr) + eseq(then_exprs@) + (match *else_exprs {
            Some(es) => eseq(es@),
            None => 0,
        }), 2int,
    {
        proof {
            reveal_strlit("Void");
            reveal_strlit("Never");
        }
        let cond_hir = match self.convert_expr(cond_expr) {
            Ok(e) => e,
            Err(e) => {
                return Err(e);
            },
        };
        match check_condition_ty(&cond_hir.ty, "an if") {
            Ok(()) => {},
            Err(e) => {
                return Err(e);
            },
        }
        let mut then_hirs = match self.convert_exprs(then_exprs) {
            Ok(h) => h,
            Err(e) => {
                return Err(e);
            },
        };
        let mut else_hirs = match else_exprs {
            Some(exprs) => {
                proof {
                    assert(esize(*cond_expr) >= 1);
                }
                match self.convert_exprs(exprs) {
                    Ok(h) => h,
                    Err(e) => {
                        return Err(e);
                    },
                }
            },
            None => HirExpressions::new(Vec::new()),
        };
        if then_hirs.ty.is_never_type() {
            let if_ty = else_hirs.ty.dup();
            return Ok(Hir::if_expression(if_ty, cond_hir, then_hirs, else_hirs));
        }
        if else_hirs.ty.is_never_type() {
            proof {
                if else_exprs is None {
                    reveal_strlit("Void");
                    reveal_strlit("Never");
                    assert("Void"@.len() == 4);
                    assert("Never"@.len() == 5);
                    assert(false);
                }
            }
            let if_ty = then_hirs.ty.dup();
            return Ok(Hir::if_expression(if_ty, cond_hir, then_hirs, else_hirs));
        }
        if then_hirs.ty.is_void_type() {
            else_hirs.voidify();
            return Ok(Hir::if_expression(ty::raw("Void"), cond_hir, then_hirs, else_hirs));
        }
        if else_hirs.ty.is_void_type() {
            then_hirs.voidify();
            return Ok(Hir::if_expression(ty::raw("Void"), cond_hir, then_hirs, else_hirs));
        }
        let if_ty = match self.class_dict.nearest_common_ancestor(&then_hirs.ty, &else_hirs.ty) {
            Some(t) => t,
            None => {
                return Err(
                    type_error(
                        String::from_str("the branches of this if have no common ancestor"),
                    ),
                );
            },
        };
        if !then_hirs.ty.equals_to(&if_ty) {
            proof {
                assert(then_hirs.ty@ != raw_v("Void"@));
            }
            then_hirs = then_hirs.bitcast_to(if_ty.dup());
        }
        if !else_hirs.ty.equals_to(&if_ty) {
            else_hirs = else_hirs.bitcast_to(if_ty.dup());
        }
        Ok(Hir::if_expression(if_ty, cond_hir, then_hirs, else_hirs))
    }

    /// Lower a `while`; the loop is `Void`.
    fn convert_while_expr(
        &mut self,
        cond_expr: &AstExpression,
        body_exprs: &Vec<AstExpression>,
    ) -> (r: Result<HirExpression, Error>)
        requires
            ctx_captures_wf(old(self).ctx.lambdas@),
        ensures
            ctx_captures_wf(final(self).ctx.lambdas@),
            keeps_ctx(*old(self), *final(self)),
            r matches Ok(e) ==> e.ty@ == raw_v("Void"@) && (match e.node {
                HirExpressionBase::HirWhileExpression { cond_expr: c, .. } => c.ty@ == raw_v(
                    "Bool"@,
                ),
                _ => false,
            }),
            (cond_expr.body matches AstExpressionBody::PseudoVariable { token: PseudoVar::True })
                && body_exprs@.len() == 0 ==> r is Ok,
        decreases esize(*cond_expr) + eseq(body_exprs@), 2int,
    {
        let cond_hir = match self.convert_expr(cond_expr) {
            Ok(e) => e,
            Err(e) => {
                return Err(e);
            },
        };
        match check_condition_ty(&cond_hir.ty, "a while") {
            Ok(()) => {},
            Err(e) => {
                return Err(e);
            },
        }
        let saved = self.ctx.current;
        self.ctx.current = CtxKind::While;
        proof {
            assert(esize(*cond_expr) >= 1);
        }
        let body_hirs = match self.convert_exprs(body_exprs) {
            Ok(h) => h,
            Err(e) => {
                self.ctx.current = saved;
                return Err(e);
            },
        };
        self.ctx.current = saved;
        Ok(Hir::while_expression(cond_hir, body_hirs))
    }

    /// Lower a `break`: legal in a `while` and in a block (non-`fn`)
    /// lambda, where it marks the block; never inside a `fn` lambda.
    fn convert_break_expr(&mut self) -> (r: Result<HirExpression, Error>)
        requires
            ctx_captures_wf(old(self).ctx.lambdas@),
        ensures
            ctx_captures_wf(final(self).ctx.lambdas@),
            keeps_ctx(*old(self), *final(self)),
            old(self).ctx.current == CtxKind::Lambda && old(self).ctx.lambdas@.len() > 0 && old(
                self,
            ).ctx.lambdas@.last().is_fn ==> (r matches Err(e) && e@.kind
                == ErrorKind::ProgramError),
            old(self).ctx.current == CtxKind::Lambda && old(self).ctx.lambdas@.len() > 0 && !old(
                self,
            ).ctx.lambdas@.last().is_fn ==> r is Ok && final(self).ctx.lambdas@.last().has_break,
            old(self).ctx.current == CtxKind::While ==> r is Ok && *final(self) == *old(self),
            r matches Ok(e) ==> e.ty@ == raw_v("Never"@) && e.node == (
            HirExpressionBase::HirBreakExpression {
                from: if old(self).ctx.current == CtxKind::While {
                    HirBreakFrom::While
                } else {
                    HirBreakFrom::Block
                },
            }),
            old(self).ctx.current != CtxKind::Lambda && old(self).ctx.current != CtxKind::While
                ==> (r matches Err(e) && e@.kind == ErrorKind::ProgramError),
    {
        if self.ctx.current == CtxKind::Lambda {
            let n = self.ctx.lambdas.len();
            if n == 0 {
                return Err(program_error(String::from_str("`break' outside a loop")));
            }
            if self.ctx.lambdas[n - 1].is_fn {
                return Err(program_error(String::from_str("`break' inside a fn")));
            }
            let mut last = self.ctx.lambdas.pop().unwrap();
            last.has_break = true;
            self.ctx.lambdas.push(last);
            proof {
                let ls = self.ctx.lambdas@;
                let ols = old(self).ctx.lambdas@;
                assert forall|i: int, j: int|
                    0 <= i < ls.len() && 0 <= j < ls[i].captures@.len() implies match (
                #[trigger] ls[i].captures@[j]).ctx_depth {
                    Some(d) => d < i,
                    None => true,
                } by {
                    if i < ls.len() - 1 {
                        assert(ls[i] == ols[i]);
                    } else {
                        assert(ls[i].captures@[j] == ols[i].captures@[j]);
                    }
                }
            }
            Ok(Hir::break_expression(HirBreakFrom::Block))
        } else if self.ctx.current == CtxKind::While {
            Ok(Hir::break_expression(HirBreakFrom::While))
        } else {
            Err(program_error(String::from_str("`break' outside a loop")))
        }
    }

    /// Where a `return` would leave from, when it is legal here: a `fn`
    /// lambda or a method body.  A `return` inside a block lambda nested in
    /// a method is rejected.
    fn validate_return(&self) -> (r: Result<HirReturnFrom, Error>)
        ensures
            self.ctx.lambdas@.len() > 0 && self.ctx.lambdas@.last().is_fn <==> r == Ok::<
                _,
                Error,
            >(HirReturnFrom::Fn),
            self.ctx.lambdas@.len() == 0 && self.ctx.method is Some <==> r == Ok::<_, Error>(
                HirReturnFrom::Method,
            ),
            self.ctx.lambdas@.len() > 0 && !self.ctx.lambdas@.last().is_fn ==> (r matches Err(e)
                && e@.kind == ErrorKind::ProgramError),
            self.ctx.lambdas@.len() == 0 && self.ctx.method is None ==> (r matches Err(e)
                && e@.kind == ErrorKind::ProgramError),
    {
        let n = self.ctx.lambdas.len();
        if n > 0 {
            if self.ctx.lambdas[n - 1].is_fn {
                Ok(HirReturnFrom::Fn)
            } else if self.ctx.method.is_some() {
                Err(program_error(String::from_str("`return' in a block is not supported")))
            } else {
                Err(program_error(String::from_str("`return' outside a method")))
            }
        } else if self.ctx.method.is_some() {
            Ok(HirReturnFrom::Method)
        } else {
            Err(program_error(String::from_str("`return' outside a method")))
        }
    }

    /// Check the returned value against the declared return type.
    fn validate_return_type(&self, arg_ty: &TermTy) -> (r: Result<(), Error>)
        ensures
            r is Ok && self.ctx.lambdas@.len() == 0 ==> (match self.ctx.method {
                Some(mc) => crate::type_checking::sp_conforms(
                    self.class_dict.sk_classes@,
                    arg_ty@,
                    mc.signature.ret_ty@,
                ),
                None => true,
            }),
            self.ctx.lambdas@.len() == 0 && (match self.ctx.method {
                Some(mc) => crate::type_checking::sp_conforms(
                    self.class_dict.sk_classes@,
                    arg_ty@,
                    mc.signature.ret_ty@,
                ),
                None => true,
            }) ==> r is Ok,
    {
        let n = self.ctx.lambdas.len();
        if n > 0 && self.ctx.lambdas[n - 1].is_fn {
            return Ok(());
        }
        match &self.ctx.method {
            Some(mc) => check_return_arg_type(&self.class_dict, arg_ty, &mc.signature.ret_ty),
            None => Ok(()),
        }
    }

    /// Lower a `return`; a missing argument returns the `Void` value.
    fn convert_return_expr(&mut self, arg: &Option<Box<AstExpression>>) -> (r: Result<
        HirExpression,
        Error,
    >)
        requires
            ctx_captures_wf(old(self).ctx.lambdas@),
        ensures
            ctx_captures_wf(final(self).ctx.lambdas@),
            keeps_ctx(*old(self), *final(self)),
            old(self).ctx.lambdas@.len() > 0 && !old(self).ctx.lambdas@.last().is_fn && old(
                self,
            ).ctx.method is Some ==> (r matches Err(e) && e@.kind == ErrorKind::ProgramError),
            r matches Ok(e) ==> e.ty@ == raw_v("Never"@) && (match e.node {
                HirExpressionBase::HirReturnExpression { from, arg: arg_hir } => {
                    &&& (old(self).ctx.lambdas@.len() > 0 ==> from == HirReturnFrom::Fn)
                    &&& (old(self).ctx.lambdas@.len() == 0 ==> from == HirReturnFrom::Method)
                    &&& (arg is None ==> arg_hir.ty@ == raw_v("Void"@))
                    &&& (final(self).ctx.lambdas@.len() == 0 ==> match final(self).ctx.method {
                        Some(mc) => crate::type_checking::sp_conforms(
                            final(self).class_dict.sk_classes@,
                            arg_hir.ty@,
                            mc.signature.ret_ty@,
                        ),
                        None => true,
                    })
                },
                _ => false,
            }),
            old(self).ctx.lambdas@.len() == 0 && arg is None && (match old(self).ctx.method {
                Some(mc) => mc.signature.ret_ty@ == raw_v("Void"@),
                None => false,
            }) ==> r is Ok,
        decreases (match *arg {
            Some(b) => esize(*b),
            None => 0,
        }), 2int,
    {
        let from = match self.validate_return() {
            Ok(f) => f,
            Err(e) => {
                return Err(e);
            },
        };
        let arg_expr = match arg {
            Some(x) => match self.convert_expr(x) {
                Ok(e) => e,
                Err(e) => {
                    return Err(e);
                },
            },
            None => void_const_ref(),
        };
        match self.validate_return_type(&arg_expr.ty) {
            Ok(()) => {},
            Err(e) => {
                return Err(e);
            },
        }
        Ok(Hir::return_expression(from, arg_expr))
    }

    /// Lower an assignment to a (possibly new) local variable.  Under
    /// `var`, the name must not already be visible anywhere.
    fn convert_lvar_assign(&mut self, name: &String, rhs: &AstExpression, is_var: bool) -> (r:
        Result<HirExpression, Error>)
        requires
            ctx_captures_wf(old(self).ctx.lambdas@),
        ensures
            ctx_captures_wf(final(self).ctx.lambdas@),
            keeps_ctx(*old(self), *final(self)),
            is_var && sp_var_visible(old(self).ctx, name@) ==> (r matches Err(e) && e@.kind
                == ErrorKind::ProgramError),
            r matches Ok(e) ==> (match e.node {
                HirExpressionBase::HirLVarAssign { rhs: rhs_hir, .. } => e.ty@ == rhs_hir.ty@,
                HirExpressionBase::HirLambdaCaptureWrite { rhs: rhs_hir, .. } => e.ty@
                    == rhs_hir.ty@,
                _ => false,
            }),
            !sp_var_visible(old(self).ctx, name@) && rhs.body is DecimalLiteral ==> (r matches Ok(
                e,
            ) && (e.node matches HirExpressionBase::HirLVarAssign { .. }) && e.ty@ == raw_v(
                "Int"@,
            ) && sp_innermost_lvar(final(self).ctx, name@) == Some(
                CtxLVarV { name: name@, ty: raw_v("Int"@), readonly: !is_var },
            )),
            !is_var && (match crate::hir_maker::sp_walk(old(self).ctx, name@) {
                Some(sh) => match sh.1 {
                    crate::hir_maker::ScopeHit::HitLVar { lv } => !lv.readonly && lv.ty == raw_v(
                        "Int"@,
                    ),
                    _ => false,
                },
                None => false,
            }) && rhs.body is DecimalLiteral ==> r is Ok,
        decreases esize(*rhs), 2int,
    {
        if is_var {
            if self.lookup_var(name).is_some() {
                return Err(
                    program_error(msg3("variable `", name.as_str(), "' already exists")),
                );
            }
        }
        let expr = match self.convert_expr(rhs) {
            Ok(e) => e,
            Err(e) => {
                return Err(e);
            },
        };
        let found = match self.find_var(name, true) {
            Ok(f) => f,
            Err(e) => {
                return Err(e);
            },
        };
        match found {
            Some(lvar_info) => {
                match check_reassign_var(lvar_info.lvar_ty(), &expr.ty, name) {
                    Ok(()) => {},
                    Err(e) => {
                        return Err(e);
                    },
                }
                Ok(lvar_info.assign_expr(expr))
            },
            None => {
                let declared_ty = expr.ty.dup();
                self.declare_lvar(name, declared_ty, !is_var);
                Ok(Hir::lvar_assign(name, expr))
            },
        }
    }

    /// Lower an assignment to an instance variable.  Inside `initialize`
    /// this may declare a new ivar; elsewhere the ivar must exist, must not
    /// be readonly, and keeps its type exactly.
    fn convert_ivar_assign(&mut self, name: &String, rhs: &AstExpression, is_var: bool) -> (r:
        Result<HirExpression, Error>)
        requires
            ctx_captures_wf(old(self).ctx.lambdas@),
        ensures
            ctx_captures_wf(final(self).ctx.lambdas@),
            keeps_ctx(*old(self), *final(self)),
            !sp_in_initializer(old(self).ctx) && (match sp_find_ivar(
                old(self).class_dict.sk_classes@,
                crate::ty::fullname_v(old(self).ctx.self_ty@),
                name@,
            ) {
                Some(iv) => iv.readonly,
                None => false,
            }) ==> (r matches Err(e) && e@.kind == ErrorKind::ProgramError),
            !sp_in_initializer(old(self).ctx) && sp_find_ivar(
                old(self).class_dict.sk_classes@,
                crate::ty::fullname_v(old(self).ctx.self_ty@),
                name@,
            ) is None ==> (r matches Err(e) && e@.kind == ErrorKind::NameError),
            !sp_in_initializer(old(self).ctx) && (match sp_find_ivar(
                old(self).class_dict.sk_classes@,
                crate::ty::fullname_v(old(self).ctx.self_ty@),
                name@,
            ) {
                Some(iv) => !iv.readonly && iv.ty == raw_v("Int"@),
                None => false,
            }) && rhs.body is DecimalLiteral ==> r is Ok,
            r matches Ok(e) ==> (match e.node {
                HirExpressionBase::HirIVarAssign { name: n2, idx, rhs: rhs_hir, writable, self_ty } => {
                    &&& n2@ == name@
                    &&& e.ty@ == rhs_hir.ty@
                    &&& self_ty@ == old(self).ctx.self_ty@
                    &&& (!sp_in_initializer(old(self).ctx) ==> match sp_find_ivar(
                        old(self).class_dict.sk_classes@,
                        crate::ty::fullname_v(old(self).ctx.self_ty@),
                        name@,
                    ) {
                        Some(iv) => idx as nat == iv.idx && rhs_hir.ty@ == iv.ty && !iv.readonly
                            && !writable,
                        None => false,
                    })
                },
                _ => false,
            }),
        decreases esize(*rhs), 2int,
    {
        let self_ty = self.ctx.self_ty.dup();
        if self.is_in_initializer() {
            let expr = match self.convert_expr(rhs) {
                Ok(e) => e,
                Err(e) => {
                    return Err(e);
                },
            };
            let idx = match self.declare_ivar(name, &expr.ty, !is_var) {
                Ok(i) => i,
                Err(e) => {
                    return Err(e);
                },
            };
            return Ok(Hir::ivar_assign(name, idx, expr, is_var, self_ty));
        }
        let fullname_str = self.ctx.self_ty.fullname();
        let found = match self.class_dict.find_ivar(&fullname_str, name) {
            Some(iv) => Some((iv.idx, iv.ty.dup(), iv.readonly)),
            None => None,
        };
        match found {
            Some((idx, ivar_ty, readonly)) => {
                if readonly {
                    return Err(
                        program_error(
                            msg3("instance variable `", name.as_str(), "' is readonly"),
                        ),
                    );
                }
                let expr = match self.convert_expr(rhs) {
                    Ok(e) => e,
                    Err(e) => {
                        return Err(e);
                    },
                };
                if !ivar_ty.equals_to(&expr.ty) {
                    return Err(
                        type_error(
                            msg3("instance variable `", name.as_str(), "' has another type"),
                        ),
                    );
                }
                Ok(Hir::ivar_assign(name, idx, expr, false, self_ty))
            },
            None => Err(
                crate::error::name_error(msg3("instance variable `", name.as_str(), "' not found")),
            ),
        }
    }

    /// Declare (or re-check) an ivar while lowering `initialize`.  An ivar
    /// inherited from the superclass keeps its index, type and mutability;
    /// a new one gets the next free index, so the indices stay `[0..n)`.
    fn declare_ivar(&mut self, name: &String, t: &TermTy, readonly: bool) -> (r: Result<
        usize,
        Error,
    >)
        requires
            ctx_captures_wf(old(self).ctx.lambdas@),
        ensures
            ctx_captures_wf(final(self).ctx.lambdas@),
            keeps_ctx(*old(self), *final(self)),
            match final(self).ctx.method {
                Some(fmc) => match old(self).ctx.method {
                    Some(omc) => fmc.super_ivars@ == omc.super_ivars@ && ((sp_ivars_indexed(
                        omc.super_ivars@,
                        0,
                    ) && sp_ivars_indexed(omc.iivars@, omc.super_ivars@.len())) ==> (
                    sp_ivars_indexed(fmc.super_ivars@, 0) && sp_ivars_indexed(
                        fmc.iivars@,
                        fmc.super_ivars@.len(),
                    ))),
                    None => true,
                },
                None => old(self).ctx.method is None,
            },
            match r {
                Ok(idx) => spec_contains(old(self).ctx.method.unwrap().super_ivars@, name@)
                    ==> idx as nat == spec_get(
                    old(self).ctx.method.unwrap().super_ivars@,
                    name@,
                ).unwrap().idx && final(self).ctx.method.unwrap().iivars@ == old(
                    self,
                ).ctx.method.unwrap().iivars@,
                Err(_) => true,
            },
            old(self).ctx.method matches Some(omc2) ==> ({
                let s = omc2.super_ivars@;
                let iv = omc2.iivars@;
                match spec_get(s, name@) {
                    // Assigning an inherited ivar re-checks its type and
                    // mutability and reuses its slot.
                    Some(siv) => if siv.ty != t@ || siv.readonly != readonly {
                        r matches Err(e) && e@.kind == ErrorKind::TypeError
                    } else {
                        r == Ok::<usize, Error>(siv.idx as usize)
                    },
                    None => match spec_get(iv, name@) {
                        // A re-declaration in the same initializer likewise.
                        Some(oiv) => if oiv.ty != t@ || oiv.readonly != readonly {
                            r matches Err(e) && e@.kind == ErrorKind::TypeError
                        } else {
                            let fmc2 = final(self).ctx.method;
                            r == Ok::<usize, Error>(oiv.idx as usize) && fmc2.unwrap().iivars@
                                == iv
                        },
                        // A new ivar takes the next free slot.
                        None => s.len() + iv.len() < usize::MAX ==> (r == Ok::<usize, Error>(
                            (s.len() + iv.len()) as usize,
                        ) && final(self).ctx.method.unwrap().iivars@ == crate::strmap::spec_insert(
                            iv,
                            name@,
                            crate::sk::SkIVarV {
                                idx: s.len() + iv.len(),
                                name: name@,
                                ty: t@,
                                readonly,
                            },
                        )),
                    },
                }
            }),
    {
        let ghost omc = old(self).ctx.method.unwrap();
        match self.ctx.method.as_mut() {
            Some(mc) => {
                let super_found = match mc.super_ivars.get(name) {
                    Some(siv) => Some((siv.idx, siv.ty.dup(), siv.readonly)),
                    None => None,
                };
                if let Some((sidx, sty, sreadonly)) = super_found {
                    if !sty.equals_to(t) {
                        return Err(
                            type_error(
                                msg3("the ivar `", name.as_str(), "' has another type in the superclass"),
                            ),
                        );
                    }
                    if sreadonly != readonly {
                        return Err(
                            type_error(
                                msg3("the mutability of `", name.as_str(), "' differs from the inherited one"),
                            ),
                        );
                    }
                    return Ok(sidx);
                }
                let own_found = match mc.iivars.get(name) {
                    Some(iv) => Some((iv.idx, iv.ty.dup(), iv.readonly)),
                    None => None,
                };
                if let Some((oidx, oty, oreadonly)) = own_found {
                    if !oty.equals_to(t) {
                        return Err(
                            type_error(msg3("the ivar `", name.as_str(), "' has another type")),
                        );
                    }
                    if oreadonly != readonly {
                        return Err(
                            type_error(
                                msg3("the mutability of `", name.as_str(), "' differs from its declaration"),
                            ),
                        );
                    }
                    return Ok(oidx);
                }
                let s = mc.super_ivars.len();
                let k = mc.iivars.len();
                if s >= usize::MAX - k {
                    return Err(bug(String::from_str("too many instance variables")));
                }
                let idx = s + k;
                let ivar = SkIVar { idx, name: name.clone(), ty: t.dup(), readonly };
                let ghost pre = mc.iivars@;
                mc.iivars.insert(name.clone(), ivar);
                proof {
                    crate::strmap::lemma_key_idx_bounds(pre, name@);
                    assert(mc.iivars@ =~= pre.push((name@, SkIVarV {
                        idx: idx as nat,
                        name: name@,
                        ty: t@,
                        readonly,
                    })));
                }
                Ok(idx)
            },
            None => Err(bug(String::from_str("no method frame"))),
        }
    }

    /// Lower a toplevel constant assignment and register the constant.
    pub(crate) fn convert_const_assign(&mut self, names: &Vec<String>, rhs: &AstExpression) -> (r: Result<
        HirExpression,
        Error,
    >)
        requires
            ctx_captures_wf(old(self).ctx.lambdas@),
        ensures
            ctx_captures_wf(final(self).ctx.lambdas@),
            keeps_ctx(*old(self), *final(self)),
            r matches Ok(e) ==> (match e.node {
                HirExpressionBase::HirConstAssign { fullname, rhs: rhs_hir } => fullname@
                    == toplevel_const_seq(seq_views(names@)) && e.ty@ == rhs_hir.ty@,
                _ => false,
            }) && spec_get(final(self).constants@, toplevel_const_seq(seq_views(names@))) == Some(
                e.ty@,
            ),
            rhs.body is DecimalLiteral ==> r is Ok,
        decreases esize(*rhs), 2int,
    {
        let full = toplevel_const(names);
        let hir_expr = match self.convert_expr(rhs) {
            Ok(e) => e,
            Err(e) => {
                return Err(e);
            },
        };
        let ghost pre = self.constants@;
        self.constants.insert(full.0.clone(), hir_expr.ty.dup());
        proof {
            crate::strmap::lemma_get_insert(pre, full@, hir_expr.ty@, full@);
        }
        Ok(Hir::const_assign(full, hir_expr))
    }

    /// Lower a string literal, interning its contents.
    fn convert_string_literal(&mut self, content: &String) -> (r: HirExpression)
        ensures
            *final(self) == (
            HirMaker { str_literals: final(self).str_literals, ..*old(self) }),
            r.ty@ == raw_v("String"@),
            r.node == (HirExpressionBase::HirStringLiteral {
                idx: old(self).str_literals@.len() as usize,
            }),
            final(self).str_literals@.len() == old(self).str_literals@.len() + 1,
            final(self).str_literals@.last()@ == content@,
    {
        let idx = self.register_string_literal(content.as_str());
        Hir::string_literal(idx)
    }

    fn convert_pseudo_variable(&mut self, token: PseudoVar) -> (r: Result<HirExpression, Error>)
        ensures
            *final(self) == *old(self),
            r matches Ok(e) && (match token {
                PseudoVar::SelfRef => e.ty@ == old(self).ctx.self_ty@ && e.node
                    == HirExpressionBase::HirSelfExpression,
                PseudoVar::True => e.ty@ == raw_v("Bool"@) && e.node == (
                HirExpressionBase::HirBooleanLiteral { value: true }),
                PseudoVar::False => e.ty@ == raw_v("Bool"@) && e.node == (
                HirExpressionBase::HirBooleanLiteral { value: false }),
            }),
    {
        match token {
            PseudoVar::SelfRef => Ok(self.convert_self_expr()),
            PseudoVar::True => Ok(Hir::boolean_literal(true)),
            PseudoVar::False => Ok(Hir::boolean_literal(false)),
        }
    }

    /// Lower an array literal `[x, y]`: the element type is the nearest
    /// common ancestor of the items; an empty literal is `Array<Object>`.
    fn convert_array_literal(&mut self, item_exprs: &Vec<AstExpression>) -> (r: Result<
        HirExpression,
        Error,
    >)
        requires
            ctx_captures_wf(old(self).ctx.lambdas@),
        ensures
            ctx_captures_wf(final(self).ctx.lambdas@),
            keeps_ctx(*old(self), *final(self)),
            item_exprs@.len() == 0 ==> (r matches Ok(e) && e.ty@ == ty::spe_v(
                "Array"@,
                seq![raw_v("Object"@)],
            ) && (match e.node {
                HirExpressionBase::HirArrayLiteral { exprs } => exprs@.len() == 0,
                _ => false,
            })),
            r matches Ok(e) ==> (match e.node {
                HirExpressionBase::HirArrayLiteral { exprs } => exprs@.len() == item_exprs@.len()
                    && (e.ty@ matches TermTyV::Spe { base_name, tyargs } && base_name == "Array"@
                    && tyargs.len() == 1),
                _ => false,
            }),
        decreases eseq(item_exprs@), 2int,
    {
        let mut items: Vec<HirExpression> = Vec::new();
        let n = item_exprs.len();
        for i in 0..n
            invariant
                n == item_exprs@.len(),
                ctx_captures_wf(self.ctx.lambdas@),
                keeps_ctx(*old(self), *self),
                items@.len() == i,
            decreases eseq(item_exprs@), 2int, n - i,
        {
            proof {
                lemma_eseq_elem(item_exprs@, i as int);
            }
            match self.convert_expr(&item_exprs[i]) {
                Ok(e) => {
                    items.push(e);
                },
                Err(e) => {
                    return Err(e);
                },
            }
        }
        let mut item_ty = if items.len() == 0 {
            ty::raw("Object")
        } else {
            items[0].ty.dup()
        };
        let k = items.len();
        for i in 0..k
            invariant
                k == items@.len(),
                k == item_exprs@.len(),
                ctx_captures_wf(self.ctx.lambdas@),
                keeps_ctx(*old(self), *self),
                k == 0 ==> item_ty@ == raw_v("Object"@),
        {
            item_ty = match self.class_dict.nearest_common_ancestor(&item_ty, &items[i].ty) {
                Some(t) => t,
                None => {
                    return Err(
                        type_error(
                            String::from_str("the array items have no common ancestor"),
                        ),
                    );
                },
            };
        }
        let mut tyargs: Vec<TermTy> = Vec::new();
        tyargs.push(item_ty);
        proof {
            lemma_tys_view(tyargs@);
            if item_exprs@.len() == 0 {
                assert(tys_view(tyargs@) =~= seq![raw_v("Object"@)]);
            }
        }
        let ary_ty = ty::spe("Array", tyargs);
        Ok(Hir::array_literal(items, ary_ty))
    }
}

} // verus!

verus! {

impl HirMaker {
    /// Lower a method call.  A bare name bound to a `FnN` local is a
    /// lambda invocation instead.
    fn convert_method_call(
        &mut self,
        receiver_expr: &Option<Box<AstExpression>>,
        method_name: &MethodFirstname,
        arg_exprs: &Vec<AstExpression>,
        type_args: &Vec<ConstName>,
    ) -> (r: Result<HirExpression, Error>)
        requires
            ctx_captures_wf(old(self).ctx.lambdas@),
        ensures
            ctx_captures_wf(final(self).ctx.lambdas@),
            keeps_ctx(*old(self), *final(self)),
            r matches Ok(e) ==> (match e.node {
                HirExpressionBase::HirLambdaInvocation { lambda_expr, arg_exprs: inv_args } => crate::ty::fn_x_info_v(
                    lambda_expr.ty@,
                ) == Some(e.ty@) && inv_args@.len() == arg_exprs@.len(),
                _ => true,
            }),
            receiver_expr is None && arg_exprs@.len() == 0 && type_args@.len() == 0
                && !sp_var_visible(old(self).ctx, method_name@) && (
            match crate::type_checking::sp_lookup_method(
                old(self).class_dict.sk_classes@,
                old(self).ctx.self_ty@,
                method_name@,
                Seq::empty(),
            ) {
                Ok(p) => p.0.params.len() == 0,
                Err(_) => false,
            }) ==> r is Ok,
        decreases (match *receiver_expr {
            Some(b) => esize(*b),
            None => 0,
        }) + eseq(arg_exprs@), 2int,
    {
        let mut arg_hirs: Vec<HirExpression> = Vec::new();
        let n = arg_exprs.len();
        for i in 0..n
            invariant
                n == arg_exprs@.len(),
                ctx_captures_wf(self.ctx.lambdas@),
                keeps_ctx(*old(self), *self),
                arg_hirs@.len() == i,
                n == 0 ==> *self == *old(self),
            decreases (match *receiver_expr {
                Some(b) => esize(*b),
                None => 0,
            }) + eseq(arg_exprs@), 2int, n - i,
        {
            proof {
                lemma_eseq_elem(arg_exprs@, i as int);
            }
            match self.convert_expr(&arg_exprs[i]) {
                Ok(e) => {
                    arg_hirs.push(e);
                },
                Err(e) => {
                    return Err(e);
                },
            }
        }
        if receiver_expr.is_none() {
            if let Some(lvar) = self.lookup_var(&method_name.0) {
                if let Some(ret_ty) = lvar.lvar_ty().fn_x_info() {
                    return Ok(Hir::lambda_invocation(ret_ty, lvar.ref_expr(), arg_hirs));
                }
            }
        }
        let receiver_hir = match receiver_expr {
            Some(e) => match self.convert_expr(e) {
                Ok(h) => h,
                Err(e2) => {
                    return Err(e2);
                },
            },
            None => self.convert_self_expr(),
        };
        let mut method_tyargs: Vec<TermTy> = Vec::new();
        let tn = type_args.len();
        for i in 0..tn
            invariant
                tn == type_args@.len(),
                ctx_captures_wf(self.ctx.lambdas@),
                keeps_ctx(*old(self), *self),
                tn == 0 && arg_exprs@.len() == 0 && receiver_expr is None && !sp_var_visible(
                    old(self).ctx,
                    method_name@,
                ) ==> *self == *old(self),
                method_tyargs@.len() == i,
        {
            match self.resolve_method_tyarg(&type_args[i]) {
                Ok(t) => {
                    method_tyargs.push(t);
                },
                Err(e) => {
                    return Err(e);
                },
            }
        }
        proof {
            lemma_tys_view(method_tyargs@);
            if method_tyargs@.len() == 0 {
                assert(tys_view(method_tyargs@) =~= Seq::<TermTyV>::empty());
            }
        }
        let looked = self.class_dict.lookup_method(&receiver_hir.ty, method_name, &method_tyargs);
        match looked {
            Ok((sig, found_class_name)) => self.make_method_call(
                receiver_hir,
                arg_hirs,
                sig,
                found_class_name,
            ),
            Err(e) => Err(e),
        }
    }

    /// Resolve a method-level type argument, which must denote a class.
    fn resolve_method_tyarg(&self, name: &ConstName) -> (r: Result<TermTy, Error>) {
        match self.resolve_class_const(name) {
            Ok((t, _)) => Ok(t),
            Err(e) => Err(e),
        }
    }

    /// Check the arguments and build the call node.  An upcast of the
    /// receiver is inserted when the method comes from an ancestor; at a
    /// specialized receiver the arguments and result are bit-cast through
    /// `Object` (generic erasure).
    fn make_method_call(
        &self,
        receiver_hir: HirExpression,
        arg_hirs: Vec<HirExpression>,
        sig: MethodSignature,
        found_class_name: ClassFullname,
    ) -> (r: Result<HirExpression, Error>)
        ensures
            r matches Ok(e) ==> e.ty@ == sig@.ret_ty,
            r is Ok ==> crate::type_checking::sp_args_conform(
                self.class_dict.sk_classes@,
                sig@,
                Seq::new(arg_hirs@.len(), |i: int| arg_hirs@[i].ty@),
            ),
            crate::type_checking::sp_args_conform(
                self.class_dict.sk_classes@,
                sig@,
                Seq::new(arg_hirs@.len(), |i: int| arg_hirs@[i].ty@),
            ) && sp_block_break_ok(sig@.ret_ty, arg_hirs@) ==> r is Ok,
            r matches Ok(e) ==> (match e.node {
                HirExpressionBase::HirMethodCall { method_fullname, arg_exprs, .. } => {
                    &&& method_fullname@ == sig@.fullname
                    &&& arg_exprs@.len() == arg_hirs@.len()
                },
                HirExpressionBase::HirBitCast { expr: inner } => inner.ty@ == sig@.ret_ty && (
                match inner.node {
                    HirExpressionBase::HirMethodCall { method_fullname, arg_exprs, .. } => {
                        &&& method_fullname@ == sig@.fullname
                        &&& arg_exprs@.len() == arg_hirs@.len()
                    },
                    _ => false,
                }),
                _ => false,
            }),
    {
        let specialized = receiver_hir.ty.is_specialized();
        let mut arg_tys: Vec<TermTy> = Vec::new();
        let n = arg_hirs.len();
        for i in 0..n
            invariant
                n == arg_hirs@.len(),
                arg_tys@.len() == i,
                forall|j: int| 0 <= j < i ==> arg_tys@[j]@ == arg_hirs@[j].ty@,
        {
            arg_tys.push(arg_hirs[i].ty.dup());
        }
        proof {
            lemma_tys_view(arg_tys@);
            assert(tys_view(arg_tys@) =~= Seq::new(arg_hirs@.len(), |i: int| arg_hirs@[i].ty@));
        }
        match check_method_args(&self.class_dict, &sig, &arg_tys) {
            Ok(()) => {},
            Err(e) => {
                return Err(e);
            },
        }
        let mut arg_hirs2 = arg_hirs;
        if arg_hirs2.len() > 0 {
            let last = arg_hirs2.pop().unwrap();
            let checked = match check_break_in_block(&sig, last) {
                Ok(e) => e,
                Err(e) => {
                    return Err(e);
                },
            };
            arg_hirs2.push(checked);
        }
        let receiver_fullname = receiver_hir.ty.fullname();
        let receiver = if !found_class_name.0.eq(&receiver_fullname) {
            Hir::bit_cast(class_object_instance_ty(&found_class_name), receiver_hir)
        } else {
            receiver_hir
        };
        let args = if specialized {
            let mut cast: Vec<HirExpression> = Vec::new();
            let k = arg_hirs2.len();
            let mut rest = arg_hirs2;
            while rest.len() > 0
                invariant
                    cast@.len() + rest@.len() == k,
                decreases rest.len(),
            {
                let a = rest.remove(0);
                cast.push(Hir::bit_cast(ty::raw("Object"), a));
            }
            cast
        } else {
            arg_hirs2
        };
        let ret_ty = sig.ret_ty.dup();
        let mut ret = Hir::method_call(sig.ret_ty.dup(), receiver, sig.fullname, args);
        if specialized {
            ret = Hir::bit_cast(ret_ty, ret);
        }
        Ok(ret)
    }

    /// Lower a lambda: push a fresh frame, lower the body, pop the frame
    /// and resolve its captures.  The lambda's type is
    /// `FnN<param tys..., ret ty>`.
    fn convert_lambda_expr(
        &mut self,
        params: &Vec<Param>,
        exprs: &Vec<AstExpression>,
        is_fn: bool,
    ) -> (r: Result<HirExpression, Error>)
        requires
            ctx_captures_wf(old(self).ctx.lambdas@),
        ensures
            ctx_captures_wf(final(self).ctx.lambdas@),
            keeps_ctx(*old(self), *final(self)),
            r matches Ok(e) ==> (match e.node {
                HirExpressionBase::HirLambdaExpr { params: p, exprs: body, ret_ty, .. } => {
                    &&& fn_x_info_v(e.ty@) == Some(ret_ty@)
                    &&& ret_ty@ == body.ty@
                    &&& p@.len() == params@.len()
                },
                _ => false,
            }),
            params@.len() == 0 && exprs@.len() == 0 ==> r is Ok,
        decreases eseq(exprs@), 2int,
    {
        let hir_params = crate::signature::convert_params(
            params,
            &self.ctx.typarams,
            &self.ctx.method_typarams,
        );
        let node_params = crate::sk::dup_params(&hir_params);
        let frame = LambdaCtx {
            is_fn,
            params: hir_params,
            lvars: StrMap::new(),
            captures: Vec::new(),
            has_break: false,
        };
        let ghost pre_lambdas = self.ctx.lambdas@;
        self.ctx.lambdas.push(frame);
        proof {
            let ls = self.ctx.lambdas@;
            assert forall|i: int, j: int|
                0 <= i < ls.len() && 0 <= j < ls[i].captures@.len() implies match (
            #[trigger] ls[i].captures@[j]).ctx_depth {
                Some(d) => d < i,
                None => true,
            } by {
                if i < ls.len() - 1 {
                    assert(ls[i] == pre_lambdas[i]);
                }
            }
        }
        let saved = self.ctx.current;
        self.ctx.current = CtxKind::Lambda;
        let body = match self.convert_exprs(exprs) {
            Ok(h) => h,
            Err(e) => {
                self.ctx.current = saved;
                let _ = self.ctx.lambdas.pop();
                return Err(e);
            },
        };
        self.ctx.current = saved;
        let lambda_ctx = self.ctx.lambdas.pop().unwrap();
        let ghost popped_idx = self.ctx.lambdas@.len() as int;
        proof {
            assert forall|j: int|
                0 <= j < lambda_ctx.captures@.len() implies match (
            #[trigger] lambda_ctx.captures@[j]).ctx_depth {
                Some(d) => d < self.ctx.lambdas@.len(),
                None => true,
            } by {
                assert(old(self).ctx.lambdas@.len() + 1 == popped_idx + 1);
            }
        }
        let captures_hir = self.resolve_lambda_captures(lambda_ctx.captures);
        let lvars = extract_lvars(&lambda_ctx.lvars);
        let name = self.create_lambda_name();
        proof {
            assert(crate::sk::param_views(node_params@).len() == node_params@.len());
            assert(crate::ast::ast_param_views(params@).len() == params@.len());
        }
        let fn_ty = lambda_ty(&node_params, &body.ty);
        Ok(
            Hir::lambda_expr(
                fn_ty,
                name,
                node_params,
                body,
                captures_hir,
                lvars,
                lambda_ctx.has_break,
            ),
        )
    }

    /// Turn the recorded captures of a finished lambda into capture slots.
    /// A capture of the directly enclosing scope is materialized; a deeper
    /// one is forwarded: it is appended to the enclosing lambda's captures
    /// and referenced by index.
    fn resolve_lambda_captures(&mut self, caps: Vec<LambdaCapture>) -> (r: Vec<HirLambdaCapture>)
        requires
            ctx_captures_wf(old(self).ctx.lambdas@),
            forall|j: int|
                0 <= j < caps@.len() ==> match (#[trigger] caps@[j]).ctx_depth {
                    Some(d) => d < old(self).ctx.lambdas@.len(),
                    None => true,
                },
        ensures
            ctx_captures_wf(final(self).ctx.lambdas@),
            keeps_ctx(*old(self), *final(self)),
            r@.len() == caps@.len(),
            forall|k: int|
                0 <= k < caps@.len() ==> if sp_captured_here(
                    #[trigger] caps@[k],
                    old(self).ctx.lambdas@.len() as nat,
                ) {
                    match (caps@[k].detail, r@[k]) {
                        (
                            LambdaCaptureDetail::CapLVar { name: n1 },
                            HirLambdaCapture::CaptureLVar { name: n2 },
                        ) => n1@ == n2@,
                        (
                            LambdaCaptureDetail::CapFnArg { idx: i1 },
                            HirLambdaCapture::CaptureArg { idx: i2 },
                        ) => i1 == i2,
                        _ => false,
                    }
                } else {
                    match r@[k] {
                        HirLambdaCapture::CaptureFwd { cidx, ty } => old(
                            self,
                        ).ctx.lambdas@.len() > 0 && cidx as nat == old(
                            self,
                        ).ctx.lambdas@.last().captures@.len() + sp_fwd_before(
                            caps@,
                            old(self).ctx.lambdas@.len() as nat,
                            k,
                        ) && ty@ == caps@[k].ty@,
                        _ => false,
                    }
                },
            old(self).ctx.lambdas@.len() > 0 ==> final(self).ctx.lambdas@.last().captures@.len()
                == old(self).ctx.lambdas@.last().captures@.len() + sp_fwd_before(
                caps@,
                old(self).ctx.lambdas@.len() as nat,
                caps@.len() as int,
            ),
    {
        let mut ret: Vec<HirLambdaCapture> = Vec::new();
        let n_lambdas = self.ctx.lambdas.len();
        let ghost all = caps@;
        let ghost nn = n_lambdas as nat;
        let mut rest = caps;
        while rest.len() > 0
            invariant
                ctx_captures_wf(self.ctx.lambdas@),
                keeps_ctx(*old(self), *self),
                n_lambdas == self.ctx.lambdas@.len(),
                nn == n_lambdas as nat,
                rest@.len() <= all.len(),
                rest@ == all.skip(all.len() - rest@.len()),
                ret@.len() + rest@.len() == all.len(),
                forall|j: int|
                    0 <= j < all.len() ==> match (#[trigger] all[j]).ctx_depth {
                        Some(d) => d < n_lambdas,
                        None => true,
                    },
                forall|k: int|
                    0 <= k < ret@.len() ==> if sp_captured_here(#[trigger] all[k], nn) {
                        match (all[k].detail, ret@[k]) {
                            (
                                LambdaCaptureDetail::CapLVar { name: n1 },
                                HirLambdaCapture::CaptureLVar { name: n2 },
                            ) => n1@ == n2@,
                            (
                                LambdaCaptureDetail::CapFnArg { idx: i1 },
                                HirLambdaCapture::CaptureArg { idx: i2 },
                            ) => i1 == i2,
                            _ => false,
                        }
                    } else {
                        match ret@[k] {
                            HirLambdaCapture::CaptureFwd { cidx, ty } => n_lambdas > 0 && cidx
                                as nat == old(self).ctx.lambdas@.last().captures@.len()
                                + sp_fwd_before(all, nn, k) && ty@ == all[k].ty@,
                            _ => false,
                        }
                    },
                n_lambdas > 0 ==> self.ctx.lambdas@.last().captures@.len() == old(
                    self,
                ).ctx.lambdas@.last().captures@.len() + sp_fwd_before(
                    all,
                    nn,
                    ret@.len() as int,
                ),
            decreases rest.len(),
        {
            let ghost k = ret@.len() as int;
            proof {
                assert(rest@[0] == all[k]);
            }
            let cap = rest.remove(0);
            let captured_here = match cap.ctx_depth {
                Some(d) => n_lambdas > 0 && d == n_lambdas - 1,
                None => n_lambdas == 0,
            };
            proof {
                assert(captured_here == sp_captured_here(all[k], nn));
                assert(rest@ =~= all.skip(all.len() - rest@.len()));
            }
            if captured_here {
                match cap.detail {
                    LambdaCaptureDetail::CapLVar { name } => {
                        ret.push(HirLambdaCapture::CaptureLVar { name });
                    },
                    LambdaCaptureDetail::CapFnArg { idx } => {
                        ret.push(HirLambdaCapture::CaptureArg { idx });
                    },
                }
            } else {
                let fwd_ty = cap.ty.dup();
                let cidx = self.push_lambda_capture(cap);
                ret.push(HirLambdaCapture::CaptureFwd { cidx, ty: fwd_ty });
            }
        }
        proof {
            assert(ret@.len() == all.len());
        }
        ret
    }

    /// Lower a bare name: a visible variable, else a call on the implicit
    /// `self`.
    fn convert_bare_name(&mut self, name: &String) -> (r: Result<HirExpression, Error>)
        requires
            ctx_captures_wf(old(self).ctx.lambdas@),
        ensures
            ctx_captures_wf(final(self).ctx.lambdas@),
            keeps_ctx(*old(self), *final(self)),
            sp_var_visible(old(self).ctx, name@) ==> r is Ok,
            sp_var_visible(old(self).ctx, name@) && r is Ok ==> (r matches Ok(e) && match e.node {
                HirExpressionBase::HirLVarRef { .. } => true,
                HirExpressionBase::HirArgRef { .. } => true,
                HirExpressionBase::HirLambdaCaptureRef { .. } => true,
                _ => false,
            }),
            !sp_var_visible(old(self).ctx, name@) && r is Ok ==> (r matches Ok(e) && match e.node {
                HirExpressionBase::HirMethodCall { .. } => true,
                HirExpressionBase::HirBitCast { .. } => true,
                _ => false,
            }),
            !sp_var_visible(old(self).ctx, name@) && crate::type_checking::sp_lookup_method(
                old(self).class_dict.sk_classes@,
                old(self).ctx.self_ty@,
                name@,
                Seq::empty(),
            ) is Err ==> (r matches Err(e) && e@.kind == ErrorKind::ProgramError),
    {
        let found = match self.find_var(name, false) {
            Ok(f) => f,
            Err(e) => {
                return Err(e);
            },
        };
        if let Some(lvar_info) = found {
            return Ok(lvar_info.ref_expr());
        }
        let self_expr = self.convert_self_expr();
        let no_tyargs: Vec<TermTy> = Vec::new();
        let first = crate::names::MethodFirstname(name.clone());
        match self.class_dict.lookup_method(&self_expr.ty, &first, &no_tyargs) {
            Ok((sig, found_class_name)) => self.make_method_call(
                self_expr,
                Vec::new(),
                sig,
                found_class_name,
            ),
            Err(_) => Err(
                program_error(msg3("variable or method `", name.as_str(), "' was not found")),
            ),
        }
    }

    /// Lower a reference to an instance variable of `self`.
    fn convert_ivar_ref(&mut self, name: &String) -> (r: Result<HirExpression, Error>)
        ensures
            *final(self) == *old(self),
            ({
                let found = match sp_find_ivar(
                    old(self).class_dict.sk_classes@,
                    crate::ty::fullname_v(old(self).ctx.self_ty@),
                    name@,
                ) {
                    Some(iv) => Some(iv),
                    None => match old(self).ctx.method {
                        Some(mc) => spec_get(mc.iivars@, name@),
                        None => None,
                    },
                };
                match found {
                    Some(iv) => r matches Ok(e) && e.ty@ == iv.ty && (match e.node {
                        HirExpressionBase::HirIVarRef { name: n2, idx, self_ty } => n2@ == name@
                            && idx as nat == iv.idx && self_ty@ == old(self).ctx.self_ty@,
                        _ => false,
                    }),
                    None => r matches Err(e2) && e2@.kind == ErrorKind::NameError,
                }
            }),
    {
        let self_ty = self.ctx.self_ty.dup();
        let fullname_str = self.ctx.self_ty.fullname();
        let found = match self.class_dict.find_ivar(&fullname_str, name) {
            Some(iv) => Some((iv.idx, iv.ty.dup())),
            None => match &self.ctx.method {
                Some(mc) => match mc.iivars.get(name) {
                    Some(iv) => Some((iv.idx, iv.ty.dup())),
                    None => None,
                },
                None => None,
            },
        };
        match found {
            Some((idx, t)) => Ok(Hir::ivar_ref(t, name.clone(), idx, self_ty)),
            None => Err(
                crate::error::name_error(msg3("ivar `", name.as_str(), "' was not found")),
            ),
        }
    }

    /// Lower a constant reference; a generic instantiation that was never
    /// seen before lazily creates its specialized metaclass and constant.
    fn convert_const_ref(&mut self, name: &ConstName) -> (r: Result<HirExpression, Error>)
        requires
            ctx_captures_wf(old(self).ctx.lambdas@),
        ensures
            ctx_captures_wf(final(self).ctx.lambdas@),
            keeps_ctx(*old(self), *final(self)),
            r matches Ok(e) ==> (e.node matches HirExpressionBase::HirConstRef { .. }) && (e.ty@
                is SpeMeta ==> spec_contains(
                final(self).class_dict.sk_classes@,
                crate::ty::fullname_v(e.ty@),
            )),
            ({
                let spr = crate::hir_maker::sp_resolve_const_name(
                    old(self).constants@,
                    old(self).imported_constants@,
                    crate::hir_maker::sp_scope_views(old(self).ctx.const_scopes@),
                    seq_views(old(self).ctx.typarams@),
                    seq_views(old(self).ctx.method_typarams@),
                    *name,
                    false,
                );
                match spr {
                    // A plain constant that resolves is returned; its error
                    // otherwise.
                    Ok(p) => (!(p.0 is TyParamRef) && !(p.0 is SpeMeta) && p.1.args.len() == 0)
                        ==> r is Ok,
                    Err(k) => r matches Err(e) && e@.kind == k,
                }
            }),
    {
        let ghost spr = crate::hir_maker::sp_resolve_const_name(
            old(self).constants@,
            old(self).imported_constants@,
            crate::hir_maker::sp_scope_views(old(self).ctx.const_scopes@),
            seq_views(old(self).ctx.typarams@),
            seq_views(old(self).ctx.method_typarams@),
            *name,
            false,
        );
        let pair = match self.resolve_const_name(name, false) {
            Ok(p) => p,
            Err(e) => {
                return Err(e);
            },
        };
        let (t, resolved) = pair;
        let full = resolved.to_const_fullname();
        if self.lookup_const(&full).is_some() {
            // A cached specialized constant must still be backed by its
            // metaclass in the dictionary.
            if t.is_metaclass() && t.is_specialized() {
                let key = t.fullname();
                if !self.class_dict.sk_classes.contains_key(&key) {
                    return Err(
                        crate::error::name_error(
                            msg3("the specialized class `", key.as_str(), "' is not registered"),
                        ),
                    );
                }
            }
            return Ok(Hir::const_ref(t, full));
        }
        if !resolved.has_type_args() {
            proof {
                crate::hir_maker::lemma_rcn_views(resolved.args@);
                if spr matches Ok(p) && !(p.0 is TyParamRef) && !(p.0 is SpeMeta)
                    && p.1.args.len() == 0 {
                    lemma_unregistered_plain_const_is_impossible(
                        old(self).constants@,
                        old(self).imported_constants@,
                        crate::hir_maker::sp_scope_views(old(self).ctx.const_scopes@),
                        seq_views(old(self).ctx.typarams@),
                        seq_views(old(self).ctx.method_typarams@),
                        *name,
                        t@,
                        resolved@,
                    );
                }
            }
            return Err(bug(String::from_str("an unregistered constant resolved")));
        }
        let class_ty = match self.create_class_const(&resolved) {
            Ok(t2) => t2,
            Err(e) => {
                return Err(e);
            },
        };
        Ok(Hir::const_ref(class_ty, full))
    }

    /// Register the constant (and, for a generic instantiation, the
    /// specialized metaclass) for a class object.
    fn create_class_const(&mut self, resolved: &ResolvedConstName) -> (r: Result<TermTy, Error>)
        requires
            ctx_captures_wf(old(self).ctx.lambdas@),
        ensures
            ctx_captures_wf(final(self).ctx.lambdas@),
            keeps_ctx(*old(self), *final(self)),
            match r {
                Ok(t) => (t@ is SpeMeta ==> spec_contains(
                    final(self).class_dict.sk_classes@,
                    crate::ty::fullname_v(t@),
                )) && spec_get(
                    final(self).constants@,
                    crate::names::path_sep() + crate::hir_maker::sp_rcn_string(resolved@),
                ) == Some(t@),
                Err(_) => true,
            },
            resolved.args@.len() == 0 ==> r is Ok,
            resolved.args@.len() > 0 && spec_contains(
                old(self).class_dict.sk_classes@,
                crate::names::meta_name_seq(
                    crate::names::join_with(
                        crate::names::seq_views(resolved.names@),
                        crate::names::path_sep(),
                    ),
                ),
            ) ==> r is Ok,
    {
        let t = if resolved.args.len() > 0 {
            match self.create_specialized_meta_class(resolved) {
                Ok(t) => t,
                Err(e) => {
                    return Err(e);
                },
            }
        } else {
            let s = resolved.to_string();
            ty::meta(s.as_str())
        };
        let s = resolved.to_string();
        let full = resolved.to_const_fullname();
        let str_idx = self.register_string_literal(s.as_str());
        let expr = Hir::class_literal(t.dup(), ClassFullname(s), str_idx);
        self.const_inits.push(expr);
        let ghost pre_consts = self.constants@;
        self.constants.insert(full.0.clone(), t.dup());
        proof {
            crate::strmap::lemma_get_insert(pre_consts, full@, t@, full@);
        }
        Ok(t)
    }

    /// Create and register `Meta:A<B>` for a constant `A<B>`, when it does
    /// not exist yet: the generic metaclass is cloned with the type
    /// arguments substituted into every signature.
    fn create_specialized_meta_class(&mut self, resolved: &ResolvedConstName) -> (r: Result<
        TermTy,
        Error,
    >)
        requires
            ctx_captures_wf(old(self).ctx.lambdas@),
        ensures
            ctx_captures_wf(final(self).ctx.lambdas@),
            keeps_ctx(*old(self), *final(self)),
            match r {
                Ok(t) => spec_contains(
                    final(self).class_dict.sk_classes@,
                    crate::ty::fullname_v(t@),
                ) && t@ == ty::spe_meta_v(
                    crate::names::join_with(
                        crate::names::seq_views(resolved.names@),
                        crate::names::path_sep(),
                    ),
                    resolved@.arg_tys,
                ) && (!spec_contains(
                    old(self).class_dict.sk_classes@,
                    crate::ty::fullname_v(t@),
                ) ==> ({
                    // A fresh entry is the generic metaclass with the type
                    // arguments substituted into every signature.
                    let base = crate::names::join_with(
                        crate::names::seq_views(resolved.names@),
                        crate::names::path_sep(),
                    );
                    match spec_get(
                        old(self).class_dict.sk_classes@,
                        crate::names::meta_name_seq(base),
                    ) {
                        Some(g) => spec_get(
                            final(self).class_dict.sk_classes@,
                            crate::ty::fullname_v(t@),
                        ) == Some(
                            crate::sk::SkClassV {
                                fullname: crate::ty::fullname_v(t@),
                                typarams: Seq::empty(),
                                superclass: g.superclass,
                                instance_ty: t@,
                                ivars: g.ivars,
                                method_sigs: sp_specialized_sigs(
                                    Seq::empty(),
                                    g.method_sigs,
                                    resolved@.arg_tys,
                                ),
                                const_is_obj: false,
                                foreign: g.foreign,
                            },
                        ),
                        None => false,
                    }
                })),
                Err(_) => true,
            },
            spec_contains(
                old(self).class_dict.sk_classes@,
                crate::names::meta_name_seq(
                    crate::names::join_with(
                        crate::names::seq_views(resolved.names@),
                        crate::names::path_sep(),
                    ),
                ),
            ) ==> r is Ok,
    {
        let joined = crate::names::join_strings(&resolved.names, "::");
        let mut meta_key = String::from_str("Meta:");
        meta_key.append(joined.as_str());
        let generic = match self.class_dict.lookup_class(&meta_key) {
            Some(c) => c.dup(),
            None => {
                return Err(
                    crate::error::name_error(
                        msg3("class `", joined.as_str(), "' was not found"),
                    ),
                );
            },
        };
        let tyargs = dup_tys(&resolved.arg_tys);
        let inst_ty = ty::spe_meta(joined.as_str(), dup_tys(&resolved.arg_tys));
        let full_str = inst_ty.fullname();
        let fullname = ClassFullname(full_str);
        if self.class_dict.sk_classes.contains_key(&fullname.0) {
            let ghost key = fullname@;
            return Ok(inst_ty);
        }
        let mut method_sigs: StrMap<MethodSignature> = StrMap::new();
        let no_margs: Vec<TermTy> = Vec::new();
        let gn = generic.method_sigs.len();
        let ghost gsigs = generic.method_sigs@;
        let ghost argsv = tys_view(tyargs@);
        proof {
            assert(gsigs.skip(0) =~= gsigs);
            assert(tys_view(no_margs@) =~= Seq::<TermTyV>::empty());
        }
        for i in 0..gn
            invariant
                gn == generic.method_sigs@.len(),
                gsigs == generic.method_sigs@,
                argsv == tys_view(tyargs@),
                tys_view(no_margs@) == Seq::<TermTyV>::empty(),
                sp_specialized_sigs(Seq::empty(), gsigs, argsv) == sp_specialized_sigs(
                    method_sigs@,
                    gsigs.skip(i as int),
                    argsv,
                ),
        {
            proof {
                assert(gsigs.skip(i as int)[0] == gsigs[i as int]);
                assert(gsigs.skip(i as int).drop_first() =~= gsigs.skip(i + 1));
            }
            let k = generic.method_sigs.key_at(i).clone();
            let v = generic.method_sigs.val_at(i).specialize(&tyargs, &no_margs);
            method_sigs.insert(k, v);
        }
        proof {
            assert(gsigs.skip(gn as int) =~= Seq::<(Seq<char>, crate::sk::MethodSignatureV)>::empty());
        }
        let cls = crate::sk::SkClass {
            fullname: fullname.clone(),
            typarams: Vec::new(),
            superclass: match &generic.superclass {
                Some(s) => Some(s.dup()),
                None => None,
            },
            instance_ty: inst_ty.dup(),
            ivars: generic.ivars.dup(),
            method_sigs,
            const_is_obj: false,
            foreign: generic.foreign,
        };
        let ghost pre = self.class_dict.sk_classes@;
        let ghost clsv = cls@;
        proof {
            assert(clsv.typarams =~= Seq::<Seq<char>>::empty());
        }
        self.class_dict.add_class(cls);
        proof {
            crate::strmap::lemma_get_insert(pre, clsv.fullname, clsv, clsv.fullname);
        }
        Ok(inst_ty)
    }
}

/// A plain (argument-free, non-type-parameter) name that resolves is
/// always registered: the resolution hit is the registration.
proof fn lemma_unregistered_plain_const_is_impossible(
    consts: Seq<(Seq<char>, crate::ty::TermTyV)>,
    imported: Seq<(Seq<char>, crate::ty::TermTyV)>,
    scopes: Seq<Seq<Seq<char>>>,
    cls_tp: Seq<Seq<char>>,
    mth_tp: Seq<Seq<char>>,
    name: ConstName,
    t: crate::ty::TermTyV,
    rcn: crate::hir_maker::ResolvedConstNameV,
)
    requires
        crate::hir_maker::sp_resolve_const_name(
            consts,
            imported,
            scopes,
            cls_tp,
            mth_tp,
            name,
            false,
        ) == Ok::<
            (crate::ty::TermTyV, crate::hir_maker::ResolvedConstNameV),
            crate::error::ErrorKind,
        >((t, rcn)),
        !(t is TyParamRef),
        rcn.args.len() == 0,
    ensures
        crate::hir_maker::sp_lookup_const(
            consts,
            imported,
            crate::names::path_sep() + crate::hir_maker::sp_rcn_string(rcn),
        ) == Some(t),
{
    match crate::hir_maker::sp_resolve_simple(
        consts,
        imported,
        scopes,
        cls_tp,
        mth_tp,
        crate::names::seq_views(name.names@),
    ) {
        Ok(p) => {
            crate::hir_maker::lemma_resolved_const_is_registered(
                consts,
                imported,
                scopes,
                crate::names::seq_views(name.names@),
                p.0,
                p.1,
            );
        },
        Err(_) => {},
    }
}

/// The fullname of a class, read back as the type of its instances; a
/// `Meta:` name denotes the class objects of the stripped class.
fn class_object_instance_ty(name: &ClassFullname) -> (r: TermTy) {
    let s = name.0.as_str();
    let n = s.unicode_len();
    if n >= 5 {
        let head = s.substring_char(0, 5);
        if String::from_str(head).eq(&String::from_str("Meta:")) {
            let rest = s.substring_char(5, n);
            return ty::meta(rest);
        }
    }
    ty::raw(s)
}

/// The locals of a finished lambda, as HIR records.
fn extract_lvars(lvars: &StrMap<crate::hir_maker::CtxLVar>) -> (r: Vec<HirLVar>) {
    let mut r: Vec<HirLVar> = Vec::new();
    let n = lvars.len();
    for i in 0..n
        invariant
            n == lvars@.len(),
    {
        let name = lvars.key_at(i).clone();
        let t = lvars.val_at(i).ty.dup();
        r.push(HirLVar { name, ty: t });
    }
    r
}

} // verus!
