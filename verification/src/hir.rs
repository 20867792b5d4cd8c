//! The typed intermediate representation.
//!
//! Every node carries its type.  The builders below each make one node; the
//! type rules live with the lowering, not here.

use vstd::prelude::*;
use crate::names::ClassFullname;
use crate::names::ConstFullname;
use crate::names::MethodFullname;
use crate::sk::MethodParam;
use crate::sk::MethodSignature;
use crate::sk::SkClass;
use crate::strmap::StrMap;
use crate::strmap::spec_extend;
use crate::ty;
use crate::ty::TermTy;
use crate::ty::raw_v;

verus! {

/// What a `break` leaves.
#[derive(Clone, Copy, PartialEq, Eq, Structural)]
pub enum HirBreakFrom {
    While,
    Block,
}

/// What a `return` leaves.
#[derive(Clone, Copy, PartialEq, Eq, Structural)]
pub enum HirReturnFrom {
    Fn,
    Method,
}

/// A capture slot of a lambda.
pub enum HirLambdaCapture {
    /// A local variable of the scope the lambda sits in.
    CaptureLVar { name: String },
    /// An argument of the scope the lambda sits in.
    CaptureArg { idx: usize },
    /// A variable of some farther scope, reached through the enclosing
    /// lambda's capture slot `cidx`.
    CaptureFwd { cidx: usize, ty: TermTy },
}

/// A local variable of a lambda body.
pub struct HirLVar {
    pub name: String,
    pub ty: TermTy,
}

pub struct HirExpressions {
    pub ty: TermTy,
    pub exprs: Vec<HirExpression>,
}

pub struct HirExpression {
    pub ty: TermTy,
    pub node: HirExpressionBase,
}

pub enum HirExpressionBase {
    HirIfExpression {
        cond_expr: Box<HirExpression>,
        then_exprs: Box<HirExpressions>,
        else_exprs: Box<HirExpressions>,
    },
    HirWhileExpression { cond_expr: Box<HirExpression>, body_exprs: Box<HirExpressions> },
    HirLogicalNot { expr: Box<HirExpression> },
    HirLogicalAnd { left: Box<HirExpression>, right: Box<HirExpression> },
    HirLogicalOr { left: Box<HirExpression>, right: Box<HirExpression> },
    HirBreakExpression { from: HirBreakFrom },
    HirReturnExpression { from: HirReturnFrom, arg: Box<HirExpression> },
    HirLVarAssign { name: String, rhs: Box<HirExpression> },
    HirIVarAssign {
        name: String,
        idx: usize,
        rhs: Box<HirExpression>,
        writable: bool,
        self_ty: TermTy,
    },
    HirConstAssign { fullname: ConstFullname, rhs: Box<HirExpression> },
    HirMethodCall {
        receiver_expr: Box<HirExpression>,
        method_fullname: MethodFullname,
        arg_exprs: Vec<HirExpression>,
    },
    HirLambdaInvocation { lambda_expr: Box<HirExpression>, arg_exprs: Vec<HirExpression> },
    HirLambdaExpr {
        name: String,
        params: Vec<MethodParam>,
        exprs: Box<HirExpressions>,
        captures: Vec<HirLambdaCapture>,
        lvars: Vec<HirLVar>,
        ret_ty: TermTy,
        has_break: bool,
    },
    HirArgRef { idx: usize },
    HirLVarRef { name: String },
    HirIVarRef { name: String, idx: usize, self_ty: TermTy },
    HirConstRef { fullname: ConstFullname },
    HirLambdaCaptureRef { cidx: usize, readonly: bool },
    HirLambdaCaptureWrite { cidx: usize, rhs: Box<HirExpression> },
    HirSelfExpression,
    HirDecimalLiteral { value: i32 },
    HirBooleanLiteral { value: bool },
    HirStringLiteral { idx: usize },
    /// Evaluates to the class object; never shadowed by constants.
    HirClassLiteral { fullname: ClassFullname, str_literal_idx: usize },
    HirBitCast { expr: Box<HirExpression> },
    HirArrayLiteral { exprs: Vec<HirExpression> },
    /// The placeholder for a missing else branch.
    HirNop,
}

/// The body of one compiled method.
pub enum SkMethodBody {
    /// Lowered source expressions.
    ShiikaMethodBody { exprs: HirExpressions },
    /// Supplied by the backend at code-generation time.
    RustMethodBody,
}

/// One compiled method: its signature and body.
pub struct SkMethod {
    pub signature: MethodSignature,
    pub body: SkMethodBody,
}

/// The finished program: classes, methods, constants, the expressions that
/// initialize lazily created class constants, the lowered toplevel
/// expressions, and the string-literal table.
pub struct Hir {
    pub sk_classes: StrMap<SkClass>,
    pub sk_methods: StrMap<Vec<SkMethod>>,
    pub constants: StrMap<TermTy>,
    pub const_inits: Vec<HirExpression>,
    pub main_exprs: HirExpressions,
    pub str_literals: Vec<String>,
}

impl Hir {
    /// Merge more classes into the program.
    pub fn add_classes(&mut self, sk_classes: StrMap<SkClass>)
        ensures
            final(self).sk_classes@ == spec_extend(old(self).sk_classes@, sk_classes@),
            final(self).sk_methods == old(self).sk_methods,
            final(self).constants == old(self).constants,
            final(self).const_inits == old(self).const_inits,
            final(self).main_exprs == old(self).main_exprs,
            final(self).str_literals == old(self).str_literals,
    {
        self.sk_classes.extend(sk_classes);
    }

    /// Merge more methods into the program.
    pub fn add_methods(&mut self, sk_methods: StrMap<Vec<SkMethod>>)
        ensures
            final(self).sk_methods@ == spec_extend(old(self).sk_methods@, sk_methods@),
            final(self).sk_classes == old(self).sk_classes,
            final(self).constants == old(self).constants,
            final(self).const_inits == old(self).const_inits,
            final(self).main_exprs == old(self).main_exprs,
            final(self).str_literals == old(self).str_literals,
    {
        self.sk_methods.extend(sk_methods);
    }

    pub fn if_expression(
        ty: TermTy,
        cond_hir: HirExpression,
        then_hirs: HirExpressions,
        else_hirs: HirExpressions,
    ) -> (r: HirExpression)
        ensures
            r.ty == ty,
            match r.node {
                HirExpressionBase::HirIfExpression { cond_expr, then_exprs, else_exprs } => {
                    &&& *cond_expr == cond_hir
                    &&& *then_exprs == then_hirs
                    &&& *else_exprs == else_hirs
                },
                _ => false,
            },
    {
        HirExpression {
            ty,
            node: HirExpressionBase::HirIfExpression {
                cond_expr: Box::new(cond_hir),
                then_exprs: Box::new(then_hirs),
                else_exprs: Box::new(else_hirs),
            },
        }
    }

    /// A while loop; its value is `Void`.
    pub fn while_expression(cond_hir: HirExpression, body_hirs: HirExpressions) -> (r:
        HirExpression)
        ensures
            r.ty@ == raw_v("Void"@),
            match r.node {
                HirExpressionBase::HirWhileExpression { cond_expr, body_exprs } => {
                    &&& *cond_expr == cond_hir
                    &&& *body_exprs == body_hirs
                },
                _ => false,
            },
    {
        HirExpression {
            ty: ty::raw("Void"),
            node: HirExpressionBase::HirWhileExpression {
                cond_expr: Box::new(cond_hir),
                body_exprs: Box::new(body_hirs),
            },
        }
    }

    pub fn logical_not(expr_hir: HirExpression) -> (r: HirExpression)
        ensures
            r.ty@ == raw_v("Bool"@),
            match r.node {
                HirExpressionBase::HirLogicalNot { expr } => *expr == expr_hir,
                _ => false,
            },
    {
        HirExpression {
            ty: ty::raw("Bool"),
            node: HirExpressionBase::HirLogicalNot { expr: Box::new(expr_hir) },
        }
    }

    pub fn logical_and(left_hir: HirExpression, right_hir: HirExpression) -> (r: HirExpression)
        ensures
            r.ty@ == raw_v("Bool"@),
            match r.node {
                HirExpressionBase::HirLogicalAnd { left, right } => *left == left_hir && *right
                    == right_hir,
                _ => false,
            },
    {
        HirExpression {
            ty: ty::raw("Bool"),
            node: HirExpressionBase::HirLogicalAnd {
                left: Box::new(left_hir),
                right: Box::new(right_hir),
            },
        }
    }

    pub fn logical_or(left_hir: HirExpression, right_hir: HirExpression) -> (r: HirExpression)
        ensures
            r.ty@ == raw_v("Bool"@),
            match r.node {
                HirExpressionBase::HirLogicalOr { left, right } => *left == left_hir && *right
                    == right_hir,
                _ => false,
            },
    {
        HirExpression {
            ty: ty::raw("Bool"),
            node: HirExpressionBase::HirLogicalOr {
                left: Box::new(left_hir),
                right: Box::new(right_hir),
            },
        }
    }

    /// A break; its value is `Never` since it does not complete.
    pub fn break_expression(from: HirBreakFrom) -> (r: HirExpression)
        ensures
            r.ty@ == raw_v("Never"@),
            r.node == (HirExpressionBase::HirBreakExpression { from }),
    {
        HirExpression {
            ty: ty::raw("Never"),
            node: HirExpressionBase::HirBreakExpression { from },
        }
    }

    /// A return; its value is `Never` since it does not complete.
    pub fn return_expression(from: HirReturnFrom, arg_expr: HirExpression) -> (r: HirExpression)
        ensures
            r.ty@ == raw_v("Never"@),
            match r.node {
                HirExpressionBase::HirReturnExpression { from: f, arg } => f == from && *arg
                    == arg_expr,
                _ => false,
            },
    {
        HirExpression {
            ty: ty::raw("Never"),
            node: HirExpressionBase::HirReturnExpression { from, arg: Box::new(arg_expr) },
        }
    }

    /// An assignment to a local; its value is the assigned value.
    pub fn lvar_assign(name: &String, rhs: HirExpression) -> (r: HirExpression)
        ensures
            r.ty@ == rhs.ty@,
            match r.node {
                HirExpressionBase::HirLVarAssign { name: n, rhs: e } => n@ == name@ && *e == rhs,
                _ => false,
            },
    {
        let ty = dup_ty(&rhs.ty);
        HirExpression {
            ty,
            node: HirExpressionBase::HirLVarAssign { name: name.clone(), rhs: Box::new(rhs) },
        }
    }

    pub fn ivar_assign(
        name: &String,
        idx: usize,
        rhs: HirExpression,
        writable: bool,
        self_ty: TermTy,
    ) -> (r: HirExpression)
        ensures
            r.ty@ == rhs.ty@,
            match r.node {
                HirExpressionBase::HirIVarAssign { name: n, idx: i, rhs: e, writable: w, self_ty: s } => {
                    &&& n@ == name@
                    &&& i == idx
                    &&& *e == rhs
                    &&& w == writable
                    &&& s == self_ty
                },
                _ => false,
            },
    {
        let ty = dup_ty(&rhs.ty);
        HirExpression {
            ty,
            node: HirExpressionBase::HirIVarAssign {
                name: name.clone(),
                idx,
                rhs: Box::new(rhs),
                writable,
                self_ty,
            },
        }
    }

    pub fn const_assign(fullname: ConstFullname, rhs: HirExpression) -> (r: HirExpression)
        ensures
            r.ty@ == rhs.ty@,
            match r.node {
                HirExpressionBase::HirConstAssign { fullname: f, rhs: e } => f == fullname && *e
                    == rhs,
                _ => false,
            },
    {
        let ty = dup_ty(&rhs.ty);
        HirExpression {
            ty,
            node: HirExpressionBase::HirConstAssign { fullname, rhs: Box::new(rhs) },
        }
    }

    pub fn method_call(
        result_ty: TermTy,
        receiver_hir: HirExpression,
        method_fullname: MethodFullname,
        arg_hirs: Vec<HirExpression>,
    ) -> (r: HirExpression)
        ensures
            r.ty == result_ty,
            match r.node {
                HirExpressionBase::HirMethodCall { receiver_expr, method_fullname: m, arg_exprs } => {
                    &&& *receiver_expr == receiver_hir
                    &&& m == method_fullname
                    &&& arg_exprs == arg_hirs
                },
                _ => false,
            },
    {
        HirExpression {
            ty: result_ty,
            node: HirExpressionBase::HirMethodCall {
                receiver_expr: Box::new(receiver_hir),
                method_fullname,
                arg_exprs: arg_hirs,
            },
        }
    }

    pub fn lambda_invocation(
        result_ty: TermTy,
        lambda_hir: HirExpression,
        arg_hirs: Vec<HirExpression>,
    ) -> (r: HirExpression)
        ensures
            r.ty == result_ty,
            match r.node {
                HirExpressionBase::HirLambdaInvocation { lambda_expr, arg_exprs } => {
                    &&& *lambda_expr == lambda_hir
                    &&& arg_exprs == arg_hirs
                },
                _ => false,
            },
    {
        HirExpression {
            ty: result_ty,
            node: HirExpressionBase::HirLambdaInvocation {
                lambda_expr: Box::new(lambda_hir),
                arg_exprs: arg_hirs,
            },
        }
    }

    pub fn lambda_expr(
        ty: TermTy,
        name: String,
        params: Vec<MethodParam>,
        exprs: HirExpressions,
        captures: Vec<HirLambdaCapture>,
        lvars: Vec<HirLVar>,
        has_break: bool,
    ) -> (r: HirExpression)
        ensures
            r.ty == ty,
            match r.node {
                HirExpressionBase::HirLambdaExpr {
                    name: n,
                    params: p,
                    exprs: e,
                    captures: c,
                    lvars: l,
                    ret_ty: rt,
                    has_break: hb,
                } => {
                    &&& n == name
                    &&& p == params
                    &&& *e == exprs
                    &&& c == captures
                    &&& l == lvars
                    &&& rt@ == exprs.ty@
                    &&& hb == has_break
                },
                _ => false,
            },
    {
        let ret_ty = dup_ty(&exprs.ty);
        HirExpression {
            ty,
            node: HirExpressionBase::HirLambdaExpr {
                name,
                params,
                exprs: Box::new(exprs),
                captures,
                lvars,
                ret_ty,
                has_break,
            },
        }
    }

    pub fn hir_arg_ref(ty: TermTy, idx: usize) -> (r: HirExpression)
        ensures
            r.ty == ty,
            r.node == (HirExpressionBase::HirArgRef { idx }),
    {
        HirExpression { ty, node: HirExpressionBase::HirArgRef { idx } }
    }

    pub fn lvar_ref(ty: TermTy, name: String) -> (r: HirExpression)
        ensures
            r.ty == ty,
            r.node == (HirExpressionBase::HirLVarRef { name }),
    {
        HirExpression { ty, node: HirExpressionBase::HirLVarRef { name } }
    }

    pub fn ivar_ref(ty: TermTy, name: String, idx: usize, self_ty: TermTy) -> (r: HirExpression)
        ensures
            r.ty == ty,
            r.node == (HirExpressionBase::HirIVarRef { name, idx, self_ty }),
    {
        HirExpression { ty, node: HirExpressionBase::HirIVarRef { name, idx, self_ty } }
    }

    pub fn const_ref(ty: TermTy, fullname: ConstFullname) -> (r: HirExpression)
        ensures
            r.ty == ty,
            r.node == (HirExpressionBase::HirConstRef { fullname }),
    {
        HirExpression { ty, node: HirExpressionBase::HirConstRef { fullname } }
    }

    pub fn lambda_capture_ref(ty: TermTy, cidx: usize, readonly: bool) -> (r: HirExpression)
        ensures
            r.ty == ty,
            r.node == (HirExpressionBase::HirLambdaCaptureRef { cidx, readonly }),
    {
        HirExpression { ty, node: HirExpressionBase::HirLambdaCaptureRef { cidx, readonly } }
    }

    pub fn lambda_capture_write(cidx: usize, rhs: HirExpression) -> (r: HirExpression)
        ensures
            r.ty@ == rhs.ty@,
            match r.node {
                HirExpressionBase::HirLambdaCaptureWrite { cidx: c, rhs: e } => c == cidx && *e
                    == rhs,
                _ => false,
            },
    {
        let ty = dup_ty(&rhs.ty);
        HirExpression {
            ty,
            node: HirExpressionBase::HirLambdaCaptureWrite { cidx, rhs: Box::new(rhs) },
        }
    }

    pub fn self_expression(ty: TermTy) -> (r: HirExpression)
        ensures
            r.ty == ty,
            r.node == HirExpressionBase::HirSelfExpression,
    {
        HirExpression { ty, node: HirExpressionBase::HirSelfExpression }
    }

    pub fn decimal_literal(value: i32) -> (r: HirExpression)
        ensures
            r.ty@ == raw_v("Int"@),
            r.node == (HirExpressionBase::HirDecimalLiteral { value }),
    {
        HirExpression { ty: ty::raw("Int"), node: HirExpressionBase::HirDecimalLiteral { value } }
    }

    pub fn boolean_literal(value: bool) -> (r: HirExpression)
        ensures
            r.ty@ == raw_v("Bool"@),
            r.node == (HirExpressionBase::HirBooleanLiteral { value }),
    {
        HirExpression { ty: ty::raw("Bool"), node: HirExpressionBase::HirBooleanLiteral { value } }
    }

    pub fn string_literal(idx: usize) -> (r: HirExpression)
        ensures
            r.ty@ == raw_v("String"@),
            r.node == (HirExpressionBase::HirStringLiteral { idx }),
    {
        HirExpression { ty: ty::raw("String"), node: HirExpressionBase::HirStringLiteral { idx } }
    }

    pub fn class_literal(ty: TermTy, fullname: ClassFullname, str_literal_idx: usize) -> (r:
        HirExpression)
        ensures
            r.ty == ty,
            r.node == (HirExpressionBase::HirClassLiteral { fullname, str_literal_idx }),
    {
        HirExpression {
            ty,
            node: HirExpressionBase::HirClassLiteral { fullname, str_literal_idx },
        }
    }

    pub fn bit_cast(ty: TermTy, expr_hir: HirExpression) -> (r: HirExpression)
        ensures
            r.ty == ty,
            match r.node {
                HirExpressionBase::HirBitCast { expr } => *expr == expr_hir,
                _ => false,
            },
    {
        HirExpression { ty, node: HirExpressionBase::HirBitCast { expr: Box::new(expr_hir) } }
    }

    pub fn array_literal(item_exprs: Vec<HirExpression>, ary_ty: TermTy) -> (r: HirExpression)
        ensures
            r.ty == ary_ty,
            match r.node {
                HirExpressionBase::HirArrayLiteral { exprs } => exprs == item_exprs,
                _ => false,
            },
    {
        HirExpression { ty: ary_ty, node: HirExpressionBase::HirArrayLiteral { exprs: item_exprs } }
    }

    pub fn nop() -> (r: HirExpression)
        ensures
            r.ty@ == raw_v("Void"@),
            r.node == HirExpressionBase::HirNop,
    {
        HirExpression { ty: ty::raw("Void"), node: HirExpressionBase::HirNop }
    }
}

/// A copy of a type with the same view.
fn dup_ty(t: &TermTy) -> (r: TermTy)
    ensures
        r@ == t@,
{
    crate::strmap::DupView::dup(t)
}

/// A reference to the constant `Void`, the unique instance of `Void`.
pub fn void_const_ref() -> (r: HirExpression)
    ensures
        r.ty@ == raw_v("Void"@),
        match r.node {
            HirExpressionBase::HirConstRef { fullname } => fullname@ == "::Void"@,
            _ => false,
        },
{
    HirExpression {
        ty: ty::raw("Void"),
        node: HirExpressionBase::HirConstRef {
            fullname: crate::names::ConstFullname(String::from_str("::Void")),
        },
    }
}

impl HirExpressions {
    /// Wrap a list of expressions; the type is the last expression's type,
    /// or `Void` for an empty list.
    pub fn new(exprs: Vec<HirExpression>) -> (r: HirExpressions)
        ensures
            r.exprs == exprs,
            r.ty@ == if exprs@.len() == 0 {
                raw_v("Void"@)
            } else {
                exprs@.last().ty@
            },
    {
        let ty = if exprs.len() == 0 {
            ty::raw("Void")
        } else {
            dup_ty(&exprs[exprs.len() - 1].ty)
        };
        HirExpressions { ty, exprs }
    }

    /// Discard the value: append a reference to the `Void` constant so the
    /// whole list is of type `Void`.
    pub fn voidify(&mut self)
        ensures
            final(self).ty@ == raw_v("Void"@),
            final(self).exprs@.len() == old(self).exprs@.len() + 1,
            final(self).exprs@.take(old(self).exprs@.len() as int) == old(self).exprs@,
            final(self).exprs@.last().ty@ == raw_v("Void"@),
    {
        let ghost pre = self.exprs@;
        self.exprs.push(void_const_ref());
        let void_ty = ty::raw("Void");
        self.ty = void_ty;
        proof {
            assert(self.exprs@.take(pre.len() as int) =~= pre);
        }
    }

    /// Cast the value: wrap the last expression in a bit-cast to `ty`.
    pub fn bitcast_to(self, ty: TermTy) -> (r: HirExpressions)
        requires
            self.exprs@.len() > 0,
        ensures
            r.ty == ty,
            r.exprs@.len() == self.exprs@.len(),
            r.exprs@.last().ty@ == ty@,
            match r.exprs@.last().node {
                HirExpressionBase::HirBitCast { expr } => *expr == self.exprs@.last(),
                _ => false,
            },
            r.exprs@.take(r.exprs@.len() - 1) == self.exprs@.take(self.exprs@.len() - 1),
    {
        let mut exprs = self.exprs;
        let ghost pre = exprs@;
        let last = exprs.pop().unwrap();
        let cast = Hir::bit_cast(dup_ty(&ty), last);
        exprs.push(cast);
        proof {
            assert(exprs@.take(exprs@.len() - 1) =~= pre.take(pre.len() - 1));
        }
        HirExpressions { ty, exprs }
    }
}

} // verus!
