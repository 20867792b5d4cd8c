//! The abstract syntax tree that the parser delivers.
//!
//! Only the shape matters here: the front-end walks these trees, it never
//! builds them.  The `esize`/`dsize` measures justify termination of the
//! recursive walks.

use vstd::prelude::*;
use crate::names::ClassFirstname;
use crate::names::MethodFirstname;
use crate::names::join_with;
use crate::names::path_sep;
use crate::names::seq_views;
use crate::names::str_idx_of;
use crate::names::find_str;
use crate::ty;
use crate::ty::TermTy;
use crate::ty::TermTyV;
use crate::ty::TyParamKind;
use crate::ty::tys_view;
use crate::ty::lemma_tys_view;

verus! {

/// A possibly generic constant path, e.g. `Foo::Bar<Baz>`.
pub struct ConstName {
    pub names: Vec<String>,
    pub args: Vec<ConstName>,
}

/// The mathematical shape of a `ConstName`.
pub struct ConstNameV {
    pub names: Seq<Seq<char>>,
    pub args: Seq<ConstNameV>,
}

pub open spec fn const_name_view(n: ConstName) -> ConstNameV
    decreases n,
{
    ConstNameV { names: seq_views(n.names@), args: const_name_views(n.args@) }
}

pub open spec fn const_name_views(s: Seq<ConstName>) -> Seq<ConstNameV>
    decreases s,
{
    if s.len() == 0 {
        Seq::empty()
    } else {
        seq![const_name_view(s[0])] + const_name_views(s.drop_first())
    }
}

pub proof fn lemma_const_name_views(s: Seq<ConstName>)
    ensures
        const_name_views(s).len() == s.len(),
        forall|i: int| 0 <= i < s.len() ==> const_name_views(s)[i] == const_name_view(s[i]),
    decreases s,
{
    if s.len() > 0 {
        lemma_const_name_views(s.drop_first());
    }
}

impl View for ConstName {
    type V = ConstNameV;

    open spec fn view(&self) -> ConstNameV {
        const_name_view(*self)
    }
}

/// `ConstName::to_ty` at the level of views: a single name that matches a
/// class type parameter becomes a reference to it; everything else becomes a
/// plain or specialized class type named by the joined path.
pub open spec fn const_name_to_ty_v(n: ConstNameV, typarams: Seq<Seq<char>>) -> TermTyV
    decreases n,
{
    if n.names.len() == 1 && str_idx_of(typarams, n.names[0]) >= 0 {
        TermTyV::TyParamRef {
            name: n.names[0],
            kind: TyParamKind::Class,
            idx: str_idx_of(typarams, n.names[0]) as nat,
        }
    } else if n.args.len() == 0 {
        ty::raw_v(join_with(n.names, path_sep()))
    } else {
        ty::spe_v(join_with(n.names, path_sep()), const_names_to_ty_v(n.args, typarams))
    }
}

pub open spec fn const_names_to_ty_v(s: Seq<ConstNameV>, typarams: Seq<Seq<char>>) -> Seq<TermTyV>
    decreases s,
{
    if s.len() == 0 {
        Seq::empty()
    } else {
        seq![const_name_to_ty_v(s[0], typarams)] + const_names_to_ty_v(s.drop_first(), typarams)
    }
}

pub proof fn lemma_const_names_to_ty_v(s: Seq<ConstNameV>, typarams: Seq<Seq<char>>)
    ensures
        const_names_to_ty_v(s, typarams).len() == s.len(),
        forall|i: int| 0 <= i < s.len() ==> const_names_to_ty_v(s, typarams)[i]
            == const_name_to_ty_v(s[i], typarams),
    decreases s,
{
    if s.len() > 0 {
        lemma_const_names_to_ty_v(s.drop_first(), typarams);
    }
}

impl ConstName {
    pub fn has_type_args(&self) -> (r: bool)
        ensures
            r == (self@.args.len() > 0),
    {
        proof {
            lemma_const_name_views(self.args@);
        }
        self.args.len() > 0
    }

    /// The type this name denotes, given the enclosing class's type
    /// parameters.
    pub fn to_ty(&self, typarams: &Vec<String>) -> (r: TermTy)
        ensures
            r@ == const_name_to_ty_v(self@, seq_views(typarams@)),
        decreases *self,
    {
        proof {
            lemma_const_name_views(self.args@);
        }
        if self.names.len() == 1 {
            if let Some(i) = find_str(typarams, &self.names[0]) {
                return ty::typaram(self.names[0].as_str(), TyParamKind::Class, i);
            }
        }
        let joined = crate::names::join_strings(&self.names, "::");
        if self.args.len() == 0 {
            ty::raw(joined.as_str())
        } else {
            let mut args: Vec<TermTy> = Vec::new();
            let n = self.args.len();
            let ghost tp = seq_views(typarams@);
            for i in 0..n
                invariant
                    n == self.args@.len(),
                    tp == seq_views(typarams@),
                    args@.len() == i,
                    forall|j: int| 0 <= j < i ==> args@[j]@ == const_name_to_ty_v(
                        self.args@[j]@,
                        tp,
                    ),
            {
                args.push(self.args[i].to_ty(typarams));
            }
            proof {
                lemma_tys_view(args@);
                lemma_const_names_to_ty_v(self@.args, tp);
                lemma_const_name_views(self.args@);
                assert(tys_view(args@) =~= const_names_to_ty_v(self@.args, tp));
            }
            ty::spe(joined.as_str(), args)
        }
    }
}

/// A declared type in a signature, e.g. `Array<T>`.
pub struct Typ {
    pub name: String,
    pub args: Vec<Typ>,
}

/// The mathematical shape of a `Typ`.
pub struct TypV {
    pub name: Seq<char>,
    pub args: Seq<TypV>,
}

pub open spec fn typ_view(t: Typ) -> TypV
    decreases t,
{
    TypV { name: t.name@, args: typ_views(t.args@) }
}

pub open spec fn typ_views(s: Seq<Typ>) -> Seq<TypV>
    decreases s,
{
    if s.len() == 0 {
        Seq::empty()
    } else {
        seq![typ_view(s[0])] + typ_views(s.drop_first())
    }
}

pub proof fn lemma_typ_views(s: Seq<Typ>)
    ensures
        typ_views(s).len() == s.len(),
        forall|i: int| 0 <= i < s.len() ==> typ_views(s)[i] == typ_view(s[i]),
    decreases s,
{
    if s.len() > 0 {
        lemma_typ_views(s.drop_first());
    }
}

impl View for Typ {
    type V = TypV;

    open spec fn view(&self) -> TypV {
        typ_view(*self)
    }
}

/// A formal method or lambda parameter.
pub struct Param {
    pub name: String,
    pub typ: Typ,
}

/// View of a parameter: its name and declared type.
pub struct ParamV {
    pub name: Seq<char>,
    pub typ: TypV,
}

impl View for Param {
    type V = ParamV;

    open spec fn view(&self) -> ParamV {
        ParamV { name: self.name@, typ: self.typ@ }
    }
}

/// A method signature as parsed.
pub struct AstMethodSignature {
    pub name: MethodFirstname,
    pub params: Vec<Param>,
    pub ret_typ: Typ,
    pub typarams: Vec<String>,
}

/// View of a parsed method signature.
pub struct AstMethodSignatureV {
    pub name: Seq<char>,
    pub params: Seq<ParamV>,
    pub ret_typ: TypV,
    pub typarams: Seq<Seq<char>>,
}

/// The views of a parameter list.
pub open spec fn ast_param_views(s: Seq<Param>) -> Seq<ParamV> {
    Seq::new(s.len(), |i: int| s[i]@)
}

impl View for AstMethodSignature {
    type V = AstMethodSignatureV;

    open spec fn view(&self) -> AstMethodSignatureV {
        AstMethodSignatureV {
            name: self.name@,
            params: ast_param_views(self.params@),
            ret_typ: self.ret_typ@,
            typarams: seq_views(self.typarams@),
        }
    }
}

/// One case of an enum definition.
pub struct EnumCase {
    pub name: ClassFirstname,
    pub params: Vec<Param>,
}

/// A top-level or nested definition.
pub enum Definition {
    ClassDefinition {
        name: ClassFirstname,
        typarams: Vec<String>,
        superclass: Option<ConstName>,
        defs: Vec<Definition>,
    },
    EnumDefinition { name: ClassFirstname, typarams: Vec<String>, cases: Vec<EnumCase> },
    InstanceMethodDefinition { sig: AstMethodSignature, body_exprs: Vec<AstExpression> },
    ClassMethodDefinition { sig: AstMethodSignature, body_exprs: Vec<AstExpression> },
    ConstDefinition { names: Vec<String>, expr: AstExpression },
}

/// A parsed program: definitions plus the main expressions.
pub struct Program {
    pub toplevel_defs: Vec<Definition>,
    pub toplevel_exprs: Vec<AstExpression>,
}

/// The keyword-like expressions `self`, `true` and `false`.
#[derive(Clone, Copy, PartialEq, Eq, Structural)]
pub enum PseudoVar {
    SelfRef,
    True,
    False,
}

pub struct AstExpression {
    pub body: AstExpressionBody,
}

pub enum AstExpressionBody {
    LogicalNot { expr: Box<AstExpression> },
    LogicalAnd { left: Box<AstExpression>, right: Box<AstExpression> },
    LogicalOr { left: Box<AstExpression>, right: Box<AstExpression> },
    If {
        cond_expr: Box<AstExpression>,
        then_exprs: Vec<AstExpression>,
        else_exprs: Option<Vec<AstExpression>>,
    },
    While { cond_expr: Box<AstExpression>, body_exprs: Vec<AstExpression> },
    Break,
    Return { arg: Option<Box<AstExpression>> },
    LVarAssign { name: String, rhs: Box<AstExpression>, is_var: bool },
    IVarAssign { name: String, rhs: Box<AstExpression>, is_var: bool },
    ConstAssign { names: Vec<String>, rhs: Box<AstExpression> },
    MethodCall {
        receiver_expr: Option<Box<AstExpression>>,
        method_name: MethodFirstname,
        arg_exprs: Vec<AstExpression>,
        type_args: Vec<ConstName>,
        primary: bool,
        may_have_paren_wo_args: bool,
    },
    LambdaExpr { params: Vec<Param>, exprs: Vec<AstExpression>, is_fn: bool },
    BareName { name: String },
    IVarRef { name: String },
    ConstRef { name: ConstName },
    PseudoVariable { token: PseudoVar },
    ArrayLiteral { exprs: Vec<AstExpression> },
    DecimalLiteral { value: i32 },
    StringLiteral { content: String },
}

/// The size of an expression; every expression has size at least one, and a
/// parent is strictly larger than all its parts together.
pub open spec fn esize(e: AstExpression) -> nat
    decreases e,
{
    match e.body {
        AstExpressionBody::LogicalNot { expr } => 2 + esize(*expr),
        AstExpressionBody::LogicalAnd { left, right } => 2 + esize(*left) + esize(*right),
        AstExpressionBody::LogicalOr { left, right } => 2 + esize(*left) + esize(*right),
        AstExpressionBody::If { cond_expr, then_exprs, else_exprs } => 2 + esize(*cond_expr)
            + eseq(then_exprs@) + match else_exprs {
            Some(es) => eseq(es@),
            None => 0,
        },
        AstExpressionBody::While { cond_expr, body_exprs } => 2 + esize(*cond_expr) + eseq(
            body_exprs@,
        ),
        AstExpressionBody::Break => 1,
        AstExpressionBody::Return { arg } => 2 + match arg {
            Some(b) => esize(*b),
            None => 0,
        },
        AstExpressionBody::LVarAssign { rhs, .. } => 2 + esize(*rhs),
        AstExpressionBody::IVarAssign { rhs, .. } => 2 + esize(*rhs),
        AstExpressionBody::ConstAssign { rhs, .. } => 2 + esize(*rhs),
        AstExpressionBody::MethodCall { receiver_expr, arg_exprs, .. } => 2 + match receiver_expr {
            Some(b) => esize(*b),
            None => 0,
        } + eseq(arg_exprs@),
        AstExpressionBody::LambdaExpr { exprs, .. } => 2 + eseq(exprs@),
        AstExpressionBody::ArrayLiteral { exprs } => 2 + eseq(exprs@),
        _ => 1,
    }
}

/// The total size of a list of expressions.
pub open spec fn eseq(s: Seq<AstExpression>) -> nat
    decreases s,
{
    if s.len() == 0 {
        0
    } else {
        esize(s[0]) + eseq(s.drop_first())
    }
}

/// Each element weighs no more than the whole list.
pub proof fn lemma_eseq_elem(s: Seq<AstExpression>, i: int)
    requires
        0 <= i < s.len(),
    ensures
        esize(s[i]) <= eseq(s),
    decreases s,
{
    if i > 0 {
        lemma_eseq_elem(s.drop_first(), i - 1);
    }
}

/// The size of a definition; method and constant definitions count their
/// expressions so that lowering them stays below the enclosing class.
pub open spec fn dsize(d: Definition) -> nat
    decreases d,
{
    match d {
        Definition::ClassDefinition { defs, .. } => 3 + dseq(defs@),
        _ => 1,
    }
}

/// The total size of a list of definitions.
pub open spec fn dseq(s: Seq<Definition>) -> nat
    decreases s,
{
    if s.len() == 0 {
        0
    } else {
        dsize(s[0]) + dseq(s.drop_first())
    }
}

pub proof fn lemma_dseq_elem(s: Seq<Definition>, i: int)
    requires
        0 <= i < s.len(),
    ensures
        dsize(s[i]) <= dseq(s),
    decreases s,
{
    if i > 0 {
        lemma_dseq_elem(s.drop_first(), i - 1);
    }
}

} // verus!

verus! {

/// The size of a constant name, counting nested type arguments.
pub open spec fn cn_size(n: ConstName) -> nat
    decreases n,
{
    1 + cn_seq(n.args@)
}

pub open spec fn cn_seq(s: Seq<ConstName>) -> nat
    decreases s,
{
    if s.len() == 0 {
        0
    } else {
        cn_size(s[0]) + cn_seq(s.drop_first())
    }
}

pub proof fn lemma_cn_seq_elem(s: Seq<ConstName>, i: int)
    requires
        0 <= i < s.len(),
    ensures
        cn_size(s[i]) <= cn_seq(s),
    decreases s,
{
    if i > 0 {
        lemma_cn_seq_elem(s.drop_first(), i - 1);
    }
}

} // verus!
