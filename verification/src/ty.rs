//! Type terms.
//!
//! A `TermTy` is a nominal type: a plain class, a generic instantiation, a
//! metaclass (plain or specialized), or a reference to a type parameter of
//! the enclosing class or method.

use vstd::prelude::*;
use crate::names::join_with;
use crate::names::meta_name_seq;
use crate::names::meta_prefix;
use crate::strmap::DupView;

verus! {

#[derive(Clone, Copy, PartialEq, Eq, Structural)]
pub enum TyParamKind {
    /// Introduced by the enclosing class.
    Class,
    /// Introduced by the enclosing method.
    Method,
}

/// A formal type parameter of a class or method.
pub struct TyParam {
    pub name: String,
}

impl View for TyParam {
    type V = Seq<char>;

    open spec fn view(&self) -> Seq<char> {
        self.name@
    }
}

impl DupView for TyParam {
    fn dup(&self) -> (r: Self)
        ensures
            r@ == self@,
    {
        TyParam { name: self.name.clone() }
    }
}

pub enum TermTy {
    /// A plain class type, e.g. `Int`.
    Raw { base_name: String },
    /// A generic instantiation, e.g. `Array<Int>`.
    Spe { base_name: String, tyargs: Vec<TermTy> },
    /// The type of a plain class object, e.g. `Meta:Int`.
    Meta { base_name: String },
    /// The type of a specialized class object, e.g. `Meta:Array<Int>`.
    SpeMeta { base_name: String, tyargs: Vec<TermTy> },
    /// A reference to a type parameter.
    TyParamRef { name: String, kind: TyParamKind, idx: usize },
}

/// The mathematical shape of a `TermTy`.
pub enum TermTyV {
    Raw { base_name: Seq<char> },
    Spe { base_name: Seq<char>, tyargs: Seq<TermTyV> },
    Meta { base_name: Seq<char> },
    SpeMeta { base_name: Seq<char>, tyargs: Seq<TermTyV> },
    TyParamRef { name: Seq<char>, kind: TyParamKind, idx: nat },
}

pub open spec fn ty_view(t: TermTy) -> TermTyV
    decreases t,
{
    match t {
        TermTy::Raw { base_name } => TermTyV::Raw { base_name: base_name@ },
        TermTy::Spe { base_name, tyargs } => TermTyV::Spe {
            base_name: base_name@,
            tyargs: tys_view(tyargs@),
        },
        TermTy::Meta { base_name } => TermTyV::Meta { base_name: base_name@ },
        TermTy::SpeMeta { base_name, tyargs } => TermTyV::SpeMeta {
            base_name: base_name@,
            tyargs: tys_view(tyargs@),
        },
        TermTy::TyParamRef { name, kind, idx } => TermTyV::TyParamRef {
            name: name@,
            kind,
            idx: idx as nat,
        },
    }
}

pub open spec fn tys_view(s: Seq<TermTy>) -> Seq<TermTyV>
    decreases s,
{
    if s.len() == 0 {
        Seq::empty()
    } else {
        seq![ty_view(s[0])] + tys_view(s.drop_first())
    }
}

pub proof fn lemma_tys_view(s: Seq<TermTy>)
    ensures
        tys_view(s).len() == s.len(),
        forall|i: int| 0 <= i < s.len() ==> tys_view(s)[i] == ty_view(s[i]),
    decreases s,
{
    if s.len() > 0 {
        lemma_tys_view(s.drop_first());
    }
}

impl View for TermTy {
    type V = TermTyV;

    open spec fn view(&self) -> TermTyV {
        ty_view(*self)
    }
}

pub open spec fn raw_v(s: Seq<char>) -> TermTyV {
    TermTyV::Raw { base_name: s }
}

pub open spec fn meta_v(s: Seq<char>) -> TermTyV {
    TermTyV::Meta { base_name: s }
}

pub open spec fn spe_v(s: Seq<char>, tyargs: Seq<TermTyV>) -> TermTyV {
    TermTyV::Spe { base_name: s, tyargs }
}

pub open spec fn spe_meta_v(s: Seq<char>, tyargs: Seq<TermTyV>) -> TermTyV {
    TermTyV::SpeMeta { base_name: s, tyargs }
}

/// A plain class type.
pub fn raw(base_name: &str) -> (r: TermTy)
    ensures
        r@ == raw_v(base_name@),
{
    TermTy::Raw { base_name: String::from_str(base_name) }
}

/// A generic instantiation.
pub fn spe(base_name: &str, tyargs: Vec<TermTy>) -> (r: TermTy)
    ensures
        r@ == spe_v(base_name@, tys_view(tyargs@)),
{
    TermTy::Spe { base_name: String::from_str(base_name), tyargs }
}

/// The type of the class object of a plain class.
pub fn meta(base_name: &str) -> (r: TermTy)
    ensures
        r@ == meta_v(base_name@),
{
    TermTy::Meta { base_name: String::from_str(base_name) }
}

/// The type of the class object of a specialized class.
pub fn spe_meta(base_name: &str, tyargs: Vec<TermTy>) -> (r: TermTy)
    ensures
        r@ == spe_meta_v(base_name@, tys_view(tyargs@)),
{
    TermTy::SpeMeta { base_name: String::from_str(base_name), tyargs }
}

/// A reference to a type parameter.
pub fn typaram(name: &str, kind: TyParamKind, idx: usize) -> (r: TermTy)
    ensures
        r@ == (TermTyV::TyParamRef { name: name@, kind, idx: idx as nat }),
{
    TermTy::TyParamRef { name: String::from_str(name), kind, idx }
}

impl TermTy {
    pub fn is_specialized(&self) -> (r: bool)
        ensures
            r == (self@ is Spe || self@ is SpeMeta),
    {
        match self {
            TermTy::Spe { .. } => true,
            TermTy::SpeMeta { .. } => true,
            _ => false,
        }
    }

    pub fn is_metaclass(&self) -> (r: bool)
        ensures
            r == (self@ is Meta || self@ is SpeMeta),
    {
        match self {
            TermTy::Meta { .. } => true,
            TermTy::SpeMeta { .. } => true,
            _ => false,
        }
    }

    pub fn is_typaram_ref(&self) -> (r: bool)
        ensures
            r == (self@ is TyParamRef),
    {
        match self {
            TermTy::TyParamRef { .. } => true,
            _ => false,
        }
    }

    pub fn is_void_type(&self) -> (r: bool)
        ensures
            r == (self@ == raw_v("Void"@)),
    {
        match self {
            TermTy::Raw { base_name } => base_name.eq(&String::from_str("Void")),
            _ => false,
        }
    }

    pub fn is_never_type(&self) -> (r: bool)
        ensures
            r == (self@ == raw_v("Never"@)),
    {
        match self {
            TermTy::Raw { base_name } => base_name.eq(&String::from_str("Never")),
            _ => false,
        }
    }

    /// Structural equality of type terms.
    pub fn equals_to(&self, other: &TermTy) -> (r: bool)
        ensures
            r == (self@ == other@),
        decreases *self,
    {
        match (self, other) {
            (TermTy::Raw { base_name: a }, TermTy::Raw { base_name: b }) => a.eq(b),
            (
                TermTy::Spe { base_name: a, tyargs: x },
                TermTy::Spe { base_name: b, tyargs: y },
            ) => a.eq(b) && tys_equal(x, y),
            (TermTy::Meta { base_name: a }, TermTy::Meta { base_name: b }) => a.eq(b),
            (
                TermTy::SpeMeta { base_name: a, tyargs: x },
                TermTy::SpeMeta { base_name: b, tyargs: y },
            ) => a.eq(b) && tys_equal(x, y),
            (
                TermTy::TyParamRef { name: a, kind: k1, idx: i1 },
                TermTy::TyParamRef { name: b, kind: k2, idx: i2 },
            ) => a.eq(b) && k1 == k2 && i1 == i2,
            _ => false,
        }
    }

    /// The type of instances of the class that this metaclass describes;
    /// a non-metaclass type is its own instance type.
    pub fn instance_ty(&self) -> (r: TermTy)
        ensures
            r@ == instance_ty_v(self@),
    {
        match self {
            TermTy::Meta { base_name } => TermTy::Raw { base_name: base_name.clone() },
            TermTy::SpeMeta { base_name, tyargs } => TermTy::Spe {
                base_name: base_name.clone(),
                tyargs: dup_tys(tyargs),
            },
            _ => self.dup(),
        }
    }

    /// The type of this type's class object; a metaclass or a type-parameter
    /// reference is left unchanged.
    pub fn meta_ty(&self) -> (r: TermTy)
        ensures
            r@ == meta_ty_v(self@),
    {
        match self {
            TermTy::Raw { base_name } => TermTy::Meta { base_name: base_name.clone() },
            TermTy::Spe { base_name, tyargs } => TermTy::SpeMeta {
                base_name: base_name.clone(),
                tyargs: dup_tys(tyargs),
            },
            _ => self.dup(),
        }
    }

    /// If this is some `FnN<arg tys..., ret ty>`, its return type.
    pub fn fn_x_info(&self) -> (r: Option<TermTy>)
        ensures
            match r {
                Some(t) => fn_x_info_v(self@) == Some(t@),
                None => fn_x_info_v(self@) is None,
            },
    {
        match self {
            TermTy::Spe { base_name, tyargs } => {
                proof {
                    lemma_tys_view(tyargs@);
                }
                if 1 <= tyargs.len() && base_name.eq(&fn_x_string(tyargs.len() - 1)) {
                    Some(tyargs[tyargs.len() - 1].dup())
                } else {
                    None
                }
            },
            _ => None,
        }
    }

    /// This type with type-parameter references replaced by the given
    /// class-level and method-level type arguments.
    pub fn substitute(&self, class_tyargs: &Vec<TermTy>, method_tyargs: &Vec<TermTy>) -> (r:
        TermTy)
        ensures
            r@ == substitute_v(self@, tys_view(class_tyargs@), tys_view(method_tyargs@)),
        decreases *self,
    {
        match self {
            TermTy::TyParamRef { kind, idx, .. } => {
                let args = if *kind == TyParamKind::Class {
                    class_tyargs
                } else {
                    method_tyargs
                };
                proof {
                    lemma_tys_view(args@);
                }
                if *idx < args.len() {
                    args[*idx].dup()
                } else {
                    self.dup()
                }
            },
            TermTy::Spe { base_name, tyargs } => TermTy::Spe {
                base_name: base_name.clone(),
                tyargs: substitute_tys(tyargs, class_tyargs, method_tyargs),
            },
            TermTy::SpeMeta { base_name, tyargs } => TermTy::SpeMeta {
                base_name: base_name.clone(),
                tyargs: substitute_tys(tyargs, class_tyargs, method_tyargs),
            },
            _ => self.dup(),
        }
    }

    /// The printable full name, e.g. `Meta:Pair<Int,Bool>`.
    pub fn fullname(&self) -> (r: String)
        ensures
            r@ == fullname_v(self@),
        decreases *self,
    {
        match self {
            TermTy::Raw { base_name } => base_name.clone(),
            TermTy::Meta { base_name } => {
                let mut s = String::from_str("Meta:");
                s.append(base_name.as_str());
                s
            },
            TermTy::Spe { base_name, tyargs } => {
                let mut s = base_name.clone();
                append_tyargs(&mut s, tyargs);
                s
            },
            TermTy::SpeMeta { base_name, tyargs } => {
                let mut s = String::from_str("Meta:");
                s.append(base_name.as_str());
                append_tyargs(&mut s, tyargs);
                s
            },
            TermTy::TyParamRef { name, .. } => name.clone(),
        }
    }
}

/// Element-wise equality of two type-argument lists.
fn tys_equal(x: &Vec<TermTy>, y: &Vec<TermTy>) -> (r: bool)
    ensures
        r == (tys_view(x@) == tys_view(y@)),
    decreases x@,
{
    proof {
        lemma_tys_view(x@);
        lemma_tys_view(y@);
    }
    if x.len() != y.len() {
        return false;
    }
    let n = x.len();
    for i in 0..n
        invariant
            n == x@.len() == y@.len(),
            forall|j: int| 0 <= j < i ==> tys_view(x@)[j] == tys_view(y@)[j],
            tys_view(x@).len() == n,
            tys_view(y@).len() == n,
            forall|j: int| 0 <= j < n ==> tys_view(x@)[j] == ty_view(x@[j]),
            forall|j: int| 0 <= j < n ==> tys_view(y@)[j] == ty_view(y@[j]),
    {
        if !x[i].equals_to(&y[i]) {
            proof {
                assert(tys_view(x@)[i as int] != tys_view(y@)[i as int]);
            }
            return false;
        }
    }
    proof {
        assert(tys_view(x@) =~= tys_view(y@));
    }
    true
}

/// A deep copy of a type-argument list.
pub fn dup_tys(v: &Vec<TermTy>) -> (r: Vec<TermTy>)
    ensures
        tys_view(r@) == tys_view(v@),
    decreases v@,
{
    proof {
        lemma_tys_view(v@);
    }
    let mut r: Vec<TermTy> = Vec::new();
    let n = v.len();
    for i in 0..n
        invariant
            n == v@.len(),
            r@.len() == i,
            forall|j: int| 0 <= j < i ==> ty_view(r@[j]) == ty_view(v@[j]),
            forall|j: int| 0 <= j < n ==> tys_view(v@)[j] == ty_view(v@[j]),
            tys_view(v@).len() == n,
    {
        r.push(v[i].dup());
    }
    proof {
        lemma_tys_view(r@);
        assert(tys_view(r@) =~= tys_view(v@));
    }
    r
}

/// Substitution mapped over a type-argument list.
fn substitute_tys(v: &Vec<TermTy>, class_tyargs: &Vec<TermTy>, method_tyargs: &Vec<TermTy>) -> (r:
    Vec<TermTy>)
    ensures
        tys_view(r@) == substitutes_v(
            tys_view(v@),
            tys_view(class_tyargs@),
            tys_view(method_tyargs@),
        ),
    decreases v@,
{
    proof {
        lemma_tys_view(v@);
        lemma_substitutes_v(tys_view(v@), tys_view(class_tyargs@), tys_view(method_tyargs@));
    }
    let mut r: Vec<TermTy> = Vec::new();
    let n = v.len();
    let ghost cls = tys_view(class_tyargs@);
    let ghost mth = tys_view(method_tyargs@);
    for i in 0..n
        invariant
            n == v@.len(),
            cls == tys_view(class_tyargs@),
            mth == tys_view(method_tyargs@),
            r@.len() == i,
            forall|j: int| 0 <= j < i ==> ty_view(r@[j]) == substitute_v(ty_view(v@[j]), cls, mth),
            forall|j: int| 0 <= j < n ==> tys_view(v@)[j] == ty_view(v@[j]),
            tys_view(v@).len() == n,
            substitutes_v(tys_view(v@), cls, mth).len() == n,
            forall|j: int| 0 <= j < n ==> substitutes_v(tys_view(v@), cls, mth)[j]
                == substitute_v(tys_view(v@)[j], cls, mth),
    {
        r.push(v[i].substitute(class_tyargs, method_tyargs));
    }
    proof {
        lemma_tys_view(r@);
        assert(tys_view(r@) =~= substitutes_v(tys_view(v@), cls, mth));
    }
    r
}

impl DupView for TermTy {
    fn dup(&self) -> (r: Self)
        ensures
            r@ == self@,
        decreases *self,
    {
        match self {
            TermTy::Raw { base_name } => TermTy::Raw { base_name: base_name.clone() },
            TermTy::Spe { base_name, tyargs } => TermTy::Spe {
                base_name: base_name.clone(),
                tyargs: dup_tys(tyargs),
            },
            TermTy::Meta { base_name } => TermTy::Meta { base_name: base_name.clone() },
            TermTy::SpeMeta { base_name, tyargs } => TermTy::SpeMeta {
                base_name: base_name.clone(),
                tyargs: dup_tys(tyargs),
            },
            TermTy::TyParamRef { name, kind, idx } => TermTy::TyParamRef {
                name: name.clone(),
                kind: *kind,
                idx: *idx,
            },
        }
    }
}

/// `instance_ty` at the level of views.
pub open spec fn instance_ty_v(t: TermTyV) -> TermTyV {
    match t {
        TermTyV::Meta { base_name } => TermTyV::Raw { base_name },
        TermTyV::SpeMeta { base_name, tyargs } => TermTyV::Spe { base_name, tyargs },
        _ => t,
    }
}

/// `meta_ty` at the level of views.
pub open spec fn meta_ty_v(t: TermTyV) -> TermTyV {
    match t {
        TermTyV::Raw { base_name } => TermTyV::Meta { base_name },
        TermTyV::Spe { base_name, tyargs } => TermTyV::SpeMeta { base_name, tyargs },
        _ => t,
    }
}

/// The name `FnN` of the lambda class with `n` parameters.
pub open spec fn fn_x_name(n: nat) -> Seq<char> {
    "Fn"@ + crate::names::sp_decimal(n)
}

/// `fn_x_info` at the level of views: the return type of a `FnN` type.
pub open spec fn fn_x_info_v(t: TermTyV) -> Option<TermTyV> {
    match t {
        TermTyV::Spe { base_name, tyargs } => {
            if tyargs.len() >= 1 && base_name == fn_x_name((tyargs.len() - 1) as nat) {
                Some(tyargs.last())
            } else {
                None
            }
        },
        _ => None,
    }
}

/// The name `FnN` of the lambda class with `n` parameters.
pub fn fn_x_string(n: usize) -> (r: String)
    ensures
        r@ == fn_x_name(n as nat),
{
    let mut s = String::from_str("Fn");
    let num = crate::names::usize_to_string(n);
    s.append(num.as_str());
    s
}

/// `substitute` at the level of views.
pub open spec fn substitute_v(t: TermTyV, cls: Seq<TermTyV>, mth: Seq<TermTyV>) -> TermTyV
    decreases t,
{
    match t {
        TermTyV::TyParamRef { name, kind, idx } => {
            let args = if kind == TyParamKind::Class {
                cls
            } else {
                mth
            };
            if idx < args.len() {
                args[idx as int]
            } else {
                t
            }
        },
        TermTyV::Spe { base_name, tyargs } => TermTyV::Spe {
            base_name,
            tyargs: substitutes_v(tyargs, cls, mth),
        },
        TermTyV::SpeMeta { base_name, tyargs } => TermTyV::SpeMeta {
            base_name,
            tyargs: substitutes_v(tyargs, cls, mth),
        },
        _ => t,
    }
}

pub open spec fn substitutes_v(s: Seq<TermTyV>, cls: Seq<TermTyV>, mth: Seq<TermTyV>) -> Seq<
    TermTyV,
>
    decreases s,
{
    if s.len() == 0 {
        Seq::empty()
    } else {
        seq![substitute_v(s[0], cls, mth)] + substitutes_v(s.drop_first(), cls, mth)
    }
}

pub proof fn lemma_substitutes_v(s: Seq<TermTyV>, cls: Seq<TermTyV>, mth: Seq<TermTyV>)
    ensures
        substitutes_v(s, cls, mth).len() == s.len(),
        forall|i: int| 0 <= i < s.len() ==> substitutes_v(s, cls, mth)[i] == substitute_v(
            s[i],
            cls,
            mth,
        ),
    decreases s,
{
    if s.len() > 0 {
        lemma_substitutes_v(s.drop_first(), cls, mth);
    }
}

/// The printable full name of a type, at the level of views.
pub open spec fn fullname_v(t: TermTyV) -> Seq<char>
    decreases t,
{
    match t {
        TermTyV::Raw { base_name } => base_name,
        TermTyV::Meta { base_name } => meta_name_seq(base_name),
        TermTyV::Spe { base_name, tyargs } => base_name + "<"@ + join_with(
            fullnames_v(tyargs),
            ","@,
        ) + ">"@,
        TermTyV::SpeMeta { base_name, tyargs } => meta_prefix() + base_name + "<"@ + join_with(
            fullnames_v(tyargs),
            ","@,
        ) + ">"@,
        TermTyV::TyParamRef { name, .. } => name,
    }
}

pub open spec fn fullnames_v(s: Seq<TermTyV>) -> Seq<Seq<char>>
    decreases s,
{
    if s.len() == 0 {
        Seq::empty()
    } else {
        seq![fullname_v(s[0])] + fullnames_v(s.drop_first())
    }
}

pub proof fn lemma_fullnames_v(s: Seq<TermTyV>)
    ensures
        fullnames_v(s).len() == s.len(),
        forall|i: int| 0 <= i < s.len() ==> fullnames_v(s)[i] == fullname_v(s[i]),
    decreases s,
{
    if s.len() > 0 {
        lemma_fullnames_v(s.drop_first());
    }
}

/// Append `<arg,...,arg>` to `s`.
fn append_tyargs(s: &mut String, tyargs: &Vec<TermTy>)
    ensures
        final(s)@ == old(s)@ + "<"@ + join_with(fullnames_v(tys_view(tyargs@)), ","@) + ">"@,
    decreases tyargs@,
{
    proof {
        lemma_tys_view(tyargs@);
        lemma_fullnames_v(tys_view(tyargs@));
    }
    let ghost views = fullnames_v(tys_view(tyargs@));
    s.append("<");
    let n = tyargs.len();
    for i in 0..n
        invariant
            n == tyargs@.len(),
            views == fullnames_v(tys_view(tyargs@)),
            views.len() == n,
            forall|j: int| 0 <= j < n ==> views[j] == fullname_v(ty_view(tyargs@[j])),
            s@ == old(s)@ + "<"@ + join_with(views.take(i as int), ","@),
    {
        if i > 0 {
            s.append(",");
        }
        let part = tyargs[i].fullname();
        s.append(part.as_str());
        proof {
            lemma_tys_view(tyargs@);
            assert(views.take(i + 1).drop_last() =~= views.take(i as int));
            if i == 0 {
                assert(views.take(1)[0] == views[0]);
            }
        }
    }
    s.append(">");
    proof {
        assert(views.take(n as int) =~= views);
    }
}

/// The instance type that `.new` of class `fullname` returns: the class
/// itself, specialized by its own type parameters if it has any.
pub fn return_type_of_new(fullname: &crate::names::ClassFullname, typarams: &Vec<String>) -> (r:
    TermTy)
    ensures
        r@ == return_type_of_new_v(fullname@, crate::names::seq_views(typarams@)),
{
    if typarams.len() == 0 {
        raw(fullname.0.as_str())
    } else {
        let mut args: Vec<TermTy> = Vec::new();
        let n = typarams.len();
        for i in 0..n
            invariant
                n == typarams@.len(),
                args@.len() == i,
                forall|j: int| 0 <= j < i ==> ty_view(args@[j]) == (TermTyV::TyParamRef {
                    name: typarams@[j]@,
                    kind: TyParamKind::Class,
                    idx: j as nat,
                }),
        {
            args.push(typaram(typarams[i].as_str(), TyParamKind::Class, i));
        }
        proof {
            lemma_tys_view(args@);
            assert(tys_view(args@) =~= typaram_refs_v(crate::names::seq_views(typarams@)));
        }
        spe(fullname.0.as_str(), args)
    }
}

/// One class-level type-parameter reference per name, in declaration order.
pub open spec fn typaram_refs_v(names: Seq<Seq<char>>) -> Seq<TermTyV> {
    Seq::new(
        names.len(),
        |i: int| TermTyV::TyParamRef { name: names[i], kind: TyParamKind::Class, idx: i as nat },
    )
}

/// `return_type_of_new` at the level of views.
pub open spec fn return_type_of_new_v(fullname: Seq<char>, typarams: Seq<Seq<char>>) -> TermTyV {
    if typarams.len() == 0 {
        raw_v(fullname)
    } else {
        spe_v(fullname, typaram_refs_v(typarams))
    }
}

} // verus!
