//! Subtyping and the type checks used while lowering.
//!
//! A type's ancestors are found by walking its superclass slots through the
//! dictionary, substituting type arguments down the chain.  The walk carries
//! fuel so that it ends even on a malformed dictionary; one step per
//! dictionary entry is always enough for a well-formed one.

use vstd::prelude::*;
use crate::class_dict::ClassDict;
use crate::class_dict::DictV;
use crate::class_dict::base_name_of;
use crate::error::Error;
use crate::error::msg3;
use crate::error::type_error;
use crate::sk::MethodSignatureV;
use crate::strmap::DupView;
use crate::strmap::spec_get;
use crate::ty;
use crate::ty::TermTy;
use crate::ty::TermTyV;
use crate::ty::lemma_tys_view;
use crate::ty::raw_v;
use crate::ty::substitute_v;
use crate::ty::tys_view;

verus! {

/// One step up: the superclass of `t`, with `t`'s type arguments
/// substituted in when `t` is specialized.
pub open spec fn sp_super_of(d: DictV, t: TermTyV) -> Option<TermTyV> {
    match spec_get(d, base_name_of(t)) {
        None => None,
        Some(c) => match c.superclass {
            None => None,
            Some(s) => match t {
                TermTyV::Spe { tyargs, .. } => Some(substitute_v(s, tyargs, Seq::empty())),
                _ => Some(s),
            },
        },
    }
}

/// The ancestor chain of `t`: `t` itself, then its superclasses upward,
/// for at most `fuel` steps.
pub open spec fn sp_ancestor_chain(d: DictV, t: TermTyV, fuel: nat) -> Seq<TermTyV>
    decreases fuel,
{
    if fuel == 0 {
        seq![t]
    } else {
        match sp_super_of(d, t) {
            None => seq![t],
            Some(s) => seq![t] + sp_ancestor_chain(d, s, (fuel - 1) as nat),
        }
    }
}

/// The ancestor chain of `t`, with enough fuel for any chain without
/// repeated classes.
pub open spec fn sp_ancestors(d: DictV, t: TermTyV) -> Seq<TermTyV> {
    sp_ancestor_chain(d, t, d.len())
}

pub proof fn lemma_chain_head(d: DictV, t: TermTyV, fuel: nat)
    ensures
        sp_ancestor_chain(d, t, fuel).len() >= 1,
        sp_ancestor_chain(d, t, fuel)[0] == t,
{
}

/// `anc` covers `x` when they are equal, or they share base and arity and
/// `anc` loosens some positions to `Object`.
pub open spec fn sp_covers(anc: TermTyV, x: TermTyV) -> bool {
    anc == x || match (anc, x) {
        (
            TermTyV::Spe { base_name: b1, tyargs: a1 },
            TermTyV::Spe { base_name: b2, tyargs: a2 },
        ) => b1 == b2 && a1.len() == a2.len() && (forall|i: int|
            0 <= i < a1.len() ==> a1[i] == a2[i] || a1[i] == raw_v("Object"@)),
        _ => false,
    }
}

/// `anc` is an ancestor type of `t`: it covers some element of `t`'s chain.
pub open spec fn sp_is_ancestor(d: DictV, anc: TermTyV, t: TermTyV) -> bool {
    exists|j: int|
        0 <= j < sp_ancestors(d, t).len() && sp_covers(anc, #[trigger] sp_ancestors(d, t)[j])
}

/// `sub` conforms to `sup`: they are equal, `sub` is `Never`, or `sup` sits
/// on `sub`'s ancestor chain.
pub open spec fn sp_conforms(d: DictV, sub: TermTyV, sup: TermTyV) -> bool {
    sub == sup || sub == raw_v("Never"@) || sp_chain_has(sp_ancestors(d, sub), sup)
}

pub open spec fn sp_chain_has(chain: Seq<TermTyV>, t: TermTyV) -> bool {
    exists|j: int| 0 <= j < chain.len() && chain[j] == t
}

/// The number of equal trailing elements of two chains.
pub open spec fn sp_common_suffix_len(c1: Seq<TermTyV>, c2: Seq<TermTyV>) -> nat
    decreases c1.len(),
{
    if c1.len() == 0 || c2.len() == 0 || c1.last() != c2.last() {
        0
    } else {
        1 + sp_common_suffix_len(c1.drop_last(), c2.drop_last())
    }
}

pub proof fn lemma_common_suffix(c1: Seq<TermTyV>, c2: Seq<TermTyV>)
    ensures
        sp_common_suffix_len(c1, c2) <= c1.len(),
        sp_common_suffix_len(c1, c2) <= c2.len(),
        sp_common_suffix_len(c1, c2) == sp_common_suffix_len(c2, c1),
        forall|j: int|
            0 <= j < sp_common_suffix_len(c1, c2) ==> #[trigger] c1[c1.len() - 1 - j] == c2[c2.len()
                - 1 - j],
    decreases c1.len(),
{
    if c1.len() > 0 && c2.len() > 0 && c1.last() == c2.last() {
        lemma_common_suffix(c1.drop_last(), c2.drop_last());
        let m = sp_common_suffix_len(c1, c2);
        assert forall|j: int| 0 <= j < m implies #[trigger] c1[c1.len() - 1 - j] == c2[c2.len() - 1
            - j] by {
            if j > 0 {
                assert(c1.drop_last()[c1.len() - 2 - (j - 1)] == c2.drop_last()[c2.len() - 2 - (j
                    - 1)]);
            }
        }
    }
}

/// Whether two diverging chain elements can be merged into one type.
pub open spec fn sp_unifiable(x: TermTyV, y: TermTyV) -> bool {
    match (x, y) {
        (
            TermTyV::Spe { base_name: b1, tyargs: a1 },
            TermTyV::Spe { base_name: b2, tyargs: a2 },
        ) => b1 == b2 && a1.len() == a2.len(),
        _ => false,
    }
}

/// The merge of two diverging chain elements with the same base: positions
/// where they disagree become `Object`.
pub open spec fn sp_unify(x: TermTyV, y: TermTyV) -> TermTyV {
    match (x, y) {
        (
            TermTyV::Spe { base_name: b1, tyargs: a1 },
            TermTyV::Spe { base_name: b2, tyargs: a2 },
        ) => TermTyV::Spe {
            base_name: b1,
            tyargs: Seq::new(
                a1.len(),
                |i: int|
                    if a1[i] == a2[i] {
                        a1[i]
                    } else {
                        raw_v("Object"@)
                    },
            ),
        },
        _ => x,
    }
}

/// `nearest_common_ancestor` at the level of views: the deepest point where
/// the two ancestor chains agree, or the merge of the first diverging pair
/// when both sides carry the same generic base.
pub open spec fn sp_nca(d: DictV, t1: TermTyV, t2: TermTyV) -> Option<TermTyV> {
    let c1 = sp_ancestors(d, t1);
    let c2 = sp_ancestors(d, t2);
    let m = sp_common_suffix_len(c1, c2);
    if m < c1.len() && m < c2.len() && sp_unifiable(
        c1[c1.len() - 1 - m],
        c2[c2.len() - 1 - m],
    ) {
        Some(sp_unify(c1[c1.len() - 1 - m], c2[c2.len() - 1 - m]))
    } else if m > 0 {
        Some(c1[c1.len() - m])
    } else {
        None
    }
}

/// The nearest common ancestor of a type and itself is that type.
pub proof fn lemma_nca_self(d: DictV, t: TermTyV)
    ensures
        sp_nca(d, t, t) == Some(t),
{
    let c = sp_ancestors(d, t);
    lemma_chain_head(d, t, d.len());
    lemma_suffix_self(c);
    lemma_common_suffix(c, c);
}

proof fn lemma_suffix_self(c: Seq<TermTyV>)
    ensures
        sp_common_suffix_len(c, c) == c.len(),
    decreases c.len(),
{
    if c.len() > 0 {
        lemma_suffix_self(c.drop_last());
    }
}

/// The nearest common ancestor is symmetric.
pub proof fn lemma_nca_sym(d: DictV, t1: TermTyV, t2: TermTyV)
    ensures
        sp_nca(d, t1, t2) == sp_nca(d, t2, t1),
{
    let c1 = sp_ancestors(d, t1);
    let c2 = sp_ancestors(d, t2);
    lemma_common_suffix(c1, c2);
    lemma_common_suffix(c2, c1);
    let m = sp_common_suffix_len(c1, c2);
    if m < c1.len() && m < c2.len() && sp_unifiable(c1[c1.len() - 1 - m], c2[c2.len() - 1 - m]) {
        let x = c1[c1.len() - 1 - m];
        let y = c2[c2.len() - 1 - m];
        assert(sp_unifiable(y, x));
        assert(sp_unify(x, y) == sp_unify(y, x)) by {
            match (x, y) {
                (
                    TermTyV::Spe { base_name: b1, tyargs: a1 },
                    TermTyV::Spe { base_name: b2, tyargs: a2 },
                ) => {
                    assert(sp_unify(x, y)->Spe_tyargs =~= sp_unify(y, x)->Spe_tyargs);
                },
                _ => {},
            }
        }
    } else if m > 0 {
        assert(c1[c1.len() - 1 - (m - 1)] == c2[c2.len() - 1 - (m - 1)]);
    }
}

/// The nearest common ancestor is an ancestor of both inputs.
pub proof fn lemma_nca_is_ancestor(d: DictV, t1: TermTyV, t2: TermTyV, r: TermTyV)
    requires
        sp_nca(d, t1, t2) == Some(r),
    ensures
        sp_is_ancestor(d, r, t1),
        sp_is_ancestor(d, r, t2),
{
    let c1 = sp_ancestors(d, t1);
    let c2 = sp_ancestors(d, t2);
    lemma_common_suffix(c1, c2);
    let m = sp_common_suffix_len(c1, c2);
    if m < c1.len() && m < c2.len() && sp_unifiable(c1[c1.len() - 1 - m], c2[c2.len() - 1 - m]) {
        let x = c1[c1.len() - 1 - m];
        let y = c2[c2.len() - 1 - m];
        assert(sp_covers(r, x));
        assert(sp_covers(r, y));
        assert(0 <= c1.len() - 1 - m < c1.len());
        assert(0 <= c2.len() - 1 - m < c2.len());
    } else {
        assert(m > 0);
        let j1 = c1.len() - m;
        let j2 = c2.len() - m;
        assert(c1[c1.len() - 1 - (m - 1)] == c2[c2.len() - 1 - (m - 1)]);
        assert(sp_covers(r, c1[j1]));
        assert(sp_covers(r, c2[j2]));
    }
}

impl ClassDict {
    /// The superclass of `t`, one step up the chain.
    fn super_of(&self, t: &TermTy) -> (r: Option<TermTy>)
        ensures
            match r {
                Some(s) => sp_super_of(self.sk_classes@, t@) == Some(s@),
                None => sp_super_of(self.sk_classes@, t@) is None,
            },
    {
        let base = self.base_name_of_exec(t);
        match self.sk_classes.get(&base) {
            None => None,
            Some(c) => match &c.superclass {
                None => None,
                Some(s) => match t {
                    TermTy::Spe { tyargs, .. } => {
                        let no_method_args: Vec<TermTy> = Vec::new();
                        proof {
                            assert(tys_view(no_method_args@) =~= Seq::<TermTyV>::empty());
                        }
                        Some(s.ty().substitute(tyargs, &no_method_args))
                    },
                    _ => Some(s.ty().dup()),
                },
            },
        }
    }

    /// The base class name of a type term, as a string.
    pub fn base_name_of_exec(&self, t: &TermTy) -> (r: String)
        ensures
            r@ == base_name_of(t@),
    {
        match t {
            TermTy::Raw { base_name } => base_name.clone(),
            TermTy::Spe { base_name, .. } => base_name.clone(),
            TermTy::Meta { base_name } => {
                let mut s = String::from_str("Meta:");
                s.append(base_name.as_str());
                s
            },
            TermTy::SpeMeta { base_name, .. } => {
                let mut s = String::from_str("Meta:");
                s.append(base_name.as_str());
                s
            },
            TermTy::TyParamRef { name, .. } => name.clone(),
        }
    }

    /// The ancestor chain of `t`, starting with `t` itself.
    pub fn ancestors(&self, t: &TermTy) -> (r: Vec<TermTy>)
        ensures
            tys_view(r@) == sp_ancestors(self.sk_classes@, t@),
    {
        let fuel = self.sk_classes.len();
        self.ancestor_chain(t, fuel)
    }

    fn ancestor_chain(&self, t: &TermTy, fuel: usize) -> (r: Vec<TermTy>)
        ensures
            tys_view(r@) == sp_ancestor_chain(self.sk_classes@, t@, fuel as nat),
        decreases fuel,
    {
        let first = t.dup();
        if fuel == 0 {
            let r = vec![first];
            proof {
                lemma_tys_view(r@);
                assert(tys_view(r@) =~= seq![t@]);
            }
            return r;
        }
        match self.super_of(t) {
            None => {
                let r = vec![first];
                proof {
                    lemma_tys_view(r@);
                    assert(tys_view(r@) =~= seq![t@]);
                }
                r
            },
            Some(s) => {
                let rest = self.ancestor_chain(&s, fuel - 1);
                let mut r = vec![first];
                let mut rest2 = rest;
                let ghost restv = tys_view(rest2@);
                let ghost n = restv.len();
                proof {
                    lemma_tys_view(rest2@);
                    lemma_tys_view(r@);
                    assert(tys_view(r@) =~= seq![t@]);
                }
                let k = rest2.len();
                for i in 0..k
                    invariant
                        k == rest2@.len(),
                        n == restv.len() == k,
                        restv == tys_view(rest2@),
                        forall|j: int| 0 <= j < k ==> restv[j] == rest2@[j]@,
                        r@.len() == i + 1,
                        r@[0]@ == t@,
                        forall|j: int| 1 <= j < i + 1 ==> r@[j]@ == restv[j - 1],
                {
                    r.push(rest2[i].dup());
                }
                proof {
                    lemma_tys_view(r@);
                    assert(tys_view(r@) =~= seq![t@] + restv);
                }
                r
            },
        }
    }

    /// Whether `sub` conforms to `sup` (equal, `Never`, or `sup` is on
    /// `sub`'s ancestor chain).
    pub fn conforms_to(&self, sub: &TermTy, sup: &TermTy) -> (r: bool)
        ensures
            r == sp_conforms(self.sk_classes@, sub@, sup@),
    {
        if sub.equals_to(sup) {
            return true;
        }
        if sub.is_never_type() {
            return true;
        }
        let chain = self.ancestors(sub);
        let n = chain.len();
        let ghost cv = sp_ancestors(self.sk_classes@, sub@);
        proof {
            lemma_tys_view(chain@);
        }
        for i in 0..n
            invariant
                n == chain@.len(),
                cv == sp_ancestors(self.sk_classes@, sub@),
                cv == tys_view(chain@),
                cv.len() == n,
                forall|j: int| 0 <= j < n ==> cv[j] == chain@[j]@,
                forall|j: int| 0 <= j < i ==> cv[j] != sup@,
        {
            if chain[i].equals_to(sup) {
                proof {
                    assert(cv[i as int] == sup@);
                }
                return true;
            }
        }
        false
    }

    /// The nearest common ancestor of two types, when they have one.
    pub fn nearest_common_ancestor(&self, t1: &TermTy, t2: &TermTy) -> (r: Option<TermTy>)
        ensures
            match r {
                Some(t) => sp_nca(self.sk_classes@, t1@, t2@) == Some(t@),
                None => sp_nca(self.sk_classes@, t1@, t2@) is None,
            },
    {
        let c1 = self.ancestors(t1);
        let c2 = self.ancestors(t2);
        let n1 = c1.len();
        let n2 = c2.len();
        let ghost cv1 = sp_ancestors(self.sk_classes@, t1@);
        let ghost cv2 = sp_ancestors(self.sk_classes@, t2@);
        proof {
            lemma_tys_view(c1@);
            lemma_tys_view(c2@);
            lemma_common_suffix(cv1, cv2);
        }
        let mut m: usize = 0;
        while m < n1 && m < n2 && c1[n1 - 1 - m].equals_to(&c2[n2 - 1 - m])
            invariant
                n1 == c1@.len(),
                n2 == c2@.len(),
                cv1 == sp_ancestors(self.sk_classes@, t1@),
                cv2 == sp_ancestors(self.sk_classes@, t2@),
                cv1 == tys_view(c1@),
                cv2 == tys_view(c2@),
                cv1.len() == n1,
                cv2.len() == n2,
                forall|j: int| 0 <= j < n1 ==> cv1[j] == c1@[j]@,
                forall|j: int| 0 <= j < n2 ==> cv2[j] == c2@[j]@,
                m <= n1 && m <= n2,
                forall|j: int| 0 <= j < m ==> #[trigger] cv1[n1 - 1 - j] == cv2[n2 - 1 - j],
                m <= sp_common_suffix_len(cv1, cv2),
            decreases n1 - m,
        {
            proof {
                assert(cv1[n1 - 1 - m as int] == cv2[n2 - 1 - m as int]);
                assert forall|j: int| 0 <= j <= m implies #[trigger] cv1[n1 - 1 - j] == cv2[n2 - 1
                    - j] by {}
                lemma_suffix_step(cv1, cv2, m as nat);
            }
            m = m + 1;
        }
        proof {
            lemma_suffix_exact(cv1, cv2, m as nat);
        }
        if m < n1 && m < n2 && unifiable(&c1[n1 - 1 - m], &c2[n2 - 1 - m]) {
            let x = &c1[n1 - 1 - m];
            let y = &c2[n2 - 1 - m];
            let ghost xv = cv1[n1 - 1 - m as int];
            let ghost yv = cv2[n2 - 1 - m as int];
            match (x, y) {
                (
                    TermTy::Spe { base_name: b1, tyargs: a1 },
                    TermTy::Spe { base_name: b2, tyargs: a2 },
                ) => {
                    let k = a1.len();
                    let mut merged: Vec<TermTy> = Vec::new();
                    let ghost av1 = tys_view(a1@);
                    let ghost av2 = tys_view(a2@);
                    proof {
                        lemma_tys_view(a1@);
                        lemma_tys_view(a2@);
                        assert(xv == (TermTyV::Spe { base_name: b1@, tyargs: av1 }));
                        assert(yv == (TermTyV::Spe { base_name: b2@, tyargs: av2 }));
                    }
                    for i in 0..k
                        invariant
                            k == a1@.len(),
                            k == a2@.len(),
                            av1 == tys_view(a1@),
                            av2 == tys_view(a2@),
                            av1.len() == k,
                            av2.len() == k,
                            forall|j: int| 0 <= j < k ==> av1[j] == a1@[j]@,
                            forall|j: int| 0 <= j < k ==> av2[j] == a2@[j]@,
                            merged@.len() == i,
                            forall|j: int| 0 <= j < i ==> merged@[j]@ == if av1[j] == av2[j] {
                                av1[j]
                            } else {
                                raw_v("Object"@)
                            },
                    {
                        if a1[i].equals_to(&a2[i]) {
                            merged.push(a1[i].dup());
                        } else {
                            merged.push(ty::raw("Object"));
                        }
                    }
                    let ghost mv = tys_view(merged@);
                    proof {
                        lemma_tys_view(merged@);
                        assert(mv =~= sp_unify(xv, yv)->Spe_tyargs);
                    }
                    let r = ty::spe(b1.as_str(), merged);
                    proof {
                        assert(r@ == sp_unify(xv, yv));
                    }
                    Some(r)
                },
                _ => {
                    proof {
                        assert(false);
                    }
                    None
                },
            }
        } else if m > 0 {
            Some(c1[n1 - m].dup())
        } else {
            None
        }
    }
}

/// Whether two types merge per `sp_unifiable`.
fn unifiable(x: &TermTy, y: &TermTy) -> (r: bool)
    ensures
        r == sp_unifiable(x@, y@),
{
    match (x, y) {
        (TermTy::Spe { base_name: b1, tyargs: a1 }, TermTy::Spe { base_name: b2, tyargs: a2 }) => {
            proof {
                lemma_tys_view(a1@);
                lemma_tys_view(a2@);
            }
            b1.eq(b2) && a1.len() == a2.len()
        },
        _ => false,
    }
}

/// If positions `0..m` from the end agree and so does position `m`, the
/// common suffix is longer than `m`.
proof fn lemma_suffix_step(c1: Seq<TermTyV>, c2: Seq<TermTyV>, m: nat)
    requires
        m < c1.len(),
        m < c2.len(),
        forall|j: int| 0 <= j <= m ==> #[trigger] c1[c1.len() - 1 - j] == c2[c2.len() - 1 - j],
    ensures
        sp_common_suffix_len(c1, c2) >= m + 1,
    decreases m,
{
    assert(c1[c1.len() - 1 - 0] == c2[c2.len() - 1 - 0]);
    assert(c1.last() == c2.last());
    if m > 0 {
        assert forall|j: int|
            0 <= j <= m - 1 implies #[trigger] c1.drop_last()[c1.drop_last().len() - 1 - j]
            == c2.drop_last()[c2.drop_last().len() - 1 - j] by {
            assert(c1[c1.len() - 1 - (j + 1)] == c2[c2.len() - 1 - (j + 1)]);
        }
        lemma_suffix_step(c1.drop_last(), c2.drop_last(), (m - 1) as nat);
    }
}

/// When the walk stops at `m`, the common suffix length is exactly `m`.
proof fn lemma_suffix_exact(c1: Seq<TermTyV>, c2: Seq<TermTyV>, m: nat)
    requires
        m <= sp_common_suffix_len(c1, c2),
        m == c1.len() || m == c2.len() || c1[c1.len() - 1 - m] != c2[c2.len() - 1 - m],
    ensures
        sp_common_suffix_len(c1, c2) == m,
{
    lemma_common_suffix(c1, c2);
    let s = sp_common_suffix_len(c1, c2);
    if s > m {
        assert(c1[c1.len() - 1 - m] == c2[c2.len() - 1 - m]);
    }
}

/// A condition must be `Bool`.
pub fn check_condition_ty(t: &TermTy, place: &str) -> (r: Result<(), Error>)
    ensures
        r is Ok <==> t@ == raw_v("Bool"@),
        r matches Err(e) ==> e@.kind == crate::error::ErrorKind::TypeError,
{
    if t.equals_to(&ty::raw("Bool")) {
        Ok(())
    } else {
        Err(type_error(msg3("the condition of ", place, " must be a Bool")))
    }
}

/// An operand of a logical operator must be `Bool`.
pub fn check_logical_operator_ty(t: &TermTy, place: &str) -> (r: Result<(), Error>)
    ensures
        r is Ok <==> t@ == raw_v("Bool"@),
        r matches Err(e) ==> e@.kind == crate::error::ErrorKind::TypeError,
{
    if t.equals_to(&ty::raw("Bool")) {
        Ok(())
    } else {
        Err(type_error(msg3("the operand of ", place, " must be a Bool")))
    }
}

/// Reassignment keeps the declared type exactly.
pub fn check_reassign_var(declared: &TermTy, new_ty: &TermTy, name: &String) -> (r: Result<
    (),
    Error,
>)
    ensures
        r is Ok <==> declared@ == new_ty@,
        r matches Err(e) ==> e@.kind == crate::error::ErrorKind::TypeError,
{
    if declared.equals_to(new_ty) {
        Ok(())
    } else {
        Err(type_error(msg3("the variable `", name.as_str(), "' has another type")))
    }
}

/// The argument of `return` must conform to the declared return type.
pub fn check_return_arg_type(dict: &ClassDict, arg_ty: &TermTy, ret_ty: &TermTy) -> (r: Result<
    (),
    Error,
>)
    ensures
        r is Ok <==> sp_conforms(dict.sk_classes@, arg_ty@, ret_ty@),
        r matches Err(e) ==> e@.kind == crate::error::ErrorKind::TypeError,
{
    if dict.conforms_to(arg_ty, ret_ty) {
        Ok(())
    } else {
        Err(type_error(String::from_str("the return value has a wrong type")))
    }
}

/// Whether every argument conforms to its parameter, at matching arity.
pub open spec fn sp_args_conform(d: DictV, sig: MethodSignatureV, args: Seq<TermTyV>) -> bool {
    args.len() == sig.params.len() && (forall|i: int|
        0 <= i < args.len() ==> sp_conforms(d, args[i], #[trigger] sig.params[i].ty))
}

/// Arity and per-position conformance of the arguments of a call.
pub fn check_method_args(
    dict: &ClassDict,
    sig: &crate::sk::MethodSignature,
    arg_tys: &Vec<TermTy>,
) -> (r: Result<(), Error>)
    ensures
        r is Ok <==> sp_args_conform(dict.sk_classes@, sig@, tys_view(arg_tys@)),
        r matches Err(e) ==> e@.kind == crate::error::ErrorKind::TypeError,
{
    let ghost argsv = tys_view(arg_tys@);
    proof {
        lemma_tys_view(arg_tys@);
    }
    if arg_tys.len() != sig.params.len() {
        return Err(
            type_error(msg3("wrong number of arguments for `", sig.fullname.full_name.as_str(), "'")),
        );
    }
    let n = arg_tys.len();
    for i in 0..n
        invariant
            n == arg_tys@.len() == sig.params@.len(),
            argsv == tys_view(arg_tys@),
            argsv.len() == n,
            forall|j: int| 0 <= j < n ==> argsv[j] == arg_tys@[j]@,
            forall|j: int| 0 <= j < i ==> sp_conforms(
                dict.sk_classes@,
                argsv[j],
                #[trigger] sig@.params[j].ty,
            ),
    {
        if !dict.conforms_to(&arg_tys[i], &sig.params[i].ty) {
            proof {
                assert(!sp_conforms(dict.sk_classes@, argsv[i as int], sig@.params[i as int].ty));
            }
            return Err(
                type_error(
                    msg3("wrong type of an argument for `", sig.fullname.full_name.as_str(), "'"),
                ),
            );
        }
    }
    Ok(())
}

} // verus!

verus! {

/// `lookup_method` over one ancestor chain: the first class on the chain
/// whose signature table has the name wins; its signature is specialized by
/// the receiver's type arguments and by the call's method type arguments.
pub open spec fn sp_lookup_in_chain(
    d: DictV,
    chain: Seq<TermTyV>,
    name: Seq<char>,
    mth_args: Seq<TermTyV>,
) -> Result<(MethodSignatureV, Seq<char>), crate::error::ErrorKind>
    decreases chain.len(),
{
    if chain.len() == 0 {
        Err(crate::error::ErrorKind::ProgramError)
    } else {
        match spec_get(d, base_name_of(chain[0])) {
            None => sp_lookup_in_chain(d, chain.drop_first(), name, mth_args),
            Some(c) => match spec_get(c.method_sigs, name) {
                Some(sig) => {
                    let cls_args = match chain[0] {
                        TermTyV::Spe { tyargs, .. } => tyargs,
                        _ => Seq::empty(),
                    };
                    Ok((crate::sk::specialize_sig_v(sig, cls_args, mth_args), c.fullname))
                },
                None => sp_lookup_in_chain(d, chain.drop_first(), name, mth_args),
            },
        }
    }
}

/// `lookup_method` at the level of views.
pub open spec fn sp_lookup_method(
    d: DictV,
    t: TermTyV,
    name: Seq<char>,
    mth_args: Seq<TermTyV>,
) -> Result<(MethodSignatureV, Seq<char>), crate::error::ErrorKind> {
    sp_lookup_in_chain(d, sp_ancestors(d, t), name, mth_args)
}

impl ClassDict {
    /// Find a method by walking the receiver type's ancestor chain; returns
    /// the specialized signature and the fullname of the defining class.
    pub fn lookup_method(
        &self,
        receiver_ty: &TermTy,
        name: &crate::names::MethodFirstname,
        method_tyargs: &Vec<TermTy>,
    ) -> (r: Result<(crate::sk::MethodSignature, crate::names::ClassFullname), Error>)
        ensures
            match sp_lookup_method(self.sk_classes@, receiver_ty@, name@, tys_view(
                method_tyargs@,
            )) {
                Ok(p) => r matches Ok(q) && q.0@ == p.0 && q.1@ == p.1,
                Err(k) => r matches Err(e) && e@.kind == k,
            },
    {
        let chain = self.ancestors(receiver_ty);
        let n = chain.len();
        let ghost cv = sp_ancestors(self.sk_classes@, receiver_ty@);
        let ghost margs = tys_view(method_tyargs@);
        proof {
            lemma_tys_view(chain@);
            assert(cv.skip(0) =~= cv);
        }
        for i in 0..n
            invariant
                n == chain@.len(),
                cv == sp_ancestors(self.sk_classes@, receiver_ty@),
                cv == tys_view(chain@),
                cv.len() == n,
                margs == tys_view(method_tyargs@),
                forall|j: int| 0 <= j < n ==> cv[j] == chain@[j]@,
                sp_lookup_in_chain(self.sk_classes@, cv, name@, margs) == sp_lookup_in_chain(
                    self.sk_classes@,
                    cv.skip(i as int),
                    name@,
                    margs,
                ),
        {
            proof {
                assert(cv.skip(i as int)[0] == cv[i as int]);
                assert(cv.skip(i as int).drop_first() =~= cv.skip(i + 1));
            }
            let base = self.base_name_of_exec(&chain[i]);
            if let Some(c) = self.sk_classes.get(&base) {
                if let Some(sig) = c.method_sigs.get(&name.0) {
                    let no_args: Vec<TermTy> = Vec::new();
                    proof {
                        assert(tys_view(no_args@) =~= Seq::<TermTyV>::empty());
                    }
                    let sig2 = match &chain[i] {
                        TermTy::Spe { tyargs, .. } => sig.specialize(tyargs, method_tyargs),
                        _ => sig.specialize(&no_args, method_tyargs),
                    };
                    return Ok((sig2, c.fullname.clone()));
                }
            }
        }
        proof {
            assert(cv.skip(n as int) =~= Seq::<TermTyV>::empty());
        }
        Err(
            crate::error::program_error(
                msg3("method `", name.0.as_str(), "' was not found"),
            ),
        )
    }
}

} // verus!
