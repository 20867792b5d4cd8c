//! A small string-keyed map.
//!
//! The dictionary, the method-signature tables and the instance-variable
//! tables are all keyed by names.  The map is a vector of pairs whose view is
//! the sequence of (key view, value view) pairs; lookups return the first
//! entry with the wanted key and insertion replaces that entry in place, so
//! every operation is a function of the view alone.

use vstd::prelude::*;

verus! {

/// A type that can duplicate itself without changing its view.
pub trait DupView: View + Sized {
    fn dup(&self) -> (r: Self)
        ensures
            r@ == self@,
    ;
}

impl DupView for String {
    fn dup(&self) -> (r: String)
        ensures
            r@ == self@,
    {
        self.clone()
    }
}

/// The index of the first entry with key `k`, or `-1`.
pub open spec fn spec_key_idx<T>(s: Seq<(Seq<char>, T)>, k: Seq<char>) -> int
    decreases s.len(),
{
    if s.len() == 0 {
        -1
    } else if s[0].0 == k {
        0
    } else {
        let r = spec_key_idx(s.drop_first(), k);
        if r < 0 {
            -1
        } else {
            r + 1
        }
    }
}

/// The value bound to `k`, if any.
pub open spec fn spec_get<T>(s: Seq<(Seq<char>, T)>, k: Seq<char>) -> Option<T> {
    let i = spec_key_idx(s, k);
    if i >= 0 {
        Some(s[i].1)
    } else {
        None
    }
}

pub open spec fn spec_contains<T>(s: Seq<(Seq<char>, T)>, k: Seq<char>) -> bool {
    spec_key_idx(s, k) >= 0
}

/// `s` with `v` bound to `k`: the first entry with key `k` is replaced in
/// place, or a new entry is appended.
pub open spec fn spec_insert<T>(s: Seq<(Seq<char>, T)>, k: Seq<char>, v: T) -> Seq<
    (Seq<char>, T),
> {
    let i = spec_key_idx(s, k);
    if i >= 0 {
        s.update(i, (k, v))
    } else {
        s.push((k, v))
    }
}

/// All entries of `b` inserted into `a`, in order.
pub open spec fn spec_extend<T>(a: Seq<(Seq<char>, T)>, b: Seq<(Seq<char>, T)>) -> Seq<
    (Seq<char>, T),
>
    decreases b.len(),
{
    if b.len() == 0 {
        a
    } else {
        spec_extend(spec_insert(a, b[0].0, b[0].1), b.drop_first())
    }
}

pub proof fn lemma_key_idx_bounds<T>(s: Seq<(Seq<char>, T)>, k: Seq<char>)
    ensures
        -1 <= spec_key_idx(s, k) < s.len(),
        spec_key_idx(s, k) >= 0 ==> s[spec_key_idx(s, k)].0 == k,
    decreases s.len(),
{
    if s.len() > 0 && s[0].0 != k {
        lemma_key_idx_bounds(s.drop_first(), k);
    }
}

/// The first `i` entries miss `k` and entry `i` hits it, so the first hit is `i`.
pub proof fn lemma_key_idx_found<T>(s: Seq<(Seq<char>, T)>, k: Seq<char>, i: int)
    requires
        0 <= i < s.len(),
        forall|j: int| 0 <= j < i ==> s[j].0 != k,
        s[i].0 == k,
    ensures
        spec_key_idx(s, k) == i,
    decreases i,
{
    if i > 0 {
        lemma_key_idx_found(s.drop_first(), k, i - 1);
    }
}

/// No entry has key `k`.
pub proof fn lemma_key_idx_missing<T>(s: Seq<(Seq<char>, T)>, k: Seq<char>)
    requires
        forall|j: int| 0 <= j < s.len() ==> s[j].0 != k,
    ensures
        spec_key_idx(s, k) == -1,
    decreases s.len(),
{
    if s.len() > 0 {
        lemma_key_idx_missing(s.drop_first(), k);
    }
}

/// After an insert, `k` is bound to `v` and other keys keep their bindings.
pub proof fn lemma_get_insert<T>(s: Seq<(Seq<char>, T)>, k: Seq<char>, v: T, k2: Seq<char>)
    ensures
        spec_get(spec_insert(s, k, v), k) == Some(v),
        k2 != k ==> spec_get(spec_insert(s, k, v), k2) == spec_get(s, k2),
        spec_contains(spec_insert(s, k, v), k2) == (k2 == k || spec_contains(s, k2)),
    decreases s.len(),
{
    lemma_key_idx_bounds(s, k);
    lemma_key_idx_bounds(s, k2);
    let i = spec_key_idx(s, k);
    let t = spec_insert(s, k, v);
    if i >= 0 {
        assert forall|j: int| 0 <= j < i implies t[j].0 != k by {
            lemma_key_idx_found_converse(s, k, j);
        }
        lemma_key_idx_found(t, k, i);
        if k2 != k {
            lemma_key_idx_same_on_agree(s, t, k2);
        }
    } else {
        assert forall|j: int| 0 <= j < s.len() implies t[j].0 != k by {
            lemma_key_idx_found_converse(s, k, j);
        }
        lemma_key_idx_found(t, k, s.len() as int);
        if k2 != k {
            lemma_key_idx_same_on_agree_push(s, k, v, k2);
        }
    }
}

/// Entries before the first hit miss `k`.
pub proof fn lemma_key_idx_found_converse<T>(s: Seq<(Seq<char>, T)>, k: Seq<char>, j: int)
    requires
        0 <= j < s.len(),
        j < spec_key_idx(s, k) || spec_key_idx(s, k) == -1,
    ensures
        s[j].0 != k,
    decreases j,
{
    if j > 0 {
        lemma_key_idx_found_converse(s.drop_first(), k, j - 1);
    }
}

/// Two sequences with the same keys in the same order agree on `spec_key_idx`,
/// and where they also agree on the values they agree on `spec_get`.
proof fn lemma_key_idx_same_on_agree<T>(s: Seq<(Seq<char>, T)>, t: Seq<(Seq<char>, T)>, k: Seq<
    char,
>)
    requires
        s.len() == t.len(),
        forall|j: int| 0 <= j < s.len() && s[j].0 == k ==> t[j] == s[j],
        forall|j: int| 0 <= j < s.len() ==> (t[j].0 == k <==> s[j].0 == k),
    ensures
        spec_key_idx(t, k) == spec_key_idx(s, k),
        spec_get(t, k) == spec_get(s, k),
    decreases s.len(),
{
    lemma_key_idx_bounds(s, k);
    lemma_key_idx_bounds(t, k);
    if s.len() > 0 && s[0].0 != k {
        assert(s.drop_first().len() == t.drop_first().len());
        assert forall|j: int|
            0 <= j < s.drop_first().len() && s.drop_first()[j].0 == k implies t.drop_first()[j]
            == s.drop_first()[j] by {
            assert(s.drop_first()[j] == s[j + 1]);
            assert(t.drop_first()[j] == t[j + 1]);
        }
        assert forall|j: int| 0 <= j < s.drop_first().len() implies (t.drop_first()[j].0 == k
            <==> s.drop_first()[j].0 == k) by {
            assert(s.drop_first()[j] == s[j + 1]);
            assert(t.drop_first()[j] == t[j + 1]);
        }
        lemma_key_idx_same_on_agree(s.drop_first(), t.drop_first(), k);
    }
}

proof fn lemma_key_idx_same_on_agree_push<T>(s: Seq<(Seq<char>, T)>, k: Seq<char>, v: T, k2: Seq<
    char,
>)
    requires
        k2 != k,
    ensures
        spec_key_idx(s.push((k, v)), k2) == spec_key_idx(s, k2),
        spec_get(s.push((k, v)), k2) == spec_get(s, k2),
    decreases s.len(),
{
    lemma_key_idx_bounds(s, k2);
    let t = s.push((k, v));
    if s.len() == 0 {
        assert(t[0].0 == k);
        assert(t.drop_first() =~= Seq::<(Seq<char>, T)>::empty());
        assert(spec_key_idx(t.drop_first(), k2) == -1);
        assert(spec_key_idx(t, k2) == -1);
    } else {
        assert(t[0] == s[0]);
        assert(t.drop_first() =~= s.drop_first().push((k, v)));
        lemma_key_idx_same_on_agree_push(s.drop_first(), k, v, k2);
        let i = spec_key_idx(s, k2);
        assert(spec_key_idx(t, k2) == i);
        if i >= 0 {
            assert(t[i] == s[i]);
        }
    }
}

/// A vector of key-value pairs looked up by key.
pub struct StrMap<V> {
    entries: Vec<(String, V)>,
}

/// The (key view, value view) pairs of a vector of entries.
pub open spec fn entry_views<V: View>(s: Seq<(String, V)>) -> Seq<(Seq<char>, <V as View>::V)> {
    Seq::new(s.len(), |i: int| (s[i].0@, s[i].1@))
}

impl<V: View> View for StrMap<V> {
    type V = Seq<(Seq<char>, <V as View>::V)>;

    closed spec fn view(&self) -> Seq<(Seq<char>, <V as View>::V)> {
        entry_views(self.entries@)
    }
}

impl<V: View> StrMap<V> {
    pub fn new() -> (r: StrMap<V>)
        ensures
            r@ == Seq::<(Seq<char>, <V as View>::V)>::empty(),
    {
        let r = StrMap { entries: Vec::new() };
        proof {
            assert(r@ =~= Seq::<(Seq<char>, <V as View>::V)>::empty());
        }
        r
    }

    pub fn len(&self) -> (r: usize)
        ensures
            r == self@.len(),
    {
        self.entries.len()
    }

    pub fn key_at(&self, i: usize) -> (r: &String)
        requires
            i < self@.len(),
        ensures
            r@ == self@[i as int].0,
    {
        &self.entries[i].0
    }

    pub fn val_at(&self, i: usize) -> (r: &V)
        requires
            i < self@.len(),
        ensures
            r@ == self@[i as int].1,
    {
        &self.entries[i].1
    }

    /// The position of `k`, if present.
    fn find(&self, k: &String) -> (r: Option<usize>)
        ensures
            match r {
                Some(i) => 0 <= i < self@.len() && spec_key_idx(self@, k@) == i as int,
                None => spec_key_idx(self@, k@) == -1,
            },
    {
        let n = self.entries.len();
        for i in 0..n
            invariant
                n == self@.len(),

                forall|j: int| 0 <= j < i ==> self@[j].0 != k@,
        {
            if self.entries[i].0.eq(k) {
                proof {
                    lemma_key_idx_found(self@, k@, i as int);
                }
                return Some(i);
            }
        }
        proof {
            lemma_key_idx_missing(self@, k@);
        }
        None
    }

    pub fn get(&self, k: &String) -> (r: Option<&V>)
        ensures
            match r {
                Some(v) => spec_get(self@, k@) == Some(v@),
                None => spec_get(self@, k@) is None,
            },
    {
        match self.find(k) {
            Some(i) => Some(&self.entries[i].1),
            None => None,
        }
    }

    pub fn contains_key(&self, k: &String) -> (r: bool)
        ensures
            r == spec_contains(self@, k@),
    {
        self.find(k).is_some()
    }

    pub fn insert(&mut self, k: String, v: V)
        ensures
            final(self)@ == spec_insert(old(self)@, k@, v@),
    {
        match self.find(&k) {
            Some(i) => {
                self.entries.set(i, (k, v));
                proof {
                    assert(self@ =~= spec_insert(old(self)@, k@, v@));
                }
            },
            None => {
                self.entries.push((k, v));
                proof {
                    assert(self@ =~= spec_insert(old(self)@, k@, v@));
                }
            },
        }
    }

    /// Insert every entry of `other`, in order.
    pub fn extend(&mut self, other: StrMap<V>)
        ensures
            final(self)@ == spec_extend(old(self)@, other@),
    {
        let ghost all = other@;
        let mut rest = other.entries;
        while rest.len() > 0
            invariant
                spec_extend(old(self)@, all) == spec_extend(self@, entry_views(rest@)),
            decreases rest.len(),
        {
            let ghost pre_rest = rest@;
            let (k, v) = rest.remove(0);
            self.insert(k, v);
            proof {
                assert(entry_views(pre_rest).drop_first() =~= entry_views(rest@));
            }
        }
        proof {
            assert(entry_views(rest@) =~= Seq::<(Seq<char>, <V as View>::V)>::empty());
        }
    }
}

impl<V: DupView> StrMap<V> {
    /// A copy of this map with the same view.
    pub fn dup(&self) -> (r: StrMap<V>)
        ensures
            r@ == self@,
    {
        let mut entries: Vec<(String, V)> = Vec::new();
        let n = self.entries.len();
        for i in 0..n
            invariant
                n == self@.len(),
                entries@.len() == i,
                forall|j: int| 0 <= j < i ==> (entries@[j].0@, entries@[j].1@) == self@[j],
        {
            let k = self.entries[i].0.clone();
            let v = self.entries[i].1.dup();
            entries.push((k, v));
        }
        let r = StrMap { entries };
        proof {
            assert(r@ =~= self@);
        }
        r
    }
}

impl<V: DupView> DupView for StrMap<V> {
    fn dup(&self) -> (r: Self)
        ensures
            r@ == self@,
    {
        StrMap::dup(self)
    }
}

} // verus!
