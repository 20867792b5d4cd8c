//! Names of classes, methods and constants.
//!
//! A class lives under a namespace (`Foo::Bar`), every class has a companion
//! metaclass whose name carries the `Meta:` prefix, and a method fullname
//! joins the class name and the method name with `#`.

use vstd::prelude::*;

verus! {

/// The `Meta:` prefix that turns a class name into its metaclass name.
pub open spec fn meta_prefix() -> Seq<char> {
    "Meta:"@
}

/// The separator between namespace parts.
pub open spec fn path_sep() -> Seq<char> {
    "::"@
}

/// The separator between a class name and a method name.
pub open spec fn method_sep() -> Seq<char> {
    "#"@
}

/// `parts` joined with `sep` in between.
pub open spec fn join_with(parts: Seq<Seq<char>>, sep: Seq<char>) -> Seq<char>
    decreases parts.len(),
{
    if parts.len() == 0 {
        Seq::empty()
    } else if parts.len() == 1 {
        parts[0]
    } else {
        join_with(parts.drop_last(), sep) + sep + parts.last()
    }
}

/// The views of a sequence of strings.
pub open spec fn seq_views(ss: Seq<String>) -> Seq<Seq<char>> {
    ss.map_values(|s: String| s@)
}

/// The metaclass name of the class named `s`.
pub open spec fn meta_name_seq(s: Seq<char>) -> Seq<char> {
    meta_prefix() + s
}

/// The fullname of method `m` on class `cls`.
pub open spec fn method_fullname_seq(cls: Seq<char>, m: Seq<char>) -> Seq<char> {
    cls + method_sep() + m
}

pub proof fn lemma_join_push(parts: Seq<Seq<char>>, sep: Seq<char>, x: Seq<char>)
    ensures
        join_with(parts.push(x), sep) == if parts.len() == 0 {
            x
        } else {
            join_with(parts, sep) + sep + x
        },
{
    assert(parts.push(x).drop_last() =~= parts);
    assert(parts.push(x).last() == x);
}

/// Two classes with the same metaclass name are the same class.
pub proof fn lemma_meta_name_injective(a: Seq<char>, b: Seq<char>)
    requires
        meta_name_seq(a) == meta_name_seq(b),
    ensures
        a == b,
{
    assert(meta_name_seq(a).skip(meta_prefix().len() as int) =~= a);
    assert(meta_name_seq(b).skip(meta_prefix().len() as int) =~= b);
}

/// `parts` joined with `sep`.
pub fn join_strings(parts: &Vec<String>, sep: &str) -> (r: String)
    ensures
        r@ == join_with(seq_views(parts@), sep@),
{
    let mut r = String::new();
    let ghost views = seq_views(parts@);
    for i in 0..parts.len()
        invariant
            views == seq_views(parts@),
            views.len() == parts@.len(),
            r@ == join_with(views.take(i as int), sep@),
    {
        if i > 0 {
            r.append(sep);
        }
        r.append(parts[i].as_str());
        proof {
            assert(views.take(i + 1).drop_last() =~= views.take(i as int));
            if i == 0 {
                assert(r@ == views.take(1)[0]);
            }
        }
    }
    proof {
        assert(views.take(parts@.len() as int) =~= views);
    }
    r
}

/// The index of the first occurrence of `x` in `s`, or `-1`.
pub open spec fn str_idx_of(s: Seq<Seq<char>>, x: Seq<char>) -> int
    decreases s.len(),
{
    if s.len() == 0 {
        -1
    } else if s[0] == x {
        0
    } else {
        let r = str_idx_of(s.drop_first(), x);
        if r < 0 {
            -1
        } else {
            r + 1
        }
    }
}

pub proof fn lemma_str_idx_of_bounds(s: Seq<Seq<char>>, x: Seq<char>)
    ensures
        -1 <= str_idx_of(s, x) < s.len(),
        str_idx_of(s, x) >= 0 ==> s[str_idx_of(s, x)] == x,
    decreases s.len(),
{
    if s.len() > 0 && s[0] != x {
        lemma_str_idx_of_bounds(s.drop_first(), x);
    }
}

proof fn lemma_str_idx_of_found(s: Seq<Seq<char>>, x: Seq<char>, i: int)
    requires
        0 <= i < s.len(),
        forall|j: int| 0 <= j < i ==> s[j] != x,
        s[i] == x,
    ensures
        str_idx_of(s, x) == i,
    decreases i,
{
    if i > 0 {
        lemma_str_idx_of_found(s.drop_first(), x, i - 1);
    }
}

proof fn lemma_str_idx_of_missing(s: Seq<Seq<char>>, x: Seq<char>)
    requires
        forall|j: int| 0 <= j < s.len() ==> s[j] != x,
    ensures
        str_idx_of(s, x) == -1,
    decreases s.len(),
{
    if s.len() > 0 {
        lemma_str_idx_of_missing(s.drop_first(), x);
    }
}

/// The position of `x` in `v`, if any.
pub fn find_str(v: &Vec<String>, x: &String) -> (r: Option<usize>)
    ensures
        match r {
            Some(i) => i < v@.len() && str_idx_of(seq_views(v@), x@) == i as int,
            None => str_idx_of(seq_views(v@), x@) == -1,
        },
{
    let n = v.len();
    for i in 0..n
        invariant
            n == v@.len(),
            forall|j: int| 0 <= j < i ==> seq_views(v@)[j] != x@,
    {
        if v[i].eq(x) {
            proof {
                lemma_str_idx_of_found(seq_views(v@), x@, i as int);
            }
            return Some(i);
        }
    }
    proof {
        lemma_str_idx_of_missing(seq_views(v@), x@);
    }
    None
}

/// The decimal digit `d` as a character.
pub open spec fn sp_digit_char(d: nat) -> char {
    if d == 0 {
        '0'
    } else if d == 1 {
        '1'
    } else if d == 2 {
        '2'
    } else if d == 3 {
        '3'
    } else if d == 4 {
        '4'
    } else if d == 5 {
        '5'
    } else if d == 6 {
        '6'
    } else if d == 7 {
        '7'
    } else if d == 8 {
        '8'
    } else {
        '9'
    }
}

/// The decimal spelling of `n`.
pub open spec fn sp_decimal(n: nat) -> Seq<char>
    decreases n,
{
    if n < 10 {
        seq![sp_digit_char(n)]
    } else {
        sp_decimal(n / 10).push(sp_digit_char(n % 10))
    }
}

fn digit_str(d: usize) -> (r: &'static str)
    requires
        d < 10,
    ensures
        r@ == seq![sp_digit_char(d as nat)],
{
    let r = match d {
        0 => "0",
        1 => "1",
        2 => "2",
        3 => "3",
        4 => "4",
        5 => "5",
        6 => "6",
        7 => "7",
        8 => "8",
        _ => "9",
    };
    proof {
        reveal_strlit("0");
        reveal_strlit("1");
        reveal_strlit("2");
        reveal_strlit("3");
        reveal_strlit("4");
        reveal_strlit("5");
        reveal_strlit("6");
        reveal_strlit("7");
        reveal_strlit("8");
        reveal_strlit("9");
    }
    r
}

/// The decimal spelling of `n`.
pub fn usize_to_string(n: usize) -> (r: String)
    ensures
        r@ == sp_decimal(n as nat),
    decreases n,
{
    if n < 10 {
        String::from_str(digit_str(n))
    } else {
        let mut s = usize_to_string(n / 10);
        s.append(digit_str(n % 10));
        s
    }
}

/// An unqualified class name, e.g. `List`.
pub struct ClassFirstname(pub String);

impl View for ClassFirstname {
    type V = Seq<char>;

    open spec fn view(&self) -> Seq<char> {
        self.0@
    }
}

impl ClassFirstname {
    pub fn new(s: &str) -> (r: ClassFirstname)
        ensures
            r@ == s@,
    {
        ClassFirstname(String::from_str(s))
    }

    pub fn clone(&self) -> (r: ClassFirstname)
        ensures
            r@ == self@,
    {
        ClassFirstname(self.0.clone())
    }
}

/// A qualified class name, e.g. `Foo::Bar` or `Meta:Foo::Bar`.
pub struct ClassFullname(pub String);

impl View for ClassFullname {
    type V = Seq<char>;

    open spec fn view(&self) -> Seq<char> {
        self.0@
    }
}

impl ClassFullname {
    pub fn new(s: &str) -> (r: ClassFullname)
        ensures
            r@ == s@,
    {
        ClassFullname(String::from_str(s))
    }

    pub fn clone(&self) -> (r: ClassFullname)
        ensures
            r@ == self@,
    {
        ClassFullname(self.0.clone())
    }

    /// The name of this class's metaclass.
    pub fn meta_name(&self) -> (r: ClassFullname)
        ensures
            r@ == meta_name_seq(self@),
    {
        let mut s = String::from_str("Meta:");
        s.append(self.0.as_str());
        ClassFullname(s)
    }
}

/// An unqualified method name, e.g. `each`.
pub struct MethodFirstname(pub String);

impl View for MethodFirstname {
    type V = Seq<char>;

    open spec fn view(&self) -> Seq<char> {
        self.0@
    }
}

impl MethodFirstname {
    pub fn clone(&self) -> (r: MethodFirstname)
        ensures
            r@ == self@,
    {
        MethodFirstname(self.0.clone())
    }
}

pub fn method_firstname(s: &str) -> (r: MethodFirstname)
    ensures
        r@ == s@,
{
    MethodFirstname(String::from_str(s))
}

/// A qualified method name, e.g. `Foo::Bar#baz` or `Meta:Foo#new`.
pub struct MethodFullname {
    pub full_name: String,
    pub first_name: MethodFirstname,
}

/// View of a method fullname: the full path and the bare name.
pub struct MethodFullnameV {
    pub full_name: Seq<char>,
    pub first_name: Seq<char>,
}

impl View for MethodFullname {
    type V = MethodFullnameV;

    open spec fn view(&self) -> MethodFullnameV {
        MethodFullnameV { full_name: self.full_name@, first_name: self.first_name@ }
    }
}

/// The view of the fullname of method `m` on class `cls`.
pub open spec fn method_fullname_v(cls: Seq<char>, m: Seq<char>) -> MethodFullnameV {
    MethodFullnameV { full_name: method_fullname_seq(cls, m), first_name: m }
}

/// A fullname is consistent when the full path ends in `#` + the bare name.
pub open spec fn wf_method_fullname(n: MethodFullnameV) -> bool {
    exists|cls: Seq<char>| n == method_fullname_v(cls, n.first_name)
}

impl MethodFullname {
    pub fn clone(&self) -> (r: MethodFullname)
        ensures
            r@ == self@,
    {
        MethodFullname { full_name: self.full_name.clone(), first_name: self.first_name.clone() }
    }
}

/// The fullname of method `first` on class `cls`.
pub fn method_fullname(cls: &ClassFullname, first: &str) -> (r: MethodFullname)
    ensures
        r@ == method_fullname_v(cls@, first@),
{
    let mut s = self_cls_string(cls);
    s.append("#");
    s.append(first);
    MethodFullname { full_name: s, first_name: method_firstname(first) }
}

fn self_cls_string(cls: &ClassFullname) -> (r: String)
    ensures
        r@ == cls@,
{
    cls.0.clone()
}

/// A toplevel constant path, e.g. `::Foo::BAR`.
pub struct ConstFullname(pub String);

impl View for ConstFullname {
    type V = Seq<char>;

    open spec fn view(&self) -> Seq<char> {
        self.0@
    }
}

/// The view of the toplevel constant named by `names`.
pub open spec fn toplevel_const_seq(names: Seq<Seq<char>>) -> Seq<char> {
    path_sep() + join_with(names, path_sep())
}

impl ConstFullname {
    pub fn clone(&self) -> (r: ConstFullname)
        ensures
            r@ == self@,
    {
        ConstFullname(self.0.clone())
    }
}

/// The toplevel constant `::a::b` for path `names`.
pub fn toplevel_const(names: &Vec<String>) -> (r: ConstFullname)
    ensures
        r@ == toplevel_const_seq(seq_views(names@)),
{
    let joined = join_strings(names, "::");
    let mut s = String::from_str("::");
    s.append(joined.as_str());
    ConstFullname(s)
}

/// An ordered list of class names forming the current nesting.
pub struct Namespace(pub Vec<String>);

impl View for Namespace {
    type V = Seq<Seq<char>>;

    open spec fn view(&self) -> Seq<Seq<char>> {
        seq_views(self.0@)
    }
}

/// The view of the fullname of `first` under namespace `parts`.
pub open spec fn namespaced_name(parts: Seq<Seq<char>>, first: Seq<char>) -> Seq<char> {
    join_with(parts.push(first), path_sep())
}

impl Namespace {
    /// The empty (toplevel) namespace.
    pub fn root() -> (r: Namespace)
        ensures
            r@ == Seq::<Seq<char>>::empty(),
    {
        Namespace(Vec::new())
    }

    pub fn clone(&self) -> (r: Namespace)
        ensures
            r@ == self@,
    {
        let parts = self.0.clone();
        proof {
            assert forall|i: int| 0 <= i < parts@.len() implies parts@[i]@ == self.0@[i]@ by {
                assert(cloned::<String>(self.0@[i], parts@[i]));
            }
            assert(seq_views(parts@) =~= self@);
        }
        Namespace(parts)
    }

    /// This namespace extended by one more class name.
    pub fn add(&self, name: &ClassFirstname) -> (r: Namespace)
        ensures
            r@ == self@.push(name@),
    {
        let mut r = self.clone();
        r.0.push(name.0.clone());
        proof {
            assert(seq_views(r.0@) =~= self@.push(name@));
        }
        r
    }

    /// The fullname of class `first` declared under this namespace.
    pub fn class_fullname(&self, first: &ClassFirstname) -> (r: ClassFullname)
        ensures
            r@ == namespaced_name(self@, first@),
    {
        let ghost parts = self@;
        proof {
            lemma_join_push(parts, path_sep(), first@);
        }
        if self.0.len() == 0 {
            proof {
                assert(parts.push(first@)[0] == first@);
            }
            ClassFullname(first.0.clone())
        } else {
            let mut s = join_strings(&self.0, "::");
            s.append("::");
            s.append(first.0.as_str());
            ClassFullname(s)
        }
    }
}

} // verus!
