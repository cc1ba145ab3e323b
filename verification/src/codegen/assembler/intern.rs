//! The constant-pool intern context: deduplicates and indexes the literal
//! values that generated code refers to by constant-pool index.

use vstd::prelude::*;
use crate::util::{first_index_of, lemma_first_index_of, lemma_first_index_of_push, str_eq};

verus! {

/// A namespace constant; the field is a string-pool index.
#[derive(Debug, Clone, Copy, PartialEq, Eq, Structural)]
pub enum Namespace {
    Package(u32),
}

/// A qualified-name constant; the fields are a namespace-pool index and a
/// string-pool index.
#[derive(Debug, Clone, Copy, PartialEq, Eq, Structural)]
pub enum Multiname {
    QName { namespace: u32, name: u32 },
}

/// The constant pool of one compilation unit: an ordered sequence of unique
/// values per literal kind.
#[derive(Debug)]
pub struct ConstantPool {
    pub ints: Vec<i32>,
    pub strings: Vec<String>,
    pub namespaces: Vec<Namespace>,
    pub multinames: Vec<Multiname>,
}

/// Mathematical model of a [`ConstantPool`].
pub ghost struct PoolModel {
    pub ints: Seq<i32>,
    pub strings: Seq<Seq<char>>,
    pub namespaces: Seq<Namespace>,
    pub multinames: Seq<Multiname>,
}

impl View for ConstantPool {
    type V = PoolModel;

    open spec fn view(&self) -> PoolModel {
        PoolModel {
            ints: self.ints@,
            strings: self.strings.deep_view(),
            namespaces: self.namespaces@,
            multinames: self.multinames@,
        }
    }
}

/// The index interning `v` into `s` returns: the first occurrence when `v`
/// is present, the length (where `v` is appended) when it is not.
pub open spec fn intern_index<T>(s: Seq<T>, v: T) -> int {
    first_index_of(s, v)
}

/// The pool sequence after interning `v`: unchanged on a hit, extended by
/// `v` on a miss.
pub open spec fn intern_seq<T>(s: Seq<T>, v: T) -> Seq<T> {
    if s.contains(v) {
        s
    } else {
        s.push(v)
    }
}

/// Interning never removes or reorders entries, the returned index names the
/// interned value, and a pool of unique entries stays unique.
pub proof fn lemma_intern_seq<T>(s: Seq<T>, v: T)
    ensures
        0 <= intern_index(s, v) < intern_seq(s, v).len(),
        intern_seq(s, v)[intern_index(s, v)] == v,
        intern_seq(s, v).len() == if s.contains(v) { s.len() } else { s.len() + 1 },
        forall|j: int| 0 <= j < s.len() ==> intern_seq(s, v)[j] == s[j],
{
    lemma_first_index_of(s, v);
    if !s.contains(v) {
        assert(intern_seq(s, v)[s.len() as int] == v);
    }
}

/// Interning is idempotent: interning the same value a second time returns
/// the same index and leaves the pool unchanged.
pub proof fn lemma_intern_idempotent<T>(s: Seq<T>, v: T)
    ensures
        intern_seq(intern_seq(s, v), v) == intern_seq(s, v),
        intern_index(intern_seq(s, v), v) == intern_index(s, v),
{
    lemma_first_index_of(s, v);
    lemma_first_index_of_push(s, v, v);
    if !s.contains(v) {
        assert(intern_seq(s, v)[s.len() as int] == v);
        assert(intern_seq(s, v).contains(v));
    }
}

/// Distinct values interned in turn receive distinct indices, in first-seen
/// order: a fresh value always gets the next index, starting at 0, and a
/// later intern of a different value never disturbs an index already handed
/// out.
pub proof fn lemma_intern_distinct<T>(s: Seq<T>, v: T, w: T)
    requires
        v != w,
    ensures
        intern_index(intern_seq(s, v), w) != intern_index(s, v),
        intern_index(intern_seq(intern_seq(s, v), w), v) == intern_index(s, v),
        !s.contains(v) ==> intern_index(s, v) == s.len(),
{
    let s1 = intern_seq(s, v);
    let s2 = intern_seq(s1, w);
    lemma_first_index_of(s, v);
    lemma_first_index_of(s1, w);
    lemma_first_index_of(s1, v);
    lemma_intern_seq(s, v);
    lemma_intern_idempotent(s, v);
    if s1.contains(w) {
        assert(s1[intern_index(s1, w)] == w);
        assert(s1[intern_index(s, v)] == v);
    } else {
        assert(intern_index(s1, w) == s1.len());
    }
    lemma_first_index_of_push(s1, v, w);
    assert(s1.contains(v));
}

/// Interns a string into a vector of unique strings: the index of the first
/// structurally equal entry, or the index of a newly appended entry.
pub(crate) fn vec_intern_string(pool: &mut Vec<String>, val: &str) -> (r: u32)
    requires
        old(pool)@.len() < u32::MAX,
    ensures
        final(pool).deep_view() == intern_seq(old(pool).deep_view(), val@),
        r == intern_index(old(pool).deep_view(), val@),
        r < final(pool)@.len(),
        final(pool).deep_view()[r as int] == val@,
{
    let ghost s = pool.deep_view();
    proof {
        lemma_first_index_of(s, val@);
    }
    let n = pool.len();
    let mut i: usize = 0;
    while i < n
        invariant
            n == pool@.len() < u32::MAX,
            i <= n,
            s == pool.deep_view(),
            forall|j: int| 0 <= j < i ==> s[j] != val@,
        decreases n - i,
    {
        if str_eq(pool[i].as_str(), val) {
            proof {
                lemma_first_index_of(s, val@);
                assert(s[i as int] == val@);
                assert(s.contains(val@));
                assert(first_index_of(s, val@) >= i);
            }
            return i as u32;
        }
        i += 1;
    }
    proof {
        lemma_first_index_of(s, val@);
        if s.contains(val@) {
            let k = choose|k: int| 0 <= k < s.len() && s[k] == val@;
            assert(s[k] != val@);
        }
    }
    pool.push(val.to_owned());
    proof {
        assert(pool.deep_view() =~= s.push(val@));
    }
    n as u32
}

/// Interns a namespace value into a vector of unique namespaces.
fn vec_intern_namespace(pool: &mut Vec<Namespace>, val: Namespace) -> (r: u32)
    requires
        old(pool)@.len() < u32::MAX,
    ensures
        final(pool)@ == intern_seq(old(pool)@, val),
        r == intern_index(old(pool)@, val),
        r < final(pool)@.len(),
        final(pool)@[r as int] == val,
{
    let ghost s = pool@;
    proof {
        lemma_first_index_of(s, val);
    }
    let n = pool.len();
    let mut i: usize = 0;
    while i < n
        invariant
            n == pool@.len() < u32::MAX,
            i <= n,
            s == pool@,
            forall|j: int| 0 <= j < i ==> s[j] != val,
        decreases n - i,
    {
        if pool[i] == val {
            proof {
                lemma_first_index_of(s, val);
                assert(s.contains(val));
                assert(first_index_of(s, val) >= i);
            }
            return i as u32;
        }
        i += 1;
    }
    proof {
        lemma_first_index_of(s, val);
        if s.contains(val) {
            let k = choose|k: int| 0 <= k < s.len() && s[k] == val;
            assert(s[k] != val);
        }
    }
    pool.push(val);
    n as u32
}

/// Interns a qualified-name value into a vector of unique qualified names.
fn vec_intern_multiname(pool: &mut Vec<Multiname>, val: Multiname) -> (r: u32)
    requires
        old(pool)@.len() < u32::MAX,
    ensures
        final(pool)@ == intern_seq(old(pool)@, val),
        r == intern_index(old(pool)@, val),
        r < final(pool)@.len(),
        final(pool)@[r as int] == val,
{
    let ghost s = pool@;
    proof {
        lemma_first_index_of(s, val);
    }
    let n = pool.len();
    let mut i: usize = 0;
    while i < n
        invariant
            n == pool@.len() < u32::MAX,
            i <= n,
            s == pool@,
            forall|j: int| 0 <= j < i ==> s[j] != val,
        decreases n - i,
    {
        if pool[i] == val {
            proof {
                lemma_first_index_of(s, val);
                assert(s.contains(val));
                assert(first_index_of(s, val) >= i);
            }
            return i as u32;
        }
        i += 1;
    }
    proof {
        lemma_first_index_of(s, val);
        if s.contains(val) {
            let k = choose|k: int| 0 <= k < s.len() && s[k] == val;
            assert(s[k] != val);
        }
    }
    pool.push(val);
    n as u32
}

/// Interns an integer into a vector of unique integers.
pub(crate) fn vec_intern_int(pool: &mut Vec<i32>, val: i32) -> (r: u32)
    requires
        old(pool)@.len() < u32::MAX,
    ensures
        final(pool)@ == intern_seq(old(pool)@, val),
        r == intern_index(old(pool)@, val),
        r < final(pool)@.len(),
        final(pool)@[r as int] == val,
{
    let ghost s = pool@;
    proof {
        lemma_first_index_of(s, val);
    }
    let n = pool.len();
    let mut i: usize = 0;
    while i < n
        invariant
            n == pool@.len() < u32::MAX,
            i <= n,
            s == pool@,
            forall|j: int| 0 <= j < i ==> s[j] != val,
        decreases n - i,
    {
        if pool[i] == val {
            proof {
                lemma_first_index_of(s, val);
                assert(s.contains(val));
                assert(first_index_of(s, val) >= i);
            }
            return i as u32;
        }
        i += 1;
    }
    proof {
        lemma_first_index_of(s, val);
        if s.contains(val) {
            let k = choose|k: int| 0 <= k < s.len() && s[k] == val;
            assert(s[k] != val);
        }
    }
    pool.push(val);
    n as u32
}

/// A context that manages a constant pool; values are interned through the
/// kind-specific methods and the pool only grows.
#[derive(Debug)]
pub struct InternContext {
    pub const_pool: ConstantPool,
}

impl View for InternContext {
    type V = PoolModel;

    open spec fn view(&self) -> PoolModel {
        self.const_pool@
    }
}

impl InternContext {
    /// An intern context over an empty constant pool.
    pub fn new() -> (r: InternContext)
        ensures
            r@.ints == Seq::<i32>::empty(),
            r@.strings == Seq::<Seq<char>>::empty(),
            r@.namespaces == Seq::<Namespace>::empty(),
            r@.multinames == Seq::<Multiname>::empty(),
    {
        let r = InternContext {
            const_pool: ConstantPool {
                ints: Vec::new(),
                strings: Vec::new(),
                namespaces: Vec::new(),
                multinames: Vec::new(),
            },
        };
        proof {
            assert(r@.strings =~= Seq::<Seq<char>>::empty());
        }
        r
    }

    /// Interns a string into this constant pool.
    pub fn intern_string(&mut self, val: &str) -> (r: u32)
        requires
            old(self)@.strings.len() < u32::MAX,
        ensures
            final(self)@.strings == intern_seq(old(self)@.strings, val@),
            r == intern_index(old(self)@.strings, val@),
            r < final(self)@.strings.len() && final(self)@.strings[r as int] == val@,
            final(self)@.ints == old(self)@.ints,
            final(self)@.namespaces == old(self)@.namespaces,
            final(self)@.multinames == old(self)@.multinames,
    {
        vec_intern_string(&mut self.const_pool.strings, val)
    }

    /// Interns a namespace into this constant pool.
    pub fn intern_namespace(&mut self, val: &Namespace) -> (r: u32)
        requires
            old(self)@.namespaces.len() < u32::MAX,
        ensures
            final(self)@.namespaces == intern_seq(old(self)@.namespaces, *val),
            r == intern_index(old(self)@.namespaces, *val),
            r < final(self)@.namespaces.len() && final(self)@.namespaces[r as int] == *val,
            final(self)@.ints == old(self)@.ints,
            final(self)@.strings == old(self)@.strings,
            final(self)@.multinames == old(self)@.multinames,
    {
        vec_intern_namespace(&mut self.const_pool.namespaces, *val)
    }

    /// Interns a qualified name into this constant pool.
    pub fn intern_multiname(&mut self, val: &Multiname) -> (r: u32)
        requires
            old(self)@.multinames.len() < u32::MAX,
        ensures
            final(self)@.multinames == intern_seq(old(self)@.multinames, *val),
            r == intern_index(old(self)@.multinames, *val),
            r < final(self)@.multinames.len() && final(self)@.multinames[r as int] == *val,
            final(self)@.ints == old(self)@.ints,
            final(self)@.strings == old(self)@.strings,
            final(self)@.namespaces == old(self)@.namespaces,
    {
        vec_intern_multiname(&mut self.const_pool.multinames, *val)
    }

    /// Builds the qualified name `name` in the empty package namespace: it
    /// interns the empty string, wraps it as a package namespace, interns
    /// the target name, and combines both into a qualified-name constant.
    pub fn empty_namespaced_qname(&mut self, name: &str) -> (r: u32)
        requires
            old(self)@.strings.len() + 2 <= u32::MAX,
            old(self)@.namespaces.len() < u32::MAX,
            old(self)@.multinames.len() < u32::MAX,
        ensures
            ({
                let s1 = intern_seq(old(self)@.strings, ""@);
                let e = intern_index(old(self)@.strings, ""@);
                let ns = Namespace::Package(e as u32);
                let nsi = intern_index(old(self)@.namespaces, ns);
                let ni = intern_index(s1, name@);
                let mn = Multiname::QName { namespace: nsi as u32, name: ni as u32 };
                &&& final(self)@.strings == intern_seq(s1, name@)
                &&& final(self)@.namespaces == intern_seq(old(self)@.namespaces, ns)
                &&& final(self)@.multinames == intern_seq(old(self)@.multinames, mn)
                &&& r == intern_index(old(self)@.multinames, mn)
                &&& final(self)@.ints == old(self)@.ints
            }),
    {
        proof {
            lemma_first_index_of(old(self)@.strings, ""@);
            lemma_first_index_of(old(self)@.namespaces, Namespace::Package(
                intern_index(old(self)@.strings, ""@) as u32,
            ));
        }
        let empty = self.intern_string("");
        let namespace = self.intern_namespace(&Namespace::Package(empty));
        let name_index = self.intern_string(name);
        self.intern_multiname(&Multiname::QName { namespace, name: name_index })
    }
}

impl Default for InternContext {
    /// The default intern context is empty.
    fn default() -> (r: InternContext)
        ensures
            r@.ints == Seq::<i32>::empty(),
            r@.strings == Seq::<Seq<char>>::empty(),
            r@.namespaces == Seq::<Namespace>::empty(),
            r@.multinames == Seq::<Multiname>::empty(),
    {
        InternContext::new()
    }
}

} // verus!
