//! The protocol by which the collector learns what an object points to.

use vstd::prelude::*;
use vstd::multiset::Multiset;
use crate::dmm::gc::Gc;
use crate::dmm::gc_weak::GcWeak;

verus! {

/// The visitor handed to `Collect::trace`. It records the address of every
/// strong pointer it is shown.
pub struct Trace {
    pub(crate) found: Vec<usize>,
}

/// How many of the first `n` elements of `s` satisfy `f`.
pub open spec fn count_where<T>(s: Seq<T>, n: int, f: spec_fn(T) -> bool) -> nat
    decreases n,
{
    if n <= 0 {
        0
    } else {
        count_where(s, n - 1, f) + if f(s[n - 1]) {
            1nat
        } else {
            0nat
        }
    }
}

/// As many of the elements of a sequence satisfy `f` as the bag of its
/// elements holds elements that do.
pub proof fn lemma_count_where<T>(s: Seq<T>, n: int, f: spec_fn(T) -> bool)
    requires
        0 <= n <= s.len(),
    ensures
        count_where(s, n, f) == s.take(n).to_multiset().filter(f).len(),
    decreases n,
{
    broadcast use vstd::multiset::group_multiset_axioms;

    if n == 0 {
        assert(s.take(0) =~= Seq::<T>::empty());
        s.take(0).to_multiset_ensures();
        assert(s.take(0).to_multiset().len() == 0);
        assert(s.take(0).to_multiset().filter(f) =~= Multiset::<T>::empty()) by {
            assert forall|v: T| s.take(0).to_multiset().filter(f).count(v) == 0 by {
                assert(!s.take(0).contains(v));
            }
        }
    } else {
        lemma_count_where(s, n - 1, f);
        let before = s.take(n - 1);
        let x = s[n - 1];
        before.to_multiset_ensures();
        assert(s.take(n) =~= before.push(x));
        let m = before.to_multiset();
        assert(s.take(n).to_multiset() =~= m.insert(x));
        if f(x) {
            assert(m.insert(x).filter(f) =~= m.filter(f).insert(x));
            vstd::multiset::lemma_insert_len(m.filter(f), x);
        } else {
            assert(m.insert(x).filter(f) =~= m.filter(f));
        }
    }
}

/// A sequence that holds each element of a set once, and nothing else, holds
/// the elements of the set as a bag.
pub proof fn lemma_enumeration<T>(s: Seq<T>, set: Set<T>)
    requires
        s.no_duplicates(),
        forall|v: T| s.contains(v) <==> set.contains(v),
    ensures
        set.finite(),
        s.to_multiset() == Multiset::from_set(set),
{
    broadcast use vstd::multiset::group_multiset_axioms;

    assert(s.to_set() =~= set);
    vstd::seq_lib::seq_to_set_is_finite(s);
    s.to_multiset_ensures();
    s.lemma_multiset_has_no_duplicates();
    let counts = Map::new(|v: T| set.contains(v), |v: T| 1nat);
    assert(counts.dom() =~= set);
    assert forall|v: T| s.to_multiset().count(v) == Multiset::from_set(set).count(v) by {
        if set.contains(v) {
            assert(s.contains(v));
            assert(s.to_multiset().contains(v));
        } else {
            assert(!s.contains(v));
        }
    }
    assert(s.to_multiset() =~= Multiset::from_set(set));
}

/// Pushing onto a sequence adds one element to its set of elements.
pub proof fn lemma_push_to_set(s: Seq<usize>, a: usize)
    ensures
        s.push(a).to_set() == s.to_set().insert(a),
{
    assert forall|x: usize| s.push(a).to_set().contains(x) == s.to_set().insert(a).contains(
        x,
    ) by {
        if s.push(a).contains(x) {
            let i = choose|i: int| 0 <= i < s.push(a).len() && s.push(a)[i] == x;
            if i < s.len() {
                assert(s[i] == x);
            }
        }
        if s.contains(x) {
            let i = choose|i: int| 0 <= i < s.len() && s[i] == x;
            assert(s.push(a)[i] == x);
        }
        if x == a {
            assert(s.push(a)[s.len() as int] == x);
        }
    }
    assert(s.push(a).to_set() =~= s.to_set().insert(a));
}

impl Trace {
    /// The addresses shown so far, in the order in which they were shown.
    pub closed spec fn shown(&self) -> Seq<usize> {
        self.found@
    }

    /// The addresses shown so far.
    pub closed spec fn seen(&self) -> Set<usize> {
        self.found@.to_set()
    }

    /// How often `a` has been shown so far.
    pub closed spec fn times_shown(&self, a: usize) -> nat {
        self.found@.to_multiset().count(a)
    }

    /// An address has been shown as often as it occurs among the addresses
    /// shown.
    pub proof fn lemma_times_shown(&self, a: usize)
        ensures
            self.times_shown(a) == self.shown().to_multiset().count(a),
    {
    }

    /// What has been seen is what has been shown.
    pub proof fn lemma_seen(&self)
        ensures
            self.seen() == self.shown().to_set(),
    {
    }

    /// A visitor that has been shown nothing.
    pub fn new() -> (cc: Trace)
        ensures
            cc.shown() == Seq::<usize>::empty(),
            cc.seen() == Set::<usize>::empty(),
            forall|a: usize| #[trigger] cc.times_shown(a) == 0,
    {
        let cc = Trace { found: Vec::new() };
        proof {
            assert(cc.found@.to_set() =~= Set::<usize>::empty());
            cc.found@.to_multiset_ensures();
            assert forall|a: usize| #[trigger] cc.times_shown(a) == 0 by {
                assert(!cc.found@.contains(a));
            }
        }
        cc
    }

    /// Returns how many strong pointers have been shown, each counted as
    /// often as it was shown.
    pub fn count(&self) -> (n: usize)
        ensures
            n == self.shown().len(),
    {
        self.found.len()
    }

    /// The addresses shown, in the order in which they were shown.
    pub(crate) fn into_found(self) -> (found: Vec<usize>)
        ensures
            found@ == self.shown(),
            found@.to_set() == self.seen(),
    {
        self.found
    }

    /// Shows a strong pointer: its target is kept alive.
    pub fn trace_gc<T>(&mut self, gc: Gc<T>)
        ensures
            final(self).shown() == old(self).shown().push(gc.addr()),
            final(self).seen() == old(self).seen().insert(gc.addr()),
            forall|a: usize|
                #[trigger] final(self).times_shown(a) == old(self).times_shown(a) + if a
                    == gc.addr() {
                    1nat
                } else {
                    0nat
                },
    {
        let addr = gc.as_ptr();
        proof {
            lemma_push_to_set(self.found@, addr);
            self.found@.to_multiset_ensures();
            assert(self.found@.push(addr).to_multiset() =~= self.found@.to_multiset().insert(addr));
        }
        self.found.push(addr);
    }

    /// Shows a weak pointer: its target is not kept alive by it.
    pub fn trace_gc_weak<T>(&mut self, gc: GcWeak<T>)
        ensures
            final(self).shown() == old(self).shown(),
            final(self).seen() == old(self).seen(),
            forall|a: usize| #[trigger] final(self).times_shown(a) == old(self).times_shown(a),
    {
    }

    /// Shows a value: every strong pointer it holds is shown, once. A value
    /// of a type that never holds one is not entered.
    pub fn trace<C: Collect>(&mut self, value: &C)
        ensures
            final(self).seen() == old(self).seen().union(value.edges()),
            forall|a: usize|
                #[trigger] final(self).times_shown(a) == old(self).times_shown(a)
                    + value.pointer_count(a),
    {
        if C::needs_trace() {
            value.trace(self);
        } else {
            proof {
                value.lemma_no_trace_no_edges();
                assert(self.seen() =~= old(self).seen().union(value.edges()));
                assert forall|a: usize|
                    #[trigger] self.times_shown(a) == old(self).times_shown(a)
                        + value.pointer_count(a) by {
                    assert(value.pointer_count(a) == 0);
                }
            }
        }
    }
}

/// What every type kept in an arena tells the collector.
pub trait Collect: Sized {
    /// The addresses that a value holds strong pointers to.
    spec fn edges(&self) -> Set<usize>;

    /// How many strong pointers to `a` a value holds.
    spec fn pointer_count(&self, a: usize) -> nat;

    /// Whether a value of the type can hold a strong pointer at all.
    spec fn needs_trace_spec() -> bool;

    /// Returns false only if no value of the type ever holds a strong pointer,
    /// so that `trace` need not be called.
    fn needs_trace() -> (b: bool)
        ensures
            b == Self::needs_trace_spec(),
    ;

    /// A value of a type that needs no tracing holds no strong pointers.
    proof fn lemma_no_trace_no_edges(&self)
        ensures
            !Self::needs_trace_spec() ==> self.edges() == Set::<usize>::empty(),
            !Self::needs_trace_spec() ==> forall|a: usize| #[trigger] self.pointer_count(a) == 0,
    ;

    /// Shows every strong pointer held directly by the value to `cc`, each
    /// once, and nothing else.
    fn trace(&self, cc: &mut Trace)
        ensures
            final(cc).seen() == old(cc).seen().union(self.edges()),
            forall|a: usize|
                #[trigger] final(cc).times_shown(a) == old(cc).times_shown(a) + self.pointer_count(
                    a,
                ),
    ;
}

} // verus!
