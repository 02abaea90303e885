//! The collection protocol for pointers and for the types values are built of.

use vstd::prelude::*;
use crate::dmm::collect::{Collect, Trace};
use crate::dmm::gc::Gc;
use crate::dmm::gc_weak::GcWeak;

verus! {

impl<T> Collect for Gc<T> {
    open spec fn edges(&self) -> Set<usize> {
        set![self.addr()]
    }

    open spec fn pointer_count(&self, a: usize) -> nat {
        if a == self.addr() {
            1
        } else {
            0
        }
    }

    open spec fn needs_trace_spec() -> bool {
        true
    }

    fn needs_trace() -> (b: bool) {
        true
    }

    proof fn lemma_no_trace_no_edges(&self) {
    }

    fn trace(&self, cc: &mut Trace) {
        cc.trace_gc(*self);
        assert(cc.seen() =~= old(cc).seen().union(self.edges()));
    }
}

impl<T> Collect for GcWeak<T> {
    open spec fn edges(&self) -> Set<usize> {
        Set::empty()
    }

    open spec fn pointer_count(&self, a: usize) -> nat {
        0
    }

    open spec fn needs_trace_spec() -> bool {
        false
    }

    fn needs_trace() -> (b: bool) {
        false
    }

    proof fn lemma_no_trace_no_edges(&self) {
    }

    /// Shows the weak pointer, which shows no strong pointer: the visitor
    /// has been shown afterwards what it had been shown before.
    fn trace(&self, cc: &mut Trace)
        ensures
            final(cc).shown() == old(cc).shown(),
    {
        cc.trace_gc_weak(Self::erase(*self));
        assert(cc.seen() =~= old(cc).seen().union(self.edges()));
    }
}

impl Collect for () {
    open spec fn edges(&self) -> Set<usize> {
        Set::empty()
    }

    open spec fn pointer_count(&self, a: usize) -> nat {
        0
    }

    open spec fn needs_trace_spec() -> bool {
        false
    }

    fn needs_trace() -> (b: bool) {
        false
    }

    proof fn lemma_no_trace_no_edges(&self) {
    }

    /// There is nothing to show: the visitor has been shown afterwards what
    /// it had been shown before.
    fn trace(&self, cc: &mut Trace)
        ensures
            final(cc).shown() == old(cc).shown(),
    {
        assert(cc.seen() =~= old(cc).seen().union(self.edges()));
    }
}

impl Collect for bool {
    open spec fn edges(&self) -> Set<usize> {
        Set::empty()
    }

    open spec fn pointer_count(&self, a: usize) -> nat {
        0
    }

    open spec fn needs_trace_spec() -> bool {
        false
    }

    fn needs_trace() -> (b: bool) {
        false
    }

    proof fn lemma_no_trace_no_edges(&self) {
    }

    /// There is nothing to show: the visitor has been shown afterwards what
    /// it had been shown before.
    fn trace(&self, cc: &mut Trace)
        ensures
            final(cc).shown() == old(cc).shown(),
    {
        assert(cc.seen() =~= old(cc).seen().union(self.edges()));
    }
}

impl Collect for u64 {
    open spec fn edges(&self) -> Set<usize> {
        Set::empty()
    }

    open spec fn pointer_count(&self, a: usize) -> nat {
        0
    }

    open spec fn needs_trace_spec() -> bool {
        false
    }

    fn needs_trace() -> (b: bool) {
        false
    }

    proof fn lemma_no_trace_no_edges(&self) {
    }

    /// There is nothing to show: the visitor has been shown afterwards what
    /// it had been shown before.
    fn trace(&self, cc: &mut Trace)
        ensures
            final(cc).shown() == old(cc).shown(),
    {
        assert(cc.seen() =~= old(cc).seen().union(self.edges()));
    }
}

impl Collect for i64 {
    open spec fn edges(&self) -> Set<usize> {
        Set::empty()
    }

    open spec fn pointer_count(&self, a: usize) -> nat {
        0
    }

    open spec fn needs_trace_spec() -> bool {
        false
    }

    fn needs_trace() -> (b: bool) {
        false
    }

    proof fn lemma_no_trace_no_edges(&self) {
    }

    /// There is nothing to show: the visitor has been shown afterwards what
    /// it had been shown before.
    fn trace(&self, cc: &mut Trace)
        ensures
            final(cc).shown() == old(cc).shown(),
    {
        assert(cc.seen() =~= old(cc).seen().union(self.edges()));
    }
}

impl<T: Collect> Collect for Option<T> {
    open spec fn edges(&self) -> Set<usize> {
        match self {
            Some(v) => v.edges(),
            None => Set::empty(),
        }
    }

    open spec fn pointer_count(&self, a: usize) -> nat {
        match self {
            Some(v) => v.pointer_count(a),
            None => 0,
        }
    }

    open spec fn needs_trace_spec() -> bool {
        T::needs_trace_spec()
    }

    fn needs_trace() -> (b: bool) {
        T::needs_trace()
    }

    proof fn lemma_no_trace_no_edges(&self) {
        match self {
            Some(v) => {
                v.lemma_no_trace_no_edges();
            },
            None => {},
        }
    }

    fn trace(&self, cc: &mut Trace) {
        match self {
            Some(v) => {
                cc.trace(v);
            },
            None => {
                assert(cc.seen() =~= old(cc).seen().union(self.edges()));
            },
        }
    }
}

impl<A: Collect, B: Collect> Collect for (A, B) {
    open spec fn edges(&self) -> Set<usize> {
        self.0.edges().union(self.1.edges())
    }

    open spec fn pointer_count(&self, a: usize) -> nat {
        self.0.pointer_count(a) + self.1.pointer_count(a)
    }

    open spec fn needs_trace_spec() -> bool {
        A::needs_trace_spec() || B::needs_trace_spec()
    }

    fn needs_trace() -> (b: bool) {
        A::needs_trace() || B::needs_trace()
    }

    proof fn lemma_no_trace_no_edges(&self) {
        self.0.lemma_no_trace_no_edges();
        self.1.lemma_no_trace_no_edges();
        if !Self::needs_trace_spec() {
            assert(self.edges() =~= Set::<usize>::empty());
        }
    }

    fn trace(&self, cc: &mut Trace) {
        cc.trace(&self.0);
        cc.trace(&self.1);
        assert(cc.seen() =~= old(cc).seen().union(self.edges()));
    }
}

/// The addresses that the first `n` elements of `s` hold strong pointers to.
pub open spec fn edges_of_prefix<T: Collect>(s: Seq<T>, n: int) -> Set<usize> {
    Set::new(|e: usize| exists|i: int| 0 <= i < n && i < s.len() && (#[trigger] s[i]).edges().contains(e))
}

/// How many strong pointers to `a` the first `n` elements of `s` hold.
pub open spec fn pointers_in_prefix<T: Collect>(s: Seq<T>, n: int, a: usize) -> nat
    decreases n,
{
    if n <= 0 {
        0
    } else {
        pointers_in_prefix(s, n - 1, a) + s[n - 1].pointer_count(a)
    }
}

/// The elements of a type that needs no tracing hold no strong pointers.
pub proof fn lemma_no_pointers_in_prefix<T: Collect>(s: Seq<T>, n: int, a: usize)
    requires
        !T::needs_trace_spec(),
        0 <= n <= s.len(),
    ensures
        pointers_in_prefix(s, n, a) == 0,
    decreases n,
{
    if n > 0 {
        lemma_no_pointers_in_prefix(s, n - 1, a);
        s[n - 1].lemma_no_trace_no_edges();
    }
}

impl<T: Collect> Collect for Vec<T> {
    open spec fn edges(&self) -> Set<usize> {
        edges_of_prefix(self@, self@.len() as int)
    }

    open spec fn pointer_count(&self, a: usize) -> nat {
        pointers_in_prefix(self@, self@.len() as int, a)
    }

    open spec fn needs_trace_spec() -> bool {
        T::needs_trace_spec()
    }

    fn needs_trace() -> (b: bool) {
        T::needs_trace()
    }

    proof fn lemma_no_trace_no_edges(&self) {
        if !Self::needs_trace_spec() {
            assert forall|e: usize| !self.edges().contains(e) by {
                if self.edges().contains(e) {
                    let i = choose|i: int|
                        0 <= i < self@.len() && (#[trigger] self@[i]).edges().contains(e);
                    self@[i].lemma_no_trace_no_edges();
                }
            }
            assert(self.edges() =~= Set::<usize>::empty());
            assert forall|a: usize| #[trigger] self.pointer_count(a) == 0 by {
                lemma_no_pointers_in_prefix(self@, self@.len() as int, a);
            }
        }
    }

    fn trace(&self, cc: &mut Trace) {
        let mut i: usize = 0;
        assert(cc.seen() =~= old(cc).seen().union(edges_of_prefix(self@, 0)));
        while i < self.len()
            invariant
                i <= self@.len(),
                cc.seen() == old(cc).seen().union(edges_of_prefix(self@, i as int)),
                forall|a: usize|
                    #[trigger] cc.times_shown(a) == old(cc).times_shown(a) + pointers_in_prefix(
                        self@,
                        i as int,
                        a,
                    ),
            decreases self@.len() - i,
        {
            let ghost before = cc.seen();
            cc.trace(&self[i]);
            proof {
                assert forall|e: usize|
                    before.union(self@[i as int].edges()).contains(e) == old(cc).seen().union(
                        edges_of_prefix(self@, i + 1),
                    ).contains(e) by {
                    if edges_of_prefix(self@, i + 1).contains(e) {
                        let j = choose|j: int|
                            0 <= j < i + 1 && j < self@.len() && (#[trigger] self@[j]).edges().contains(e);
                        if j < i {
                            assert(edges_of_prefix(self@, i as int).contains(e));
                        }
                    }
                    if edges_of_prefix(self@, i as int).contains(e) {
                        let j = choose|j: int|
                            0 <= j < i && j < self@.len() && (#[trigger] self@[j]).edges().contains(e);
                        assert(edges_of_prefix(self@, i + 1).contains(e));
                    }
                    if self@[i as int].edges().contains(e) {
                        assert(edges_of_prefix(self@, i + 1).contains(e));
                    }
                }
                assert(cc.seen() =~= old(cc).seen().union(edges_of_prefix(self@, i + 1)));
                assert forall|a: usize|
                    #[trigger] cc.times_shown(a) == old(cc).times_shown(a) + pointers_in_prefix(
                        self@,
                        i + 1,
                        a,
                    ) by {
                    assert(pointers_in_prefix(self@, i + 1, a) == pointers_in_prefix(
                        self@,
                        i as int,
                        a,
                    ) + self@[i as int].pointer_count(a));
                }
            }
            i = i + 1;
        }
    }
}

} // verus!
