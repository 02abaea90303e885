//! The arena: owner of one object graph and of the collector that keeps it.

use vstd::prelude::*;
use crate::dmm::collect::Collect;
use crate::dmm::context::{Finalization, Mutation};
use crate::dmm::gc::Gc;
use crate::dmm::invariants;
use crate::dmm::metrics::Metrics;
use crate::dmm::reach;
use crate::dmm::types::{CollectionPhase, GcColor, HeapView};

verus! {

/// An arena owns every object reachable from its root object, and decides
/// when each is dropped.
///
/// The host changes the graph through the mutation capability that the arena
/// lends out, and runs the collector in bounded steps between its own
/// operations. While the capability is lent the arena itself is borrowed, so
/// the collector cannot run.
pub struct Arena<P> {
    fc: Finalization<P>,
}

impl<P: Collect> View for Arena<P> {
    type V = HeapView;

    closed spec fn view(&self) -> HeapView {
        self.fc@
    }
}

impl<P: Collect> Arena<P> {
    /// The payload held at `a`, if `a` is the address of a live allocation.
    pub closed spec fn payload(&self, a: usize) -> Option<P> {
        self.fc.payload(a)
    }

    /// The arena's invariant.
    pub closed spec fn wf(&self) -> bool {
        self.fc.heap_wf()
    }

    /// An arena's state is well formed only if its model is: in particular no
    /// Black object of a marking arena points to a White one, and what the
    /// roots reach is live.
    pub proof fn lemma_wf(&self)
        requires
            self.wf(),
        ensures
            self@.wf(),
            forall|a: usize|
                self@.valid(a) ==> self@.objs[a as int].live == (#[trigger] self.payload(
                    a,
                )).is_some(),
            forall|a: usize| !self@.valid(a) ==> (#[trigger] self.payload(a)).is_none(),
    {
        self.fc.lemma_wf();
    }

    /// Makes an arena around `root`, which becomes the root object at address
    /// 0, with `size` bytes accounted to it and `wakeup_amount` bytes of
    /// allocation paying for one unit of collector work. The arena starts at
    /// the beginning of a marking pass.
    ///
    /// The root object can point to nothing but itself yet; if it does, no
    /// arena is made.
    pub fn new(root: P, size: usize, wakeup_amount: usize) -> (r: Option<Arena<P>>)
        ensures
            r is Some <==> root.edges().subset_of(set![0usize]),
            r matches Some(arena) ==> {
                &&& arena.wf()
                &&& arena@ == HeapView::initial(root.edges(), size, wakeup_amount)
                &&& arena.payload(0) == Some(root)
            },
    {
        match Mutation::new(root, size, wakeup_amount) {
            Some(mc) => Some(Arena { fc: Finalization::wrap(mc) }),
            None => None,
        }
    }

    /// A strong pointer to the root object.
    pub fn root(&self) -> (gc: Gc<P>)
        ensures
            gc.addr() == 0,
    {
        Gc::from_ptr(0)
    }

    /// The phase the collector is in.
    pub fn phase(&self) -> (p: CollectionPhase)
        ensures
            p == self@.phase,
    {
        self.fc.as_mutation().phase()
    }

    /// Whether the finalizing pass is open.
    pub fn is_finalizing(&self) -> (b: bool)
        ensures
            b == self@.finalizing,
    {
        self.fc.as_mutation().is_finalizing()
    }

    /// The arena's counters.
    pub fn metrics(&self) -> (m: &Metrics)
        ensures
            *m == self@.metrics,
    {
        self.fc.as_mutation().metrics()
    }

    /// Lends out the mutation capability, for one unit of host activity. An
    /// open finalizing pass is closed by this.
    pub fn mutation(&mut self) -> (mc: &mut Mutation<P>)
        requires
            old(self).wf(),
        ensures
            mc.wf(),
            mc@ == old(self)@.leave_finalizing(),
            forall|x: usize| mc.payload(x) == old(self).payload(x),
            final(self)@ == final(mc)@,
            final(self).wf() == final(mc).heap_wf(),
            forall|x: usize| final(self).payload(x) == final(mc).payload(x),
    {
        let mc = self.fc.inner_mut();
        mc.close_finalizing();
        mc
    }

    /// Enters a scope of mutation: lends out the mutation capability together
    /// with a strong pointer to the root object.
    pub fn enter(&mut self) -> (r: (&mut Mutation<P>, Gc<P>))
        requires
            old(self).wf(),
        ensures
            r.0.wf(),
            r.0@ == old(self)@.leave_finalizing(),
            r.1.addr() == 0,
            forall|x: usize| r.0.payload(x) == old(self).payload(x),
            final(self)@ == final(r.0)@,
            final(self).wf() == final(r.0).heap_wf(),
            forall|x: usize| final(self).payload(x) == final(r.0).payload(x),
    {
        let root = self.root();
        (self.mutation(), root)
    }

    /// Lends out the finalization capability, if the finalizing pass is open.
    pub fn finalization(&mut self) -> (r: Option<&mut Finalization<P>>)
        requires
            old(self).wf(),
        ensures
            r is Some <==> old(self)@.finalizing,
            r matches Some(fc) ==> {
                &&& fc.wf()
                &&& fc@ == old(self)@
                &&& forall|x: usize| fc.payload(x) == old(self).payload(x)
                &&& final(self)@ == final(fc)@
                &&& final(self).wf() == final(fc).heap_wf()
                &&& forall|x: usize| final(self).payload(x) == final(fc).payload(x)
            },
            r is None ==> *final(self) == *old(self),
    {
        if self.fc.as_mutation().is_finalizing() {
            Some(&mut self.fc)
        } else {
            None
        }
    }

    /// Runs the collector for up to `budget` units of work, whatever the debt,
    /// and returns the units spent.
    pub fn step(&mut self, budget: usize) -> (work: usize)
        requires
            old(self).wf(),
        ensures
            final(self).wf(),
            work <= budget,
            old(self)@.steps_to(final(self)@, budget, work),
            forall|x: usize|
                #[trigger] final(self).payload(x) == if final(self)@.live(x) {
                    old(self).payload(x)
                } else {
                    None
                },
    {
        self.fc.inner_mut().step(budget)
    }

    /// Runs the collector for as many units of work as the allocation debt
    /// has earned and not yet been paid, and returns the units spent. With no
    /// debt nothing is done: the work is put off until more is allocated.
    pub fn collect_debt(&mut self) -> (work: usize)
        requires
            old(self).wf(),
        ensures
            final(self).wf(),
            work <= old(self)@.metrics.budget(),
            old(self)@.metrics.budget() == 0 ==> *final(self) == *old(self),
            old(self)@.metrics.budget() > 0 ==> old(self)@.steps_to(
                final(self)@,
                old(self)@.metrics.budget() as usize,
                work,
            ),
            forall|x: usize|
                #[trigger] final(self).payload(x) == if final(self)@.live(x) {
                    old(self).payload(x)
                } else {
                    None
                },
    {
        let budget = self.metrics().allocation_debt();
        if budget == 0 {
            proof {
                self.lemma_wf();
            }
            return 0;
        }
        self.fc.inner_mut().step(budget)
    }

    /// Runs marking to its end and opens the finalizing pass. Returns false,
    /// with nothing changed, if the collector is sweeping.
    ///
    /// Afterwards an allocation is Black if it could be reached from a Gray or
    /// Black object before, and White if not. In particular nothing that the
    /// roots reach is White.
    pub fn mark_all(&mut self) -> (done: bool)
        requires
            old(self).wf(),
        ensures
            final(self).wf(),
            done == (old(self)@.phase == CollectionPhase::Marking),
            done ==> {
                &&& old(self)@.marks_to(final(self)@)
                &&& old(self)@.marked_out(final(self)@)
                &&& final(self)@.phase == CollectionPhase::Sweeping
                &&& final(self)@.finalizing
                &&& final(self)@.metrics == old(self)@.metrics
            },
            !done ==> *final(self) == *old(self),
            forall|x: usize| final(self).payload(x) == old(self).payload(x),
    {
        if self.phase() != CollectionPhase::Marking {
            return false;
        }
        let ghost h0 = self@;
        self.fc.inner_mut().close_finalizing();
        let ghost h = self@;
        let _ = self.fc.inner_mut().mark_to_end();
        proof {
            let g = self@;
            invariants::lemma_marks_from(h0, h, g, g);
            assert forall|a: usize| g.valid(a) implies #[trigger] g.color(a) == if h0.marked(a) {
                GcColor::Black
            } else {
                GcColor::White
            } by {
                assert(g.color(a) == if h.marked(a) {
                    GcColor::Black
                } else {
                    GcColor::White
                });
                invariants::lemma_marked_same(h0, h, a);
            }
        }
        true
    }

    /// Runs the current cycle to its end, without a finalizing pass, and
    /// starts the next: marks what is left to mark, drops every live object
    /// that marking leaves White, and shades the roots anew.
    ///
    /// An object that was live is live afterwards exactly if it could be
    /// reached from a Gray or Black object before, or, the collector sweeping
    /// already, if it was not about to be dropped.
    pub fn collect_all(&mut self)
        requires
            old(self).wf(),
        ensures
            final(self).wf(),
            old(self)@.collects_to(final(self)@),
            final(self)@.precise(),
            forall|a: usize|
                #[trigger] final(self).payload(a) == if old(self)@.survives(a) {
                    old(self).payload(a)
                } else {
                    None
                },
    {
        let ghost h0 = self@;
        proof {
            self.lemma_wf();
        }
        if self.phase() == CollectionPhase::Marking {
            let _ = self.mark_all();
        }
        let ghost h1 = self@;
        proof {
            self.lemma_wf();
        }
        let _ = self.fc.inner_mut().sweep_to_end();
        proof {
            let g = self@;
            let m = h1.leave_finalizing().swept_to(h1.sweep_end);
            self.lemma_wf();
            assert forall|a: usize| h0.valid(a) implies #[trigger] h0.outcome(g, a) && h0.survives(
                a,
            ) == h1.usable(a) by {
                assert(m.same_obj(g, a));
                assert(h1.obj_ok(a));
                assert(h0.obj_ok(a));
                if h0.phase == CollectionPhase::Marking {
                    assert(h0.same_obj(h1, a));
                    assert(h1.color(a) == if h0.marked(a) {
                        GcColor::Black
                    } else {
                        GcColor::White
                    });
                    if h0.marked(a) {
                        invariants::lemma_marked_live(h0, a);
                    }
                }
            }
            assert forall|a: usize|
                #[trigger] self.payload(a) == if h0.survives(a) {
                    old(self).payload(a)
                } else {
                    None
                } by {
                if h0.valid(a) {
                    assert(h0.outcome(g, a));
                } else {
                    if h0.phase == CollectionPhase::Marking && h0.marked(a) {
                        invariants::lemma_marked_live(h0, a);
                    }
                }
            }
        }
    }
}

} // verus!
