//! The state of an arena and the capability to change it.

use vstd::prelude::*;
use crate::dmm::collect::{Collect, Trace};
use crate::dmm::gc::Gc;
use crate::dmm::invariants;
use crate::dmm::reach;
use crate::dmm::metrics::Metrics;
use crate::dmm::types::{AllocError, CollectionPhase, GcColor, HeapView, ObjView, WriteError};

verus! {

/// An allocation: the header that the collector keeps, and the payload.
pub struct GcBox<P> {
    /// The payload has not been dropped.
    pub(crate) live: bool,
    /// Whether the payload's type can hold strong pointers.
    pub(crate) needs_trace: bool,
    pub(crate) color: GcColor,
    /// Bytes accounted to the allocation.
    pub(crate) size: usize,
    pub(crate) resurrected: bool,
    pub(crate) cleanups: Ghost<nat>,
    pub(crate) value: Option<P>,
}

impl<P: Collect> GcBox<P> {
    /// The header agrees with the payload.
    pub closed spec fn wf(&self) -> bool {
        &&& self.live == self.value.is_some()
        &&& self.needs_trace == P::needs_trace_spec()
    }

    /// What the model knows of the allocation.
    pub closed spec fn view(&self) -> ObjView {
        ObjView {
            live: self.live,
            color: self.color,
            size: self.size,
            resurrected: self.resurrected,
            cleanups: self.cleanups@,
            edges: match self.value {
                Some(v) => v.edges(),
                None => Set::empty(),
            },
        }
    }
}

/// The capability to allocate in an arena and to change what it holds.
///
/// It is the arena's state: the allocation table, the worklist of Gray
/// objects, the dynamic roots, the phase of the collector and the counters.
/// The arena lends it out for the length of one unit of host activity, and
/// cannot run the collector while it is lent.
pub struct Mutation<P> {
    pub(crate) boxes: Vec<GcBox<P>>,
    pub(crate) gray: Vec<usize>,
    pub(crate) roots: Vec<Option<usize>>,
    pub(crate) phase: CollectionPhase,
    pub(crate) finalizing: bool,
    pub(crate) cursor: usize,
    pub(crate) sweep_end: usize,
    pub(crate) metrics: Metrics,
}

impl<P: Collect> View for Mutation<P> {
    type V = HeapView;

    closed spec fn view(&self) -> HeapView {
        HeapView {
            objs: Seq::new(self.boxes@.len(), |i: int| self.boxes@[i].view()),
            gray: self.gray@,
            roots: self.roots@,
            phase: self.phase,
            finalizing: self.finalizing,
            cursor: self.cursor,
            sweep_end: self.sweep_end,
            metrics: self.metrics,
        }
    }
}

impl<P: Collect> Mutation<P> {
    /// The payload held at `a`, if `a` is the address of a live allocation.
    pub closed spec fn payload(&self, a: usize) -> Option<P> {
        if a < self.boxes@.len() {
            self.boxes@[a as int].value
        } else {
            None
        }
    }

    /// Every allocation's header agrees with what it holds.
    pub closed spec fn boxes_wf(&self) -> bool {
        forall|i: int| 0 <= i < self.boxes@.len() ==> (#[trigger] self.boxes@[i]).wf()
    }

    /// The arena's invariant.
    pub closed spec fn inv(&self, pending: Option<usize>, rooted: int) -> bool {
        self.boxes_wf() && self@.inv(pending, rooted)
    }

    /// The arena's invariant between operations.
    pub open spec fn heap_wf(&self) -> bool {
        self.inv(None, self@.roots.len() as int)
    }

    /// What holds of the capability whenever the host has it: the arena's
    /// invariant, with the finalizing pass closed.
    pub open spec fn wf(&self) -> bool {
        self.heap_wf() && !self@.finalizing
    }

    /// An arena's state is well formed only if its model is, and a live
    /// allocation's model has the strong pointers of its payload.
    pub proof fn lemma_wf(&self)
        requires
            self.heap_wf(),
        ensures
            self@.wf(),
            forall|a: usize|
                self@.valid(a) ==> self@.objs[a as int].live == (#[trigger] self.payload(
                    a,
                )).is_some(),
            forall|a: usize|
                self@.live(a) ==> self@.objs[a as int].edges == (#[trigger] self.payload(
                    a,
                )).unwrap().edges(),
            forall|a: usize| !self@.valid(a) ==> (#[trigger] self.payload(a)).is_none(),
    {
    }

    /// The phase the collector is in.
    pub fn phase(&self) -> (p: CollectionPhase)
        ensures
            p == self@.phase,
    {
        self.phase
    }

    /// Whether the finalizing pass is open.
    pub fn is_finalizing(&self) -> (b: bool)
        ensures
            b == self@.finalizing,
    {
        self.finalizing
    }

    /// The arena's counters.
    pub fn metrics(&self) -> (m: &Metrics)
        ensures
            *m == self@.metrics,
    {
        &self.metrics
    }

    /// The number of addresses handed out so far.
    pub fn len(&self) -> (n: usize)
        ensures
            n == self@.objs.len(),
    {
        self.boxes.len()
    }

    /// Whether a strong pointer to `a` may be handed out: `a` holds a payload,
    /// and the collector has not decided to drop it.
    pub fn is_usable(&self, a: usize) -> (b: bool)
        ensures
            b == self@.usable(a),
    {
        if a >= self.boxes.len() {
            return false;
        }
        let b = &self.boxes[a];
        if !b.live {
            return false;
        }
        !(self.phase == CollectionPhase::Sweeping && b.color == GcColor::White && self.cursor <= a
            && a < self.sweep_end)
    }

    /// The mark colour of the allocation that `gc` points to, if there is
    /// one.
    pub fn color<T>(&self, gc: Gc<T>) -> (c: Option<GcColor>)
        ensures
            c == if self@.valid(gc.addr()) {
                Some(self@.color(gc.addr()))
            } else {
                None
            },
    {
        let a = gc.as_ptr();
        if a < self.boxes.len() {
            Some(self.boxes[a].color)
        } else {
            None
        }
    }

    /// Whether `a` holds a payload that has not been dropped.
    pub fn is_live(&self, a: usize) -> (b: bool)
        ensures
            b == self@.live(a),
    {
        a < self.boxes.len() && self.boxes[a].live
    }

    /// Reads the payload that `gc` points to. There is none to read once the
    /// collector has dropped it or decided to.
    pub fn get(&self, gc: Gc<P>) -> (r: Option<&P>)
        requires
            self.heap_wf(),
        ensures
            self@.usable(gc.addr()) ==> r.is_some() && Some(*r.unwrap()) == self.payload(gc.addr()),
            !self@.usable(gc.addr()) ==> r.is_none(),
    {
        let a = gc.as_ptr();
        if self.is_usable(a) {
            assert(self.boxes@[a as int].wf());
            self.boxes[a].value.as_ref()
        } else {
            None
        }
    }

    /// Finds `a` reachable: if it is live and White it turns Gray and joins
    /// the worklist.
    pub(crate) fn shade(
        &mut self,
        a: usize,
        Ghost(pending): Ghost<Option<usize>>,
        Ghost(rooted): Ghost<int>,
    )
        requires
            old(self).inv(pending, rooted),
            old(self)@.phase == CollectionPhase::Marking,
        ensures
            final(self).inv(pending, rooted),
            final(self)@ == old(self)@.shade(a),
            forall|x: usize| final(self).payload(x) == old(self).payload(x),
    {
        if a < self.boxes.len() && self.boxes[a].live && self.boxes[a].color == GcColor::White {
            proof {
                invariants::lemma_shade_inv(self@, a, pending, rooted);
            }
            self.boxes[a].color = GcColor::Gray;
            self.boxes[a].resurrected = false;
            self.gray.push(a);
            proof {
                assert(self@.objs =~= old(self)@.shade(a).objs);
                assert(self@ == old(self)@.shade(a));
                assert forall|i: int| 0 <= i < self.boxes@.len() implies (#[trigger] self.boxes@[i]).wf() by {
                    assert(old(self).boxes@[i].wf());
                }
            }
        }
    }

    /// Takes one Gray object off the worklist, shades what it points to, and
    /// paints it Black.
    pub(crate) fn mark_one(&mut self)
        requires
            old(self).heap_wf(),
            old(self)@.phase == CollectionPhase::Marking,
            old(self)@.gray.len() > 0,
        ensures
            final(self).heap_wf(),
            old(self)@.marks_to(final(self)@),
            final(self)@.unmarked() + 1 == old(self)@.unmarked(),
            final(self)@.phase == CollectionPhase::Marking,
            final(self)@.finalizing == old(self)@.finalizing,
            final(self)@.cursor == old(self)@.cursor,
            final(self)@.sweep_end == old(self)@.sweep_end,
            final(self)@.metrics == old(self)@.metrics,
            forall|x: usize| final(self).payload(x) == old(self).payload(x),
    {
        let ghost h0 = self@;
        let ghost rooted = self@.roots.len() as int;
        let a = self.gray.pop().unwrap();
        proof {
            invariants::lemma_pop_inv(h0, rooted);
            assert(self@ == h0.pop_gray());
            assert(self.boxes@[a as int].wf());
        }
        let ghost h1 = self@;
        let mut cc = Trace::new();
        if self.boxes[a].needs_trace {
            match &self.boxes[a].value {
                Some(v) => {
                    v.trace(&mut cc);
                    assert(cc.seen() =~= v.edges());
                },
                None => {},
            }
        } else {
            proof {
                self.boxes@[a as int].value.unwrap().lemma_no_trace_no_edges();
            }
        }
        assert(cc.seen() == h1.objs[a as int].edges);
        let found = cc.into_found();
        let mut i: usize = 0;
        while i < found.len()
            invariant
                i <= found@.len(),
                found@.to_set() == h0.objs[a as int].edges,
                h0.inv(None, rooted),
                h0.phase == CollectionPhase::Marking,
                h0.shaded(a),
                self.inv(Some(a), rooted),
                h0.marks_to(self@),
                self@.unmarked() == h0.unmarked(),
                self@.phase == CollectionPhase::Marking,
                self@.finalizing == h0.finalizing,
                self@.cursor == h0.cursor,
                self@.sweep_end == h0.sweep_end,
                self@.metrics == h0.metrics,
                self@.roots == h0.roots,
                forall|x: usize| self.payload(x) == old(self).payload(x),
                forall|j: int| 0 <= j < i ==> self@.color(#[trigger] found@[j]) != GcColor::White,
            decreases found@.len() - i,
        {
            let e = found[i];
            let ghost h = self@;
            proof {
                assert(found@.contains(e));
                assert(h0.edge(a, e));
                invariants::lemma_shade_marks(h0, h, a, e);
                assert(h0.live(e));
                assert(h0.same_obj(h, e));
                assert forall|j: int| 0 <= j < i implies h.shade(e).color(#[trigger] found@[j])
                    != GcColor::White by {
                    assert(found@.contains(found@[j]));
                    assert(h0.edge(a, found@[j]));
                    assert(h0.live(found@[j]));
                }
            }
            self.shade(e, Ghost(Some(a)), Ghost(rooted));
            i = i + 1;
        }
        let ghost h2 = self@;
        proof {
            assert forall|e: usize| #[trigger] h2.edge(a, e) implies h2.color(e)
                != GcColor::White by {
                assert(h0.same_obj(h2, a));
                assert(found@.to_set().contains(e));
                let j = choose|j: int| 0 <= j < found@.len() && found@[j] == e;
                assert(h2.color(found@[j]) != GcColor::White);
            }
            invariants::lemma_blacken_inv(h0, h2, a, rooted);
        }
        self.boxes[a].color = GcColor::Black;
        self.boxes[a].resurrected = false;
        proof {
            assert(self@.objs =~= h2.paint(a, GcColor::Black).objs);
            assert(self@ == h2.paint(a, GcColor::Black));
            assert forall|i: int| 0 <= i < self.boxes@.len() implies (#[trigger] self.boxes@[i]).wf() by {
                assert(old(self).boxes@[i].wf());
            }
        }
    }

    /// Runs marking until the worklist is empty, then opens the finalizing
    /// pass. Returns the number of objects it painted Black.
    pub(crate) fn mark_to_end(&mut self) -> (work: usize)
        requires
            old(self).heap_wf(),
            old(self)@.phase == CollectionPhase::Marking,
        ensures
            final(self).heap_wf(),
            old(self)@.marks_to(final(self)@),
            final(self)@.phase == CollectionPhase::Sweeping,
            final(self)@.finalizing,
            final(self)@.metrics == old(self)@.metrics,
            forall|a: usize|
                final(self)@.valid(a) ==> #[trigger] final(self)@.color(a) == if old(self)@.marked(
                    a,
                ) {
                    GcColor::Black
                } else {
                    GcColor::White
                },
            forall|x: usize| final(self).payload(x) == old(self).payload(x),
            work + final(self)@.unmarked() == old(self)@.unmarked(),
    {
        let ghost h0 = self@;
        let mut work: usize = 0;
        let n = self.boxes.len();
        proof {
            reach::lemma_marks_to_refl(h0);
            invariants::lemma_unmarked_bound(h0);
            assert(h0.objs.len() == n);
        }
        while self.gray.len() > 0
            invariant
                self.heap_wf(),
                h0.marks_to(self@),
                self@.phase == CollectionPhase::Marking,
                self@.metrics == h0.metrics,
                forall|x: usize| self.payload(x) == old(self).payload(x),
                work + self@.unmarked() == h0.unmarked(),
                h0.unmarked() <= usize::MAX,
                self@.objs.len() == n,
            decreases self@.unmarked(),
        {
            let ghost h = self@;
            self.mark_one();
            proof {
                reach::lemma_marks_to_trans(h0, h, self@);
            }
            work = work + 1;
        }
        self.enter_finalizing(Ghost(h0));
        work
    }

    /// Closes the finalizing pass, if it is open.
    pub(crate) fn close_finalizing(&mut self)
        requires
            old(self).heap_wf(),
        ensures
            final(self).heap_wf(),
            final(self)@ == old(self)@.leave_finalizing(),
            forall|x: usize| final(self).payload(x) == old(self).payload(x),
    {
        proof {
            invariants::lemma_leave_finalizing_inv(self@);
        }
        self.finalizing = false;
        proof {
            assert(self@.objs =~= old(self)@.objs);
            assert(self@ == old(self)@.leave_finalizing());
        }
    }

    /// Sweeps the allocation under the cursor: if it is live and White its
    /// payload is dropped, otherwise it is painted White for the next cycle.
    pub(crate) fn sweep_one(&mut self)
        requires
            old(self).heap_wf(),
            old(self)@.phase == CollectionPhase::Sweeping,
            !old(self)@.finalizing,
            old(self)@.cursor < old(self)@.sweep_end,
        ensures
            final(self).heap_wf(),
            final(self)@ == old(self)@.swept_to((old(self)@.cursor + 1) as usize),
            forall|x: usize|
                final(self).payload(x) == if old(self)@.doomed(x) && x == old(self)@.cursor {
                    None
                } else {
                    old(self).payload(x)
                },
    {
        let ghost h = self@;
        let a = self.cursor;
        proof {
            invariants::lemma_sweep_step_inv(h);
            assert(h.obj_ok(a));
            assert(self.boxes@[a as int].wf());
        }
        if self.boxes[a].live && self.boxes[a].color == GcColor::White {
            let size = self.boxes[a].size;
            self.boxes[a].live = false;
            self.boxes[a].value = None;
            self.boxes[a].resurrected = false;
            self.boxes[a].cleanups = Ghost(1);
            self.metrics.freed_bytes = self.metrics.freed_bytes + size;
        } else {
            self.boxes[a].color = GcColor::White;
        }
        self.cursor = a + 1;
        proof {
            let g = h.swept_to((h.cursor + 1) as usize);
            assert(self@.objs =~= g.objs);
            assert(self@.metrics == g.metrics);
            assert(self@ == g);
            assert forall|i: int| 0 <= i < self.boxes@.len() implies (#[trigger] self.boxes@[i]).wf() by {
                assert(old(self).boxes@[i].wf());
            }
        }
    }

    /// Starts a cycle on a swept arena: turns to marking and shades the root
    /// object and the targets of the dynamic roots.
    pub(crate) fn begin_cycle(&mut self)
        requires
            old(self).heap_wf(),
            old(self)@.phase == CollectionPhase::Sweeping,
            !old(self)@.finalizing,
            old(self)@.cursor == old(self)@.sweep_end,
        ensures
            final(self).heap_wf(),
            old(self)@.begins_cycle(final(self)@),
            final(self)@.precise(),
            forall|x: usize| final(self).payload(x) == old(self).payload(x),
    {
        let ghost h0 = self@;
        proof {
            invariants::lemma_begin_marking_inv(h0);
            assert(self.boxes@[0].wf());
        }
        self.phase = CollectionPhase::Marking;
        self.metrics.allocated_bytes = 0;
        self.metrics.work_done = 0;
        self.boxes[0].color = GcColor::Gray;
        self.boxes[0].resurrected = false;
        self.gray.push(0);
        proof {
            assert(old(self)@.gray =~= Seq::<usize>::empty());
            assert(self@.gray =~= h0.begin_marking().gray);
            assert(self@.objs =~= h0.begin_marking().objs);
            assert(self@ == h0.begin_marking());
            assert forall|i: int| 0 <= i < self.boxes@.len() implies (#[trigger] self.boxes@[i]).wf() by {
                assert(old(self).boxes@[i].wf());
            }
            assert forall|a: usize| self@.valid(a) implies !(#[trigger] self@.objs[a as int]).resurrected by {
                assert(h0.obj_ok(a));
            }
        }
        let mut i: usize = 0;
        while i < self.roots.len()
            invariant
                i <= self@.roots.len(),
                self.inv(None, i as int),
                self@.phase == CollectionPhase::Marking,
                !self@.finalizing,
                h0.same_graph(self@),
                self@.metrics == (Metrics { allocated_bytes: 0, work_done: 0, ..h0.metrics }),
                forall|x: usize| self.payload(x) == old(self).payload(x),
                forall|a: usize|
                    self@.valid(a) ==> #[trigger] self@.color(a) == if self@.live(a)
                        && self@.is_root_below(i as int, a) {
                        GcColor::Gray
                    } else {
                        GcColor::White
                    },
                forall|a: usize| self@.valid(a) ==> !(#[trigger] self@.objs[a as int]).resurrected,
            decreases self@.roots.len() - i,
        {
            let ghost h = self@;
            match self.roots[i] {
                Some(a) => {
                    proof {
                        assert(h.slot_holds(i as int, a));
                    }
                    self.shade(a, Ghost(None), Ghost(i as int));
                    proof {
                        assert(self@ == h.shade(a));
                        assert forall|x: usize| h0.valid(x) implies #[trigger] h0.same_obj(
                            self@,
                            x,
                        ) by {
                            assert(h0.same_obj(h, x));
                        }
                    }
                },
                None => {},
            }
            proof {
                let g = self@;
                assert(g.roots == h.roots);
                invariants::lemma_rooted_next(g, i as int);
                assert forall|a: usize| g.valid(a) implies #[trigger] g.color(a) == if g.live(a)
                    && g.is_root_below(i + 1, a) {
                    GcColor::Gray
                } else {
                    GcColor::White
                } by {
                    assert(h.color(a) == if h.live(a) && h.is_root_below(i as int, a) {
                        GcColor::Gray
                    } else {
                        GcColor::White
                    });
                    if h.is_root_below(i as int, a) && a != 0 {
                        let j = choose|j: int| j < i && h.slot_holds(j, a);
                        assert(g.slot_holds(j, a));
                    }
                    if g.is_root_below(i + 1, a) && a != 0 {
                        let j = choose|j: int| j < i + 1 && g.slot_holds(j, a);
                        if j < i {
                            assert(h.slot_holds(j, a));
                        }
                    }
                    if g.roots[i as int] == Some(a) {
                        assert(g.slot_holds(i as int, a));
                    }
                }
            }
            i = i + 1;
        }
        proof {
            let g = self@;
            assert forall|a: usize| g.valid(a) implies #[trigger] g.color(a) == if g.live(a)
                && g.is_root(a) {
                GcColor::Gray
            } else {
                GcColor::White
            } by {
                assert(g.color(a) == if g.live(a) && g.is_root_below(i as int, a) {
                    GcColor::Gray
                } else {
                    GcColor::White
                });
                if g.is_root(a) && a != 0 {
                    let j = choose|j: int| g.slot_holds(j, a);
                    assert(g.slot_holds(j, a));
                }
            }
            assert forall|x: usize| #[trigger] g.shaded(x) implies g.is_root(x) by {
                assert(g.color(x) == if g.live(x) && g.is_root(x) {
                    GcColor::Gray
                } else {
                    GcColor::White
                });
            }
            invariants::lemma_roots_precise(g);
        }
    }

    /// Runs the sweep to the end of its range and starts the next cycle.
    /// Returns the number of allocations it swept.
    pub(crate) fn sweep_to_end(&mut self) -> (work: usize)
        requires
            old(self).heap_wf(),
            old(self)@.phase == CollectionPhase::Sweeping,
        ensures
            final(self).heap_wf(),
            old(self)@.leave_finalizing().swept_to(old(self)@.sweep_end).begins_cycle(
                final(self)@,
            ),
            final(self)@.precise(),
            work == old(self)@.sweep_end - old(self)@.cursor,
            forall|x: usize|
                final(self).payload(x) == if old(self)@.doomed(x) {
                    None
                } else {
                    old(self).payload(x)
                },
    {
        self.close_finalizing();
        let work = self.sweep_some(self.sweep_end - self.cursor);
        self.begin_cycle();
        work
    }

    /// Sweeps up to `budget` allocations, fewer if the sweep's range ends
    /// first. Returns the number it swept.
    pub(crate) fn sweep_some(&mut self, budget: usize) -> (work: usize)
        requires
            old(self).heap_wf(),
            old(self)@.phase == CollectionPhase::Sweeping,
            !old(self)@.finalizing,
        ensures
            final(self).heap_wf(),
            work == if budget < old(self)@.sweep_end - old(self)@.cursor {
                budget as int
            } else {
                old(self)@.sweep_end - old(self)@.cursor
            },
            final(self)@ == old(self)@.swept_to((old(self)@.cursor + work) as usize),
            forall|x: usize|
                final(self).payload(x) == if old(self)@.doomed(x) && x < old(self)@.cursor + work {
                    None
                } else {
                    old(self).payload(x)
                },
    {
        let ghost h0 = self@;
        let mut work: usize = 0;
        proof {
            invariants::lemma_swept_none(h0);
        }
        while work < budget && self.cursor < self.sweep_end
            invariant
                self.heap_wf(),
                work <= budget,
                self@.cursor == h0.cursor + work,
                self@.cursor <= h0.sweep_end,
                self@ == h0.swept_to(self@.cursor),
                h0.phase == CollectionPhase::Sweeping,
                !h0.finalizing,
                forall|x: usize|
                    #[trigger] self.payload(x) == if h0.doomed(x) && x < h0.cursor + work {
                        None
                    } else {
                        old(self).payload(x)
                    },
            decreases h0.sweep_end - self@.cursor,
        {
            let ghost h = self@;
            proof {
                invariants::lemma_swept_compose(h0, h.cursor, (h.cursor + 1) as usize);
                assert(h.doomed(h.cursor) == h0.doomed(h.cursor));
            }
            let ghost before = *self;
            self.sweep_one();
            proof {
                assert forall|x: usize|
                    #[trigger] self.payload(x) == if h0.doomed(x) && x < h0.cursor + work + 1 {
                        None
                    } else {
                        old(self).payload(x)
                    } by {
                    assert(self.payload(x) == if h.doomed(x) && x == h.cursor {
                        None
                    } else {
                        before.payload(x)
                    });
                    assert(before.payload(x) == if h0.doomed(x) && x < h0.cursor + work {
                        None
                    } else {
                        old(self).payload(x)
                    });
                }
            }
            work = work + 1;
        }
        work
    }

    /// Whether every strong pointer that `value` holds may be handed out.
    pub(crate) fn edges_usable(&self, value: &P) -> (ok: bool)
        ensures
            ok == self@.all_usable(value.edges()),
    {
        if !P::needs_trace() {
            proof {
                value.lemma_no_trace_no_edges();
            }
            return true;
        }
        let mut cc = Trace::new();
        value.trace(&mut cc);
        assert(cc.seen() =~= value.edges());
        let found = cc.into_found();
        let mut i: usize = 0;
        while i < found.len()
            invariant
                i <= found@.len(),
                found@.to_set() == value.edges(),
                forall|j: int| 0 <= j < i ==> self@.usable(#[trigger] found@[j]),
            decreases found@.len() - i,
        {
            if !self.is_usable(found[i]) {
                proof {
                    assert(found@.contains(found@[i as int]));
                }
                return false;
            }
            i = i + 1;
        }
        proof {
            assert forall|e: usize| value.edges().contains(e) implies self@.usable(e) by {
                assert(found@.to_set().contains(e));
                let j = choose|j: int| 0 <= j < found@.len() && found@[j] == e;
                assert(self@.usable(found@[j]));
            }
        }
        true
    }

    /// A new arena that holds `root` as its root object, at address 0, with
    /// `size` bytes accounted to it and `wakeup_amount` as the debt threshold.
    /// The root object may point to nothing but itself yet, or no arena is
    /// made.
    pub(crate) fn new(root: P, size: usize, wakeup_amount: usize) -> (r: Option<Mutation<P>>)
        ensures
            r is Some <==> root.edges().subset_of(set![0usize]),
            r matches Some(mc) ==> {
                &&& mc.wf()
                &&& mc@ == HeapView::initial(root.edges(), size, wakeup_amount)
                &&& mc.payload(0) == Some(root)
            },
    {
        let mut mc = Mutation {
            boxes: Vec::new(),
            gray: Vec::new(),
            roots: Vec::new(),
            phase: CollectionPhase::Marking,
            finalizing: false,
            cursor: 0,
            sweep_end: 0,
            metrics: Metrics {
                allocated_bytes: size,
                freed_bytes: 0,
                total_allocated: size,
                wakeup_amount,
                work_done: 0,
            },
        };
        let ghost edges = root.edges();
        let b = GcBox {
            live: true,
            needs_trace: P::needs_trace(),
            color: GcColor::Gray,
            size,
            resurrected: false,
            cleanups: Ghost(0),
            value: Some(root),
        };
        mc.boxes.push(b);
        mc.gray.push(0);
        proof {
            let h = HeapView::initial(edges, size, wakeup_amount);
            assert(mc@.objs =~= h.objs);
            assert(mc@.gray =~= h.gray);
            assert(mc@.roots =~= h.roots);
            assert(mc@ == h);
        }
        let ok = match &mc.boxes[0].value {
            Some(v) => mc.edges_usable(v),
            None => false,
        };
        proof {
            let h = mc@;
            assert(h.usable(0));
            assert(ok == h.all_usable(edges));
            if ok {
                assert forall|e: usize| edges.contains(e) implies set![0usize].contains(e) by {
                    assert(h.usable(e));
                }
                invariants::lemma_initial_inv(edges, size, wakeup_amount);
            } else {
                if edges.subset_of(set![0usize]) {
                    assert forall|e: usize| edges.contains(e) implies h.usable(e) by {
                        assert(set![0usize].contains(e));
                    }
                }
            }
        }
        if ok {
            Some(mc)
        } else {
            None
        }
    }

    /// Allocates `value`, with `size` bytes accounted to it, and returns a
    /// strong pointer to the allocation. While marking goes on the allocation
    /// is Gray, so that this pass cannot miss it; otherwise it is White.
    ///
    /// The allocation is refused if the value holds a strong pointer that may
    /// not be handed out, or if the counters or the table are full; the arena
    /// is then left as it was.
    pub fn allocate(&mut self, value: P, size: usize) -> (r: Result<Gc<P>, AllocError>)
        requires
            old(self).wf(),
        ensures
            final(self).wf(),
            match r {
                Ok(gc) => {
                    &&& old(self)@.alloc_error(value.edges(), size) is None
                    &&& gc.addr() == old(self)@.objs.len()
                    &&& final(self)@ == old(self)@.allocated(value.edges(), size)
                    &&& final(self).payload(gc.addr()) == Some(value)
                    &&& forall|x: usize| x != gc.addr() ==> final(self).payload(x) == old(self).payload(x)
                },
                Err(e) => {
                    &&& old(self)@.alloc_error(value.edges(), size) == Some(e)
                    &&& final(self)@ == old(self)@
                    &&& forall|x: usize| final(self).payload(x) == old(self).payload(x)
                },
            },
    {
        if !self.edges_usable(&value) {
            return Err(AllocError::InvalidPointer);
        }
        let n = self.boxes.len();
        if size > usize::MAX - self.metrics.total_allocated || n == usize::MAX {
            return Err(AllocError::OutOfMemory);
        }
        let ghost h = self@;
        let ghost edges = value.edges();
        proof {
            invariants::lemma_allocate_inv(h, edges, size);
        }
        let marking = self.phase == CollectionPhase::Marking;
        let b = GcBox {
            live: true,
            needs_trace: P::needs_trace(),
            color: if marking {
                GcColor::Gray
            } else {
                GcColor::White
            },
            size,
            resurrected: false,
            cleanups: Ghost(0),
            value: Some(value),
        };
        self.boxes.push(b);
        if marking {
            self.gray.push(n);
        }
        self.metrics.allocated_bytes = self.metrics.allocated_bytes + size;
        self.metrics.total_allocated = self.metrics.total_allocated + size;
        proof {
            assert(self@.objs =~= h.allocated(edges, size).objs);
            assert(self@ == h.allocated(edges, size));
            assert forall|i: int| 0 <= i < self.boxes@.len() implies (#[trigger] self.boxes@[i]).wf() by {
                if i < n {
                    assert(old(self).boxes@[i].wf());
                }
            }
        }
        Ok(Gc::from_ptr(n))
    }

    /// The write barrier: while marking goes on, a Black object is painted
    /// Gray again and put back on the worklist, so that what is written to it
    /// next is traced. Anything else is left as it is.
    pub fn write_barrier(&mut self, gc: Gc<P>)
        requires
            old(self).wf(),
        ensures
            final(self).wf(),
            final(self)@ == old(self)@.barrier(gc.addr()),
            forall|x: usize| final(self).payload(x) == old(self).payload(x),
    {
        let a = gc.as_ptr();
        let ghost h = self@;
        proof {
            invariants::lemma_barrier_inv(h, a);
        }
        if a < self.boxes.len() && self.boxes[a].live && self.phase == CollectionPhase::Marking
            && self.boxes[a].color == GcColor::Black {
            self.boxes[a].color = GcColor::Gray;
            self.boxes[a].resurrected = false;
            self.gray.push(a);
            proof {
                assert(self@.objs =~= h.barrier(a).objs);
                assert(self@ == h.barrier(a));
                assert forall|i: int| 0 <= i < self.boxes@.len() implies (#[trigger] self.boxes@[i]).wf() by {
                    assert(old(self).boxes@[i].wf());
                }
            }
        }
    }

    /// Replaces the payload that `gc` points to by `value` and returns the old
    /// payload. The write barrier runs on the object as part of the write.
    ///
    /// The write is refused if the object, or something that the value holds
    /// a strong pointer to, may not be handed out; the arena is then left as
    /// it was.
    pub fn replace(&mut self, gc: Gc<P>, value: P) -> (r: Result<P, WriteError>)
        requires
            old(self).wf(),
        ensures
            final(self).wf(),
            match r {
                Ok(before) => {
                    &&& old(self)@.write_error(gc.addr(), value.edges()) is None
                    &&& old(self).payload(gc.addr()) == Some(before)
                    &&& final(self)@ == old(self)@.written(gc.addr(), value.edges())
                    &&& final(self).payload(gc.addr()) == Some(value)
                    &&& forall|x: usize| x != gc.addr() ==> final(self).payload(x) == old(self).payload(x)
                },
                Err(e) => {
                    &&& old(self)@.write_error(gc.addr(), value.edges()) == Some(e)
                    &&& final(self)@ == old(self)@
                    &&& forall|x: usize| final(self).payload(x) == old(self).payload(x)
                },
            },
    {
        let a = gc.as_ptr();
        if !self.is_usable(a) {
            return Err(WriteError::InvalidTarget);
        }
        if !self.edges_usable(&value) {
            return Err(WriteError::InvalidPointer);
        }
        let ghost h = self@;
        let ghost edges = value.edges();
        proof {
            invariants::lemma_write_inv(h, a, edges);
            assert(self.boxes@[a as int].wf());
        }
        self.write_barrier(gc);
        let ghost mid = self.boxes@;
        let before = self.boxes[a].value.take();
        self.boxes[a].value = Some(value);
        proof {
            assert(self@.objs =~= h.written(a, edges).objs);
            assert(self@ == h.written(a, edges));
            assert forall|i: int| 0 <= i < self.boxes@.len() implies (#[trigger] self.boxes@[i]).wf() by {
                assert(mid[i].wf());
            }
        }
        Ok(before.unwrap())
    }

    /// Makes `a` a dynamic root, in the first empty slot of the set or in a
    /// new one, and returns the slot. Nothing is done and nothing returned if
    /// `a` may not be handed out.
    pub(crate) fn add_root(&mut self, a: usize) -> (r: Option<usize>)
        requires
            old(self).wf(),
        ensures
            final(self).wf(),
            r is Some <==> old(self)@.usable(a),
            r matches Some(i) ==> old(self)@.free_slot(i as int) && final(self)@ == old(self)@.stashed(
                i as int,
                a,
            ),
            r is None ==> final(self)@ == old(self)@,
            forall|x: usize| final(self).payload(x) == old(self).payload(x),
    {
        if !self.is_usable(a) {
            return None;
        }
        let ghost h = self@;
        let mut i: usize = 0;
        while i < self.roots.len() && self.roots[i].is_some()
            invariant
                i <= self.roots@.len(),
                self@ == h,
                h.slots_taken(i as int),
            decreases self.roots@.len() - i,
        {
            i = i + 1;
        }
        proof {
            invariants::lemma_stash_inv(h, i as int, a);
        }
        if self.phase == CollectionPhase::Marking {
            self.shade(a, Ghost(None), Ghost(h.roots.len() as int));
        }
        let ghost mid = self.boxes@;
        if i < self.roots.len() {
            self.roots[i] = Some(a);
        } else {
            self.roots.push(Some(a));
        }
        proof {
            assert(self@.objs =~= h.stashed(i as int, a).objs);
            assert(self@.roots =~= h.stashed(i as int, a).roots);
            assert(self@ == h.stashed(i as int, a));
            assert forall|k: int| 0 <= k < self.boxes@.len() implies (#[trigger] self.boxes@[k]).wf() by {
                assert(mid[k].wf());
            }
        }
        Some(i)
    }

    /// Whether slot `i` of the dynamic root set holds `a`.
    pub(crate) fn root_holds(&self, i: usize, a: usize) -> (b: bool)
        ensures
            b == self@.slot_holds(i as int, a),
    {
        if i >= self.roots.len() {
            return false;
        }
        match self.roots[i] {
            Some(x) => x == a,
            None => false,
        }
    }

    /// Empties every slot of the dynamic root set.
    pub(crate) fn clear_roots(&mut self)
        requires
            old(self).wf(),
        ensures
            final(self).wf(),
            final(self)@ == old(self)@.cleared(old(self)@.roots.len() as int),
            forall|x: usize| final(self).payload(x) == old(self).payload(x),
    {
        let ghost h = self@;
        let mut i: usize = 0;
        proof {
            assert(h.cleared(0).roots =~= h.roots);
        }
        while i < self.roots.len()
            invariant
                i <= h.roots.len(),
                self.wf(),
                self@ == h.cleared(i as int),
                forall|x: usize| self.payload(x) == old(self).payload(x),
            decreases h.roots.len() - i,
        {
            self.remove_root(i);
            proof {
                assert(self@.roots =~= h.cleared(i + 1).roots);
            }
            i = i + 1;
        }
    }

    /// Empties slot `i` of the dynamic root set.
    pub(crate) fn remove_root(&mut self, i: usize)
        requires
            old(self).wf(),
            i < old(self)@.roots.len(),
        ensures
            final(self).wf(),
            final(self)@ == old(self)@.released(i as int),
            forall|x: usize| final(self).payload(x) == old(self).payload(x),
    {
        let ghost h = self@;
        proof {
            invariants::lemma_release_inv(h, i as int);
        }
        self.roots[i] = None;
        proof {
            assert(self@.objs =~= h.objs);
            assert(self@.roots =~= h.released(i as int).roots);
            assert(self@ == h.released(i as int));
        }
    }

    /// Ends marking once the worklist is empty: opens the finalizing pass and
    /// sets the sweep to cover the whole table.
    pub(crate) fn enter_finalizing(&mut self, Ghost(h0): Ghost<HeapView>)
        requires
            old(self).heap_wf(),
            old(self)@.phase == CollectionPhase::Marking,
            old(self)@.gray.len() == 0,
            h0.marks_to(old(self)@),
        ensures
            final(self).heap_wf(),
            final(self)@ == old(self)@.enter_finalizing(),
            h0.marks_to(final(self)@),
            h0.marked_out(final(self)@),
            forall|x: usize| final(self).payload(x) == old(self).payload(x),
    {
        let ghost h1 = self@;
        let n = self.boxes.len();
        proof {
            invariants::lemma_enter_finalizing_inv(h1);
            assert forall|a: usize| h1.valid(a) implies #[trigger] h1.color(a) == if h0.marked(a) {
                GcColor::Black
            } else {
                GcColor::White
            } by {
                invariants::lemma_marking_done(h0, h1, a);
            }
        }
        self.phase = CollectionPhase::Sweeping;
        self.finalizing = true;
        self.cursor = 0;
        self.sweep_end = n;
        proof {
            assert(self@.objs =~= h1.objs);
            assert(self@ == h1.enter_finalizing());
            assert forall|a: usize| self@.valid(a) implies #[trigger] self@.color(a) == if h0.marked(
                a,
            ) {
                GcColor::Black
            } else {
                GcColor::White
            } by {
                assert(self@.color(a) == h1.color(a));
            }
            assert forall|a: usize| h0.valid(a) implies #[trigger] h0.same_obj(self@, a) by {
                assert(h0.same_obj(h1, a));
            }
            assert forall|a: usize| #[trigger] h0.shaded(a) implies self@.shaded(a) by {
                assert(h1.shaded(a));
            }
            assert forall|a: usize| #[trigger] self@.shaded(a) implies h0.marked(a) by {
                assert(h1.shaded(a));
            }
        }
    }

    /// Counts `n` more units of work, up to what the counter can hold.
    pub(crate) fn add_work(&mut self, n: usize)
        requires
            old(self).heap_wf(),
        ensures
            final(self).heap_wf(),
            final(self)@ == old(self)@.worked(n),
            forall|x: usize| final(self).payload(x) == old(self).payload(x),
    {
        let ghost h = self@;
        if n > usize::MAX - self.metrics.work_done {
            self.metrics.work_done = usize::MAX;
        } else {
            self.metrics.work_done = self.metrics.work_done + n;
        }
        proof {
            let g = h.worked(n);
            assert(self@.objs =~= h.objs);
            assert(self@ == g);
            invariants::lemma_metrics_inv(h, g);
        }
    }

    /// Runs the collector for up to `budget` units of work and returns the
    /// units spent.
    pub(crate) fn step(&mut self, budget: usize) -> (work: usize)
        requires
            old(self).heap_wf(),
        ensures
            final(self).heap_wf(),
            work <= budget,
            old(self)@.steps_to(final(self)@, budget, work),
            forall|x: usize|
                #[trigger] final(self).payload(x) == if final(self)@.live(x) {
                    old(self).payload(x)
                } else {
                    None
                },
    {
        let ghost h0 = self@;
        proof {
            self.lemma_wf();
        }
        self.close_finalizing();
        let ghost h = self@;
        if self.phase == CollectionPhase::Marking {
            let mut work: usize = 0;
            proof {
                reach::lemma_marks_to_refl(h);
            }
            while work < budget && self.gray.len() > 0
                invariant
                    self.heap_wf(),
                    h.marks_to(self@),
                    self@.phase == CollectionPhase::Marking,
                    !self@.finalizing,
                    self@.metrics == h.metrics,
                    self@.cursor == h.cursor,
                    self@.sweep_end == h.sweep_end,
                    forall|x: usize| self.payload(x) == old(self).payload(x),
                    work + self@.unmarked() == h.unmarked(),
                    work <= budget,
                decreases budget - work,
            {
                let ghost k = self@;
                self.mark_one();
                proof {
                    reach::lemma_marks_to_trans(h, k, self@);
                }
                work = work + 1;
            }
            if self.gray.len() == 0 {
                self.enter_finalizing(Ghost(h));
            }
            let ghost k = self@;
            self.add_work(work);
            proof {
                let g = self@;
                assert(h0.objs == h.objs);
                invariants::lemma_marks_from(h0, h, k, g);
                if g.phase == CollectionPhase::Sweeping {
                    assert forall|a: usize| g.valid(a) implies #[trigger] g.color(a) == if h0.marked(
                        a,
                    ) {
                        GcColor::Black
                    } else {
                        GcColor::White
                    } by {
                        assert(k.color(a) == if h.marked(a) {
                            GcColor::Black
                        } else {
                            GcColor::White
                        });
                        invariants::lemma_marked_same(h0, h, a);
                    }
                }
                self.lemma_wf();
            }
            work
        } else {
            let work = self.sweep_some(budget);
            if self.cursor == self.sweep_end {
                self.begin_cycle();
            } else {
                self.add_work(work);
            }
            proof {
                self.lemma_wf();
            }
            work
        }
    }
}

/// The capability handed out while the finalizing pass is open.
///
/// Marking has ended and nothing has been swept yet. The host may ask of any
/// object whether marking left it dead, and bring dead objects back; it cannot
/// allocate or write.
pub struct Finalization<P> {
    pub(crate) mc: Mutation<P>,
}

impl<P: Collect> View for Finalization<P> {
    type V = HeapView;

    closed spec fn view(&self) -> HeapView {
        self.mc@
    }
}

impl<P: Collect> Finalization<P> {
    /// The payload held at `a`, if `a` is the address of a live allocation.
    pub closed spec fn payload(&self, a: usize) -> Option<P> {
        self.mc.payload(a)
    }

    /// The arena's invariant.
    pub closed spec fn heap_wf(&self) -> bool {
        self.mc.heap_wf()
    }

    /// What holds of the capability whenever the host has it: the arena's
    /// invariant, with the finalizing pass open.
    pub open spec fn wf(&self) -> bool {
        self.heap_wf() && self@.finalizing
    }

    /// The capability over the arena's state.
    pub(crate) fn wrap(mc: Mutation<P>) -> (fc: Finalization<P>)
        ensures
            fc@ == mc@,
            fc.heap_wf() == mc.heap_wf(),
            forall|x: usize| fc.payload(x) == mc.payload(x),
    {
        Finalization { mc }
    }

    /// The arena's state, to change.
    pub(crate) fn inner_mut(&mut self) -> (mc: &mut Mutation<P>)
        ensures
            mc@ == old(self)@,
            mc.heap_wf() == old(self).heap_wf(),
            forall|x: usize| mc.payload(x) == old(self).payload(x),
            final(self)@ == final(mc)@,
            final(self).heap_wf() == final(mc).heap_wf(),
            forall|x: usize| final(self).payload(x) == final(mc).payload(x),
    {
        &mut self.mc
    }

    /// An arena's state is well formed only if its model is, and an
    /// allocation is live exactly if it holds a payload.
    pub proof fn lemma_wf(&self)
        requires
            self.heap_wf(),
        ensures
            self@.wf(),
            forall|a: usize|
                self@.valid(a) ==> self@.objs[a as int].live == (#[trigger] self.payload(
                    a,
                )).is_some(),
            forall|a: usize| !self@.valid(a) ==> (#[trigger] self.payload(a)).is_none(),
    {
        self.mc.lemma_wf();
    }

    /// The arena's state, to read from.
    pub fn as_mutation(&self) -> (mc: &Mutation<P>)
        ensures
            mc@ == self@,
            mc.heap_wf() == self.heap_wf(),
            forall|x: usize| mc.payload(x) == self.payload(x),
    {
        &self.mc
    }

    /// Whether `a` was dead when the finalizing pass began: dropped, or left
    /// White by the marking that ended.
    pub(crate) fn is_dead(&self, a: usize) -> (b: bool)
        ensures
            b == self@.dead(a),
    {
        if a >= self.mc.boxes.len() {
            return true;
        }
        self.mc.boxes[a].color == GcColor::White || self.mc.boxes[a].resurrected
    }

    /// Brings the live object at `a` back: turns the collector to marking,
    /// and paints the object, if it is White, Gray. Returns false, and does
    /// nothing, if there is no live object at `a`.
    pub(crate) fn resurrect(&mut self, a: usize) -> (b: bool)
        requires
            old(self).wf(),
        ensures
            final(self).wf(),
            b == old(self)@.live(a),
            b ==> final(self)@ == old(self)@.resurrected(a),
            !b ==> final(self)@ == old(self)@,
            forall|x: usize| final(self).payload(x) == old(self).payload(x),
    {
        if a >= self.mc.boxes.len() || !self.mc.boxes[a].live {
            return false;
        }
        let ghost h = self@;
        proof {
            invariants::lemma_resurrect_inv(h, a);
        }
        self.mc.phase = CollectionPhase::Marking;
        if self.mc.boxes[a].color == GcColor::White {
            self.mc.boxes[a].color = GcColor::Gray;
            self.mc.boxes[a].resurrected = true;
            self.mc.gray.push(a);
        }
        proof {
            assert(self@.objs =~= h.resurrected(a).objs);
            assert(self@.gray =~= h.resurrected(a).gray);
            assert(self@ == h.resurrected(a));
            assert forall|i: int| 0 <= i < self.mc.boxes@.len() implies (#[trigger] self.mc.boxes@[i]).wf() by {
                assert(old(self).mc.boxes@[i].wf());
            }
        }
        true
    }
}

} // verus!
