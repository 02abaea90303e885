//! The mathematical model of an arena: what every contract of the collector
//! speaks of.

use vstd::prelude::*;
use crate::dmm::metrics::Metrics;

verus! {

/// The mark colour of an allocation.
///
/// White is not yet found reachable in this cycle, Gray is found reachable
/// with its own fields still to be traced, Black is found reachable and
/// traced.
#[derive(Debug, Clone, Copy, PartialEq, Eq, Structural)]
pub enum GcColor {
    White,
    Gray,
    Black,
}

/// The phase of the collector. Finalizing is a part of `Sweeping`, told apart
/// by a flag of its own.
#[derive(Debug, Clone, Copy, PartialEq, Eq, Structural)]
pub enum CollectionPhase {
    Marking,
    Sweeping,
}

/// Why an allocation was refused.
#[derive(Debug, Clone, Copy, PartialEq, Eq, Structural)]
pub enum AllocError {
    /// The value holds a strong pointer to something that is dropped, about
    /// to be dropped, or not of this arena.
    InvalidPointer,
    /// The counters or the table cannot hold another allocation of that size.
    OutOfMemory,
}

/// Why a write was refused.
#[derive(Debug, Clone, Copy, PartialEq, Eq, Structural)]
pub enum WriteError {
    /// The object to write to is dropped, about to be dropped, or not of this
    /// arena.
    InvalidTarget,
    /// The value holds a strong pointer to something that is dropped, about
    /// to be dropped, or not of this arena.
    InvalidPointer,
}

/// What the model knows of one allocation.
pub struct ObjView {
    /// The payload has not been dropped.
    pub live: bool,
    pub color: GcColor,
    /// Bytes accounted to the allocation.
    pub size: usize,
    /// Brought back during the current finalizing pass and not traced since.
    pub resurrected: bool,
    /// How often the payload's cleanup has run.
    pub cleanups: nat,
    /// The addresses that the payload holds strong pointers to.
    pub edges: Set<usize>,
}

/// The model of an arena.
pub struct HeapView {
    /// The allocation table; an address is an index into it. Address 0 is the
    /// root object.
    pub objs: Seq<ObjView>,
    /// The worklist of Gray objects.
    pub gray: Seq<usize>,
    /// The slots of the dynamic root set; an empty slot roots nothing.
    pub roots: Seq<Option<usize>>,
    pub phase: CollectionPhase,
    /// The finalizing pass is open.
    pub finalizing: bool,
    /// The sweep has handled the addresses below `cursor`.
    pub cursor: usize,
    /// The sweep handles the addresses below `sweep_end` and no others.
    pub sweep_end: usize,
    pub metrics: Metrics,
}

/// The sum of the weights of the allocations of a table.
pub open spec fn weight_sum(objs: Seq<ObjView>, w: spec_fn(ObjView) -> nat) -> nat
    decreases objs.len(),
{
    if objs.len() == 0 {
        0
    } else {
        weight_sum(objs.drop_last(), w) + w(objs.last())
    }
}

/// The weight that counts the allocations that are not Black.
pub open spec fn unmarked_weight() -> spec_fn(ObjView) -> nat {
    |o: ObjView|
        if o.color != GcColor::Black {
            1nat
        } else {
            0nat
        }
}

/// The weight that sums the bytes of the live allocations.
pub open spec fn live_weight() -> spec_fn(ObjView) -> nat {
    |o: ObjView|
        if o.live {
            o.size as nat
        } else {
            0nat
        }
}

/// What the sweep makes of an allocation: a live White one is dropped, its
/// cleanup run once; any other is White afterwards.
pub open spec fn swept_obj(o: ObjView) -> ObjView {
    if o.live && o.color == GcColor::White {
        ObjView {
            live: false,
            color: GcColor::White,
            size: o.size,
            resurrected: false,
            cleanups: o.cleanups + 1,
            edges: Set::empty(),
        }
    } else {
        ObjView { color: GcColor::White, ..o }
    }
}

impl HeapView {
    /// The number of allocations that are not Black.
    pub open spec fn unmarked(self) -> nat {
        weight_sum(self.objs, unmarked_weight())
    }

    /// The bytes held by live allocations.
    pub open spec fn live_bytes(self) -> nat {
        weight_sum(self.objs, live_weight())
    }

    /// `a` is an address of the table.
    pub open spec fn valid(self, a: usize) -> bool {
        a < self.objs.len()
    }

    /// `a` holds a payload that has not been dropped.
    pub open spec fn live(self, a: usize) -> bool {
        self.valid(a) && self.objs[a as int].live
    }

    pub open spec fn color(self, a: usize) -> GcColor {
        self.objs[a as int].color
    }

    /// The payload at `a` holds a strong pointer to `e`.
    pub open spec fn edge(self, a: usize, e: usize) -> bool {
        self.valid(a) && self.objs[a as int].edges.contains(e)
    }

    /// `a` was found unreachable by the marking that ended, and the sweep has
    /// not reached it yet.
    pub open spec fn doomed(self, a: usize) -> bool {
        &&& self.live(a)
        &&& self.phase == CollectionPhase::Sweeping
        &&& self.color(a) == GcColor::White
        &&& self.cursor <= a < self.sweep_end
    }

    /// `a` is live and the collector has not decided to drop it: a strong
    /// pointer to it may be handed out.
    pub open spec fn usable(self, a: usize) -> bool {
        self.live(a) && !self.doomed(a)
    }

    /// `a` was White, or dropped, when the current finalizing pass began.
    pub open spec fn dead(self, a: usize) -> bool {
        !self.valid(a) || self.color(a) == GcColor::White || self.objs[a as int].resurrected
    }

    /// Slot `i` of the dynamic root set holds `a`.
    pub open spec fn slot_holds(self, i: int, a: usize) -> bool {
        0 <= i < self.roots.len() && self.roots[i] == Some(a)
    }

    /// `a` is the root object or held by a dynamic root.
    pub open spec fn is_root(self, a: usize) -> bool {
        a == 0 || exists|i: int| self.slot_holds(i, a)
    }

    /// `a` is the root object or held by one of the first `k` dynamic roots.
    pub open spec fn is_root_below(self, k: int, a: usize) -> bool {
        a == 0 || exists|i: int| i < k && self.slot_holds(i, a)
    }

    /// Every address of `s` may be handed out as a strong pointer.
    pub open spec fn all_usable(self, s: Set<usize>) -> bool {
        forall|e: usize| s.contains(e) ==> self.usable(e)
    }

    /// `p[i]` holds a strong pointer to `p[i + 1]`.
    pub open spec fn link(self, p: Seq<usize>, i: int) -> bool {
        self.edge(p[i], p[i + 1])
    }

    /// `p` is a chain of live objects, each holding a strong pointer to the
    /// next.
    pub open spec fn is_path(self, p: Seq<usize>) -> bool {
        &&& p.len() > 0
        &&& forall|i: int| 0 <= i < p.len() ==> self.live(#[trigger] p[i])
        &&& forall|i: int| 0 <= i < p.len() - 1 ==> #[trigger] self.link(p, i)
    }

    /// `p` is a path from `x` to `a`.
    pub open spec fn path_between(self, p: Seq<usize>, x: usize, a: usize) -> bool {
        self.is_path(p) && p[0] == x && p[p.len() - 1] == a
    }

    /// `a` can be reached from `x` along strong pointers through live objects.
    pub open spec fn reach_from(self, x: usize, a: usize) -> bool {
        exists|p: Seq<usize>| self.path_between(p, x, a)
    }

    /// `a` can be reached from the root object or a dynamic root.
    #[verifier::opaque]
    pub open spec fn reachable(self, a: usize) -> bool {
        exists|r: usize| self.is_root(r) && #[trigger] self.reach_from(r, a)
    }

    /// `x` is live and Gray or Black.
    pub open spec fn shaded(self, x: usize) -> bool {
        self.live(x) && self.color(x) != GcColor::White
    }

    /// `a` can be reached from an object that is Gray or Black: marking, left
    /// to run, will find it.
    #[verifier::opaque]
    pub open spec fn marked(self, a: usize) -> bool {
        exists|x: usize| self.shaded(x) && #[trigger] self.reach_from(x, a)
    }

    /// `a` outlives the cycle that the collector is in, if the cycle is run to
    /// its end at once: while marking, it can be reached from a Gray or Black
    /// object; while sweeping, it is live and not about to be dropped.
    pub open spec fn survives(self, a: usize) -> bool {
        if self.phase == CollectionPhase::Marking {
            self.marked(a)
        } else {
            self.usable(a)
        }
    }

    /// What the end of the cycle makes of the allocation at `a`: one that
    /// outlives the cycle is kept as it is, any other is dropped, its cleanup
    /// run if it was live.
    pub open spec fn outcome(self, g: HeapView, a: usize) -> bool {
        let o = g.objs[a as int];
        let n = self.objs[a as int];
        if self.survives(a) {
            o.live && o.edges == n.edges && o.size == n.size && o.cleanups == 0
        } else {
            !o.live && o.cleanups == 1 && n.cleanups == if n.live {
                0nat
            } else {
                1nat
            }
        }
    }

    /// `g` is what running the cycle of `self` to its end at once, and
    /// starting the next, makes of `self`: exactly the objects that outlive
    /// the cycle are left, the root object and the targets of the dynamic
    /// roots Gray and all else White.
    pub open spec fn collects_to(self, g: HeapView) -> bool {
        &&& g.objs.len() == self.objs.len()
        &&& g.roots == self.roots
        &&& g.phase == CollectionPhase::Marking
        &&& !g.finalizing
        &&& g.metrics == (Metrics {
            allocated_bytes: 0,
            work_done: 0,
            freed_bytes: (self.metrics.total_allocated - g.live_bytes()) as usize,
            ..self.metrics
        })
        &&& forall|a: usize| self.valid(a) ==> #[trigger] self.outcome(g, a)
        &&& forall|a: usize|
            g.valid(a) ==> #[trigger] g.color(a) == if g.live(a) && g.is_root(a) {
                GcColor::Gray
            } else {
                GcColor::White
            }
        &&& forall|a: usize| g.valid(a) ==> !(#[trigger] g.objs[a as int]).resurrected
    }

    /// Only what the roots reach has been shaded: marking so far has kept
    /// nothing alive that the roots do not reach.
    pub open spec fn precise(self) -> bool {
        forall|x: usize| #[trigger] self.shaded(x) ==> self.reachable(x)
    }

    /// No Black object holds a strong pointer to a White one.
    pub open spec fn tricolor(self) -> bool {
        forall|a: usize, e: usize|
            #[trigger] self.edge(a, e) && self.live(a) && self.color(a) == GcColor::Black
                ==> self.color(e) != GcColor::White
    }

    /// What holds of each allocation by itself.
    pub open spec fn obj_ok(self, a: usize) -> bool {
        let o = self.objs[a as int];
        &&& !o.live ==> o.color == GcColor::White && o.edges == Set::<usize>::empty() && o.cleanups
            == 1
        &&& o.live ==> o.cleanups == 0
        &&& o.resurrected ==> o.live && o.color == GcColor::Gray
        &&& self.phase == CollectionPhase::Sweeping ==> o.color != GcColor::Gray
        &&& self.phase == CollectionPhase::Sweeping && (a < self.cursor || a >= self.sweep_end)
            ==> o.color == GcColor::White
    }

    /// The worklist holds each Gray object once and nothing else, but for
    /// `pending`, which has been taken off it to be traced.
    pub open spec fn gray_ok(self, pending: Option<usize>) -> bool {
        &&& forall|i: int|
            0 <= i < self.gray.len() ==> self.live(#[trigger] self.gray[i]) && self.color(
                self.gray[i],
            ) == GcColor::Gray && Some(self.gray[i]) != pending
        &&& forall|i: int, j: int|
            0 <= i < j < self.gray.len() ==> #[trigger] self.gray[i] != #[trigger] self.gray[j]
        &&& forall|a: usize|
            #[trigger] self.live(a) && self.color(a) == GcColor::Gray && Some(a) != pending
                ==> self.gray.contains(a)
        &&& pending matches Some(a) ==> self.live(a) && self.color(a) == GcColor::Gray
    }

    /// A live object's strong pointers lead to live objects.
    pub open spec fn closed_live(self) -> bool {
        forall|a: usize, e: usize| #[trigger] self.edge(a, e) && self.live(a) ==> self.live(e)
    }

    /// An object that may be handed out holds strong pointers only to such
    /// objects.
    pub open spec fn closed_usable(self) -> bool {
        forall|a: usize, e: usize| #[trigger] self.edge(a, e) && self.usable(a) ==> self.usable(e)
    }

    /// The invariant of an arena while `pending`, if any, is being traced, and
    /// while only the first `rooted` dynamic roots are known to be shaded.
    pub open spec fn inv(self, pending: Option<usize>, rooted: int) -> bool {
        &&& self.objs.len() >= 1
        &&& self.usable(0)
        &&& self.cursor <= self.sweep_end <= self.objs.len()
        &&& self.metrics.wf()
        &&& self.metrics.total_allocated - self.metrics.freed_bytes == self.live_bytes()
        &&& forall|a: usize| self.valid(a) ==> #[trigger] self.obj_ok(a)
        &&& self.gray_ok(pending)
        &&& forall|i: int, a: usize| #[trigger] self.slot_holds(i, a) ==> self.usable(a)
        &&& self.phase == CollectionPhase::Marking ==> {
            &&& self.closed_live()
            &&& forall|a: usize, e: usize|
                #[trigger] self.edge(a, e) && self.live(a) && self.color(a) == GcColor::Black
                    && Some(a) != pending ==> self.color(e) != GcColor::White
            &&& self.color(0) != GcColor::White
            &&& forall|i: int, a: usize|
                #[trigger] self.slot_holds(i, a) && i < rooted ==> self.color(a) != GcColor::White
        }
        &&& self.phase == CollectionPhase::Sweeping ==> {
            &&& self.gray.len() == 0
            &&& pending is None
            &&& rooted == self.roots.len()
            &&& self.closed_usable()
        }
        &&& self.finalizing ==> {
            &&& self.closed_live()
            &&& self.cursor == 0
            &&& self.sweep_end == self.objs.len()
        }
    }

    /// The invariant of an arena between operations.
    pub open spec fn wf(self) -> bool {
        self.inv(None, self.roots.len() as int)
    }

    /// The allocation at `a` is as live and as large in `g` as in `self`, and
    /// has the same strong pointers.
    pub open spec fn same_obj(self, g: HeapView, a: usize) -> bool {
        let o = g.objs[a as int];
        let n = self.objs[a as int];
        o.live == n.live && o.edges == n.edges && o.size == n.size && o.cleanups == n.cleanups
    }

    /// `g` has the allocations of `self`, each as live, as large and with the
    /// strong pointers it has in `self`, and the same dynamic roots.
    pub open spec fn same_graph(self, g: HeapView) -> bool {
        &&& g.objs.len() == self.objs.len()
        &&& g.roots == self.roots
        &&& forall|a: usize| self.valid(a) ==> #[trigger] self.same_obj(g, a)
    }

    /// `g` is what marking can make of `self`: the same graph, in which every
    /// object shaded in `self` is still shaded, and nothing is shaded that
    /// could not be reached from an object shaded in `self`.
    pub open spec fn marks_to(self, g: HeapView) -> bool {
        &&& self.same_graph(g)
        &&& forall|a: usize| #[trigger] self.shaded(a) ==> g.shaded(a)
        &&& forall|a: usize| #[trigger] g.shaded(a) ==> self.marked(a)
    }

    /// No live object is Gray.
    pub open spec fn no_gray(self) -> bool {
        forall|a: usize| #[trigger] self.live(a) ==> self.color(a) != GcColor::Gray
    }

    /// The model with the allocation at `a` replaced by `o`.
    pub open spec fn with_obj(self, a: usize, o: ObjView) -> HeapView {
        HeapView { objs: self.objs.update(a as int, o), ..self }
    }

    /// The model with the allocation at `a` painted `c`.
    pub open spec fn paint(self, a: usize, c: GcColor) -> HeapView {
        self.with_obj(a, ObjView { color: c, resurrected: false, ..self.objs[a as int] })
    }

    /// The model with `a` put on the worklist.
    pub open spec fn push_gray(self, a: usize) -> HeapView {
        HeapView { gray: self.gray.push(a), ..self }
    }

    /// The model with the last entry taken off the worklist.
    pub open spec fn pop_gray(self) -> HeapView {
        HeapView { gray: self.gray.drop_last(), ..self }
    }

    /// The model of a new arena: the root object alone, Gray and on the
    /// worklist, at the start of a marking pass.
    pub open spec fn initial(edges: Set<usize>, size: usize, wakeup_amount: usize) -> HeapView {
        HeapView {
            objs: seq![
                ObjView {
                    live: true,
                    color: GcColor::Gray,
                    size,
                    resurrected: false,
                    cleanups: 0,
                    edges,
                },
            ],
            gray: seq![0usize],
            roots: Seq::empty(),
            phase: CollectionPhase::Marking,
            finalizing: false,
            cursor: 0,
            sweep_end: 0,
            metrics: Metrics {
                allocated_bytes: size,
                freed_bytes: 0,
                total_allocated: size,
                wakeup_amount,
                work_done: 0,
            },
        }
    }

    /// The model once marking has ended: the finalizing pass is open, and the
    /// sweep is set to cover the whole table.
    pub open spec fn enter_finalizing(self) -> HeapView {
        HeapView {
            phase: CollectionPhase::Sweeping,
            finalizing: true,
            cursor: 0,
            sweep_end: self.objs.len() as usize,
            ..self
        }
    }

    /// The model at the start of a cycle, before the dynamic roots are shaded:
    /// marking, the root object Gray, the debt and the work of the cycle reset.
    pub open spec fn begin_marking(self) -> HeapView {
        HeapView {
            phase: CollectionPhase::Marking,
            metrics: Metrics { allocated_bytes: 0, work_done: 0, ..self.metrics },
            ..self
        }.paint(0, GcColor::Gray).push_gray(0)
    }

    /// The model with the finalizing pass closed.
    pub open spec fn leave_finalizing(self) -> HeapView {
        HeapView { finalizing: false, ..self }
    }

    /// The table after the sweep has moved on to `c`.
    pub open spec fn swept_objs(self, c: usize) -> Seq<ObjView> {
        Seq::new(
            self.objs.len(),
            |i: int|
                if self.cursor <= i < c {
                    swept_obj(self.objs[i])
                } else {
                    self.objs[i]
                },
        )
    }

    /// The model after the sweep has moved on to `c`: the allocations it passed
    /// are swept, and the bytes of those it dropped are counted as freed.
    pub open spec fn swept_to(self, c: usize) -> HeapView {
        HeapView {
            objs: self.swept_objs(c),
            cursor: c,
            metrics: Metrics {
                freed_bytes: (self.metrics.total_allocated - weight_sum(
                    self.swept_objs(c),
                    live_weight(),
                )) as usize,
                ..self.metrics
            },
            ..self
        }
    }

    /// The model with `n` more units of work counted, up to what the counter
    /// can hold.
    pub open spec fn worked(self, n: usize) -> HeapView {
        HeapView {
            metrics: Metrics {
                work_done: if self.metrics.work_done + n > usize::MAX {
                    usize::MAX
                } else {
                    (self.metrics.work_done + n) as usize
                },
                ..self.metrics
            },
            ..self
        }
    }

    /// Every allocation of `g` is Black if marking, left to run on `self`,
    /// finds it, and White if not.
    pub open spec fn marked_out(self, g: HeapView) -> bool {
        forall|a: usize|
            g.valid(a) ==> #[trigger] g.color(a) == if self.marked(a) {
                GcColor::Black
            } else {
                GcColor::White
            }
    }

    /// Where the sweep stands after a step with `budget` units to spend.
    pub open spec fn sweep_target(self, budget: usize) -> usize {
        if budget < self.sweep_end - self.cursor {
            (self.cursor + budget) as usize
        } else {
            self.sweep_end
        }
    }

    /// `g` is what a step of the collector with `budget` units to spend can
    /// make of `self`, having spent `work` of them.
    ///
    /// A step closes the finalizing pass. While marking, it paints Black one
    /// Gray object per unit, after shading what the object points to; when the
    /// worklist runs empty marking has ended, and the step opens the
    /// finalizing pass and stops. While sweeping, it sweeps one allocation per
    /// unit; when the sweep has covered its range, the step starts the next
    /// cycle and stops.
    pub open spec fn steps_to(self, g: HeapView, budget: usize, work: usize) -> bool {
        let h = self.leave_finalizing();
        if self.phase == CollectionPhase::Marking {
            &&& self.marks_to(g)
            &&& work + g.unmarked() == self.unmarked()
            &&& g.metrics == h.worked(work).metrics
            &&& g.phase == CollectionPhase::Marking ==> {
                &&& !g.finalizing
                &&& work == budget
                &&& g.gray.len() > 0
                &&& g.cursor == self.cursor
                &&& g.sweep_end == self.sweep_end
            }
            &&& g.phase == CollectionPhase::Sweeping ==> {
                &&& g.finalizing
                &&& self.marked_out(g)
                &&& g.gray.len() == 0
            }
        } else {
            let c = self.sweep_target(budget);
            &&& work == c - self.cursor
            &&& c < self.sweep_end ==> g == h.swept_to(c).worked(work)
            &&& c == self.sweep_end ==> h.swept_to(c).begins_cycle(g) && g.precise()
        }
    }

    /// `g` is a fresh cycle begun on the graph of `self`: marking, with the
    /// root object and the targets of the dynamic roots Gray and all else
    /// White, the debt and the work of the cycle reset.
    pub open spec fn begins_cycle(self, g: HeapView) -> bool {
        &&& self.same_graph(g)
        &&& g.phase == CollectionPhase::Marking
        &&& !g.finalizing
        &&& g.metrics == (Metrics { allocated_bytes: 0, work_done: 0, ..self.metrics })
        &&& forall|a: usize|
            g.valid(a) ==> #[trigger] g.color(a) == if g.live(a) && g.is_root(a) {
                GcColor::Gray
            } else {
                GcColor::White
            }
        &&& forall|a: usize| g.valid(a) ==> !(#[trigger] g.objs[a as int]).resurrected
    }

    /// The counters and the table have room for an allocation of `size` bytes.
    pub open spec fn has_room(self, size: usize) -> bool {
        self.metrics.total_allocated + size <= usize::MAX && self.objs.len() < usize::MAX
    }

    /// How an allocation that holds the strong pointers `edges` and is
    /// accounted `size` bytes ends: with the error, if it is refused.
    pub open spec fn alloc_error(self, edges: Set<usize>, size: usize) -> Option<AllocError> {
        if !self.all_usable(edges) {
            Some(AllocError::InvalidPointer)
        } else if !self.has_room(size) {
            Some(AllocError::OutOfMemory)
        } else {
            None
        }
    }

    /// How a write of a value that holds the strong pointers `edges` to the
    /// object at `a` ends: with the error, if it is refused.
    pub open spec fn write_error(self, a: usize, edges: Set<usize>) -> Option<WriteError> {
        if !self.usable(a) {
            Some(WriteError::InvalidTarget)
        } else if !self.all_usable(edges) {
            Some(WriteError::InvalidPointer)
        } else {
            None
        }
    }

    /// The model after an allocation that holds the strong pointers `edges`
    /// and is accounted `size` bytes: it stands at the end of the table, Gray
    /// and on the worklist while marking, White otherwise.
    pub open spec fn allocated(self, edges: Set<usize>, size: usize) -> HeapView {
        let a = self.objs.len() as usize;
        let marking = self.phase == CollectionPhase::Marking;
        HeapView {
            objs: self.objs.push(
                ObjView {
                    live: true,
                    color: if marking {
                        GcColor::Gray
                    } else {
                        GcColor::White
                    },
                    size,
                    resurrected: false,
                    cleanups: 0,
                    edges,
                },
            ),
            gray: if marking {
                self.gray.push(a)
            } else {
                self.gray
            },
            metrics: Metrics {
                allocated_bytes: (self.metrics.allocated_bytes + size) as usize,
                total_allocated: (self.metrics.total_allocated + size) as usize,
                ..self.metrics
            },
            ..self
        }
    }

    /// Whether the write barrier has to paint `a` Gray again: it is Black
    /// while marking goes on.
    pub open spec fn needs_barrier(self, a: usize) -> bool {
        self.phase == CollectionPhase::Marking && self.color(a) == GcColor::Black
    }

    /// The model after the write barrier on `a`: a Black object of a marking
    /// arena is Gray again and back on the worklist.
    pub open spec fn barrier(self, a: usize) -> HeapView {
        if self.live(a) && self.needs_barrier(a) {
            self.paint(a, GcColor::Gray).push_gray(a)
        } else {
            self
        }
    }

    /// The model after the payload at `a` was replaced by one that holds the
    /// strong pointers `edges`, the write barrier run on `a`.
    pub open spec fn written(self, a: usize, edges: Set<usize>) -> HeapView {
        let g = self.barrier(a);
        g.with_obj(a, ObjView { edges, ..g.objs[a as int] })
    }

    /// The first `n` slots of the dynamic root set are taken.
    pub open spec fn slots_taken(self, n: int) -> bool {
        forall|j: int| 0 <= j < n ==> (#[trigger] self.roots[j]).is_some()
    }

    /// The slot that the next dynamic root takes: the first empty one, or a
    /// new one at the end.
    pub open spec fn free_slot(self, i: int) -> bool {
        &&& 0 <= i <= self.roots.len()
        &&& self.slots_taken(i)
        &&& i < self.roots.len() ==> self.roots[i].is_none()
    }

    /// The model after `a` was made a dynamic root in slot `i`, and shaded if
    /// marking goes on.
    pub open spec fn stashed(self, i: int, a: usize) -> HeapView {
        let g = if self.phase == CollectionPhase::Marking {
            self.shade(a)
        } else {
            self
        };
        HeapView {
            roots: if i < self.roots.len() {
                self.roots.update(i, Some(a))
            } else {
                self.roots.push(Some(a))
            },
            ..g
        }
    }

    /// The model after the first `n` slots of the dynamic root set were
    /// emptied.
    pub open spec fn cleared(self, n: int) -> HeapView {
        HeapView {
            roots: Seq::new(
                self.roots.len(),
                |i: int|
                    if i < n {
                        None
                    } else {
                        self.roots[i]
                    },
            ),
            ..self
        }
    }

    /// The model after slot `i` of the dynamic root set was emptied.
    pub open spec fn released(self, i: int) -> HeapView {
        HeapView { roots: self.roots.update(i, None), ..self }
    }

    /// The model after `a` was brought back in the finalizing pass: marking is
    /// on again, and `a`, if it was White, is Gray and on the worklist.
    pub open spec fn resurrected(self, a: usize) -> HeapView {
        let g = HeapView { phase: CollectionPhase::Marking, ..self };
        if self.color(a) == GcColor::White {
            g.with_obj(
                a,
                ObjView { color: GcColor::Gray, resurrected: true, ..self.objs[a as int] },
            ).push_gray(a)
        } else {
            g
        }
    }

    /// The model after `a` was found reachable: a live White object turns Gray
    /// and joins the worklist, anything else is left as it is.
    pub open spec fn shade(self, a: usize) -> HeapView {
        if self.live(a) && self.color(a) == GcColor::White {
            self.paint(a, GcColor::Gray).push_gray(a)
        } else {
            self
        }
    }
}

} // verus!
