//! What the collector guarantees of the objects it keeps and drops.

use vstd::prelude::*;
use crate::dmm::invariants;
use crate::dmm::metrics::{earned_work, lemma_earned_work_difference};
use crate::dmm::reach;
use crate::dmm::types::{CollectionPhase, GcColor, HeapView};

verus! {

/// While marking goes on, whatever the roots reach can be reached from a Gray
/// or Black object: marking, left to run, will find it.
pub proof fn lemma_reachable_marked(h: HeapView, a: usize)
    requires
        h.wf(),
        h.phase == CollectionPhase::Marking,
        h.reachable(a),
    ensures
        h.marked(a),
{
    reveal(HeapView::reachable);
    reveal(HeapView::marked);
    let r = choose|r: usize| h.is_root(r) && #[trigger] h.reach_from(r, a);
    if r != 0 {
        let i = choose|i: int| h.slot_holds(i, r);
        assert(h.slot_holds(i, r));
    }
    assert(h.shaded(r));
}

/// Marking soundness: once marking has run to its end, every object that the
/// roots reached is Black, so no White object is reachable.
pub proof fn lemma_marking_finds_reachable(h: HeapView, g: HeapView, a: usize)
    requires
        h.wf(),
        h.phase == CollectionPhase::Marking,
        h.marks_to(g),
        h.marked_out(g),
        h.reachable(a),
    ensures
        g.live(a),
        g.color(a) == GcColor::Black,
        g.reachable(a),
{
    lemma_reachable_marked(h, a);
    invariants::lemma_marked_live(h, a);
    assert(h.same_obj(g, a));
    assert(g.color(a) == GcColor::Black);
    lemma_same_graph_reachable(h, g, a);
}

/// Whether the roots reach an object depends on the graph and the dynamic
/// roots alone.
pub proof fn lemma_same_graph_reachable(h: HeapView, g: HeapView, a: usize)
    requires
        h.same_graph(g),
        h.reachable(a),
    ensures
        g.reachable(a),
{
    reveal(HeapView::reachable);
    let r = choose|r: usize| h.is_root(r) && #[trigger] h.reach_from(r, a);
    reach::lemma_same_graph_reach(h, g, r, a);
    if r != 0 {
        let i = choose|i: int| h.slot_holds(i, r);
        assert(g.slot_holds(i, r));
    }
    assert(g.is_root(r));
}

/// Marking keeps nothing alive that the roots do not reach, if it started
/// that way.
pub proof fn lemma_marking_stays_precise(h: HeapView, g: HeapView)
    requires
        h.precise(),
        h.marks_to(g),
    ensures
        g.precise(),
{
    assert forall|x: usize| #[trigger] g.shaded(x) implies g.reachable(x) by {
        assert(h.marked(x));
        reveal(HeapView::marked);
        reveal(HeapView::reachable);
        let y = choose|y: usize| h.shaded(y) && #[trigger] h.reach_from(y, x);
        assert(h.reachable(y));
        let r = choose|r: usize| h.is_root(r) && #[trigger] h.reach_from(r, y);
        reach::lemma_reach_trans(h, r, y, x);
        assert(h.reachable(x));
        lemma_same_graph_reachable(h, g, x);
    }
}

/// A cycle run from its start to its end at once keeps exactly what the roots
/// reach: every object that they reach is live afterwards, with the strong
/// pointers it had, and every live object that they do not reach is dropped,
/// its cleanup run once.
pub proof fn lemma_cycle_is_exact(h: HeapView, g: HeapView, a: usize)
    requires
        h.wf(),
        h.phase == CollectionPhase::Marking,
        h.precise(),
        h.collects_to(g),
        h.live(a),
    ensures
        h.reachable(a) ==> g.live(a) && g.objs[a as int].edges == h.objs[a as int].edges
            && g.objs[a as int].cleanups == 0,
        !h.reachable(a) ==> !g.live(a) && g.objs[a as int].cleanups == 1,
{
    reach::lemma_precise_marked(h, a);
    assert(h.outcome(g, a));
}

/// The sweep drops every object that was unreachable when sweeping began,
/// and runs its cleanup once, provided that marking had shaded nothing but
/// what the roots reach. It drops no object that was reachable then.
pub proof fn lemma_sweep_drops_unreachable(h: HeapView, g: HeapView, a: usize)
    requires
        h.wf(),
        h.phase == CollectionPhase::Sweeping,
        h.finalizing,
        h.precise(),
        h.collects_to(g),
        h.live(a),
    ensures
        !h.reachable(a) ==> !g.live(a) && g.objs[a as int].cleanups == 1,
        h.reachable(a) ==> g.live(a) && g.objs[a as int].cleanups == 0,
{
    assert(h.outcome(g, a));
    assert(h.obj_ok(a));
    if h.reachable(a) {
        reach::lemma_reachable_usable(h, a);
    } else {
        if h.shaded(a) {
            assert(h.reachable(a));
        }
    }
}

/// No object that the roots reach is dropped by running the cycle to its
/// end, in whatever state the arena is.
pub proof fn lemma_reachable_survives(h: HeapView, g: HeapView, a: usize)
    requires
        h.wf(),
        h.collects_to(g),
        h.reachable(a),
    ensures
        g.live(a),
        g.objs[a as int].edges == h.objs[a as int].edges,
{
    reach::lemma_reachable_usable(h, a);
    if h.phase == CollectionPhase::Marking {
        lemma_reachable_marked(h, a);
    }
    assert(h.outcome(g, a));
}

/// Resurrection: a live object brought back in the finalizing pass, and
/// everything it reaches at that time, are live when the cycle has been run
/// to its end, with the strong pointers they had.
pub proof fn lemma_resurrected_survives(h: HeapView, a: usize, g: HeapView, b: usize)
    requires
        h.wf(),
        h.finalizing,
        h.live(a),
        h.resurrected(a).reach_from(a, b),
        h.resurrected(a).collects_to(g),
    ensures
        g.live(b),
        g.objs[b as int].edges == h.objs[b as int].edges,
{
    let r = h.resurrected(a);
    invariants::lemma_resurrect_inv(h, a);
    assert(r.shaded(a));
    assert(r.marked(b)) by {
        reveal(HeapView::marked);
    }
    invariants::lemma_marked_live(r, b);
    assert(r.outcome(g, b));
    assert(h.same_obj(r, b));
}

/// The write barrier: a write through the barrier to an object of a marking
/// arena leaves no Black object pointing to a White one.
pub proof fn lemma_write_keeps_tricolor(h: HeapView, a: usize, edges: Set<usize>)
    requires
        h.wf(),
        !h.finalizing,
        h.phase == CollectionPhase::Marking,
        h.usable(a),
        h.all_usable(edges),
    ensures
        h.written(a, edges).wf(),
        h.written(a, edges).tricolor(),
{
    invariants::lemma_write_inv(h, a, edges);
    reach::lemma_wf_tricolor(h.written(a, edges));
}

/// The model after the first `n` of a sequence of writes, each given by the
/// object written to and the strong pointers of the value written; a write
/// that is refused changes nothing.
pub open spec fn after_writes(h: HeapView, writes: Seq<(usize, Set<usize>)>, n: int) -> HeapView
    decreases n,
{
    if n <= 0 {
        h
    } else {
        let before = after_writes(h, writes, n - 1);
        let write = writes[n - 1];
        if before.write_error(write.0, write.1) is None {
            before.written(write.0, write.1)
        } else {
            before
        }
    }
}

/// The write barrier, over time: whatever the host writes while marking goes
/// on, in whatever order, after each write no Black object points to a White
/// one.
pub proof fn lemma_writes_keep_tricolor(h: HeapView, writes: Seq<(usize, Set<usize>)>, n: int)
    requires
        h.wf(),
        !h.finalizing,
        h.phase == CollectionPhase::Marking,
        0 <= n <= writes.len(),
    ensures
        after_writes(h, writes, n).wf(),
        !after_writes(h, writes, n).finalizing,
        after_writes(h, writes, n).phase == CollectionPhase::Marking,
        after_writes(h, writes, n).tricolor(),
    decreases n,
{
    if n > 0 {
        lemma_writes_keep_tricolor(h, writes, n - 1);
        let before = after_writes(h, writes, n - 1);
        let write = writes[n - 1];
        if before.write_error(write.0, write.1) is None {
            lemma_write_keeps_tricolor(before, write.0, write.1);
            invariants::lemma_barrier_inv(before, write.0);
        }
    }
    reach::lemma_wf_tricolor(after_writes(h, writes, n));
}

/// An allocation made while marking goes on is Gray, so that the pass cannot
/// miss it; one made while the collector sweeps is White and out of the
/// sweep's range. Either way its address is new.
pub proof fn lemma_allocation_is_fresh(h: HeapView, edges: Set<usize>, size: usize)
    requires
        h.wf(),
        !h.finalizing,
        h.alloc_error(edges, size) is None,
    ensures
        !h.valid(h.objs.len() as usize),
        h.allocated(edges, size).usable(h.objs.len() as usize),
        h.allocated(edges, size).color(h.objs.len() as usize) == if h.phase
            == CollectionPhase::Marking {
            GcColor::Gray
        } else {
            GcColor::White
        },
        h.allocated(edges, size).tricolor() || h.phase != CollectionPhase::Marking,
{
    invariants::lemma_allocate_inv(h, edges, size);
    if h.phase == CollectionPhase::Marking {
        reach::lemma_wf_tricolor(h.allocated(edges, size));
    }
}

/// A step spends no more units of work than the arena has allocations: the
/// work of a step is bounded by the size of the graph, whatever its budget.
pub proof fn lemma_step_is_bounded(h: HeapView, g: HeapView, budget: usize, work: usize)
    requires
        h.wf(),
        h.steps_to(g, budget, work),
    ensures
        work <= h.objs.len(),
{
    if h.phase == CollectionPhase::Marking {
        invariants::lemma_unmarked_bound(h);
    }
}

/// The counters of bytes only grow: a step of the collector leaves the bytes
/// counted as allocated as they are, and takes nothing back from the bytes
/// counted as freed.
pub proof fn lemma_step_counters_grow(h: HeapView, g: HeapView, budget: usize, work: usize)
    requires
        h.wf(),
        h.steps_to(g, budget, work),
    ensures
        g.metrics.total_allocated == h.metrics.total_allocated,
        g.metrics.freed_bytes >= h.metrics.freed_bytes,
        g.metrics.wakeup_amount == h.metrics.wakeup_amount,
{
    if h.phase == CollectionPhase::Sweeping {
        invariants::lemma_leave_finalizing_inv(h);
        invariants::lemma_sweep_frees(h.leave_finalizing(), h.sweep_target(budget));
    }
}

/// An allocation adds its bytes to the bytes counted as allocated, in total
/// and as debt, and leaves the bytes counted as freed as they are.
pub proof fn lemma_allocation_counters_grow(h: HeapView, edges: Set<usize>, size: usize)
    requires
        h.wf(),
        h.alloc_error(edges, size) is None,
    ensures
        h.allocated(edges, size).metrics.total_allocated == h.metrics.total_allocated + size,
        h.allocated(edges, size).metrics.allocated_bytes == h.metrics.allocated_bytes + size,
        h.allocated(edges, size).metrics.freed_bytes == h.metrics.freed_bytes,
{
}

/// Pacing, on the collector's side: a step paced by the debt that leaves
/// marking unfinished has painted Black exactly as many objects as the debt
/// had earned and not yet been paid.
pub proof fn lemma_paced_step_spends_budget(h: HeapView, g: HeapView, work: usize)
    requires
        h.wf(),
        h.phase == CollectionPhase::Marking,
        h.metrics.budget() > 0,
        h.steps_to(g, h.metrics.budget() as usize, work),
        g.phase == CollectionPhase::Marking,
    ensures
        work == h.metrics.budget(),
        g.unmarked() + work == h.unmarked(),
        g.metrics.budget() == 0,
{
}

/// Pacing, on the host's side: once the debt is paid, what an allocation of
/// `size` bytes earns for the next step is in proportion to `size`, to within
/// the one unit that a remainder of debt carried over can fill up. With no
/// remainder carried over it is exactly `size` divided by the threshold: a
/// whole threshold earns one unit, a tenth of it none, ten thresholds ten.
pub proof fn lemma_allocation_earns_work(h: HeapView, edges: Set<usize>, size: usize)
    requires
        h.wf(),
        h.alloc_error(edges, size) is None,
        h.metrics.wakeup_amount > 0,
        h.metrics.work_done == earned_work(
            h.metrics.allocated_bytes as int,
            h.metrics.wakeup_amount as int,
        ),
    ensures
        h.allocated(edges, size).metrics.budget() >= size / h.metrics.wakeup_amount,
        h.allocated(edges, size).metrics.budget() <= size / h.metrics.wakeup_amount + 1,
        h.metrics.allocated_bytes % h.metrics.wakeup_amount == 0 ==> h.allocated(
            edges,
            size,
        ).metrics.budget() == size / h.metrics.wakeup_amount,
{
    lemma_earned_work_difference(
        h.metrics.allocated_bytes as int,
        size as int,
        h.metrics.wakeup_amount as int,
    );
}

} // verus!
