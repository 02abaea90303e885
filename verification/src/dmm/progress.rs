//! How long the collector takes: a bound on the steps after which an
//! unreachable object is dropped.

use vstd::prelude::*;
use crate::dmm::invariants;
use crate::dmm::reach;
use crate::dmm::types::{CollectionPhase, GcColor, HeapView};

verus! {

/// `g` is what one step of the collector, with a budget of at least one unit
/// of work, makes of `h`.
pub open spec fn steps(h: HeapView, g: HeapView) -> bool {
    &&& h.wf()
    &&& g.wf()
    &&& exists|budget: usize, work: usize| budget >= 1 && #[trigger] h.steps_to(g, budget, work)
}

/// The state after the `i`th state of `hs` follows from it by a step.
pub open spec fn step_at(hs: Seq<HeapView>, i: int) -> bool {
    steps(hs[i], hs[i + 1])
}

/// `hs` is a run of the collector: each state follows from the one before by
/// a step with a budget of at least one unit, the host doing nothing in
/// between.
pub open spec fn is_run(hs: Seq<HeapView>) -> bool {
    &&& hs.len() >= 1
    &&& hs[0].wf()
    &&& forall|i: int| 0 <= i < hs.len() - 1 ==> #[trigger] step_at(hs, i)
}

/// A bound on the steps that are left of the current cycle.
pub open spec fn rank(h: HeapView) -> int {
    if h.phase == CollectionPhase::Marking {
        (h.unmarked() + h.objs.len() + 1) as int
    } else {
        h.sweep_end - h.cursor
    }
}

/// The step from `h` to `g` ends a cycle and starts the next.
pub open spec fn ends_cycle(h: HeapView, g: HeapView) -> bool {
    h.phase == CollectionPhase::Sweeping && g.phase == CollectionPhase::Marking
}

/// The collector has settled that `a` is dropped by the end of the cycle, if
/// it is not dropped yet: marking will not find it, or has not found it.
pub open spec fn condemned(h: HeapView, a: usize) -> bool {
    &&& h.valid(a)
    &&& h.live(a) ==> if h.phase == CollectionPhase::Marking {
        !h.marked(a)
    } else {
        h.doomed(a)
    }
}

/// A step either ends the cycle or leaves fewer steps of it to take; it
/// keeps the number of allocations and the dynamic roots; and the cycle that
/// it starts, if it ends one, has shaded nothing but what the roots reach.
pub proof fn lemma_step_progress(h: HeapView, g: HeapView)
    requires
        steps(h, g),
    ensures
        g.objs.len() == h.objs.len(),
        g.roots == h.roots,
        ends_cycle(h, g) || rank(g) < rank(h),
        ends_cycle(h, g) ==> g.precise(),
        0 <= rank(h) <= 2 * h.objs.len() + 1,
{
    let (budget, work) = choose|budget: usize, work: usize|
        budget >= 1 && #[trigger] h.steps_to(g, budget, work);
    invariants::lemma_unmarked_bound(h);
    if h.phase == CollectionPhase::Marking {
        assert(h.same_graph(g));
    } else {
        let c = h.sweep_target(budget);
        let m = h.leave_finalizing().swept_to(c);
        assert(m.objs.len() == h.objs.len());
        if c == h.sweep_end {
            assert(m.same_graph(g));
        }
    }
}

/// A step brings nothing back and changes no strong pointer of what it
/// leaves live.
pub proof fn lemma_step_graph(h: HeapView, g: HeapView, x: usize)
    requires
        steps(h, g),
        g.live(x),
    ensures
        h.live(x),
        g.objs[x as int].edges == h.objs[x as int].edges,
{
    let (budget, work) = choose|budget: usize, work: usize|
        budget >= 1 && #[trigger] h.steps_to(g, budget, work);
    if h.phase == CollectionPhase::Marking {
        assert(h.same_graph(g));
        assert(h.same_obj(g, x));
    } else {
        let c = h.sweep_target(budget);
        let m = h.leave_finalizing().swept_to(c);
        assert(m.objs.len() == h.objs.len());
        if c == h.sweep_end {
            assert(m.same_graph(g));
            assert(m.same_obj(g, x));
        }
    }
}

/// A step makes nothing reachable that was not.
pub proof fn lemma_step_reachable(h: HeapView, g: HeapView, x: usize)
    requires
        steps(h, g),
        g.reachable(x),
    ensures
        h.reachable(x),
{
    reveal(HeapView::reachable);
    lemma_step_progress(h, g);
    let r = choose|r: usize| g.is_root(r) && #[trigger] g.reach_from(r, x);
    let p = choose|p: Seq<usize>| g.path_between(p, r, x);
    assert forall|i: int| 0 <= i < p.len() implies h.live(#[trigger] p[i]) by {
        lemma_step_graph(h, g, p[i]);
    }
    assert forall|i: int| 0 <= i < p.len() - 1 implies #[trigger] h.link(p, i) by {
        assert(g.link(p, i));
        assert(g.live(p[i]));
        lemma_step_graph(h, g, p[i]);
    }
    assert(h.path_between(p, r, x));
    assert(h.reach_from(r, x));
    if r != 0 {
        let i = choose|i: int| g.slot_holds(i, r);
        assert(h.slot_holds(i, r));
    }
    assert(h.is_root(r));
}

/// A step keeps an object condemned, and the step that ends the cycle drops
/// it.
pub proof fn lemma_step_condemned(h: HeapView, g: HeapView, a: usize)
    requires
        steps(h, g),
        condemned(h, a),
    ensures
        condemned(g, a),
        ends_cycle(h, g) ==> !g.live(a),
{
    let (budget, work) = choose|budget: usize, work: usize|
        budget >= 1 && #[trigger] h.steps_to(g, budget, work);
    lemma_step_progress(h, g);
    if g.live(a) {
        lemma_step_graph(h, g, a);
        if h.phase == CollectionPhase::Marking {
            reach::lemma_marks_to_marked(h, g, a);
            if g.phase == CollectionPhase::Sweeping {
                assert(g.color(a) == GcColor::White);
            }
        } else {
            let c = h.sweep_target(budget);
            let m = h.leave_finalizing().swept_to(c);
            assert(h.doomed(a));
            if c == h.sweep_end {
                assert(m.same_graph(g));
                assert(m.same_obj(g, a));
                assert(!m.live(a));
            } else {
                assert(g.objs[a as int] == m.objs[a as int]);
            }
        }
    }
}

/// Within as many steps as are left of the cycle, one ends it: the index of
/// such a step.
pub proof fn lemma_cycle_ends(hs: Seq<HeapView>, i: int) -> (j: int)
    requires
        is_run(hs),
        0 <= i < hs.len(),
        i + rank(hs[i]) + 1 <= hs.len() - 1,
    ensures
        i <= j <= i + rank(hs[i]),
        j + 1 <= hs.len() - 1,
        ends_cycle(hs[j], hs[j + 1]),
    decreases rank(hs[i]),
{
    lemma_run_state(hs, i);
    assert(step_at(hs, i));
    lemma_step_progress(hs[i], hs[i + 1]);
    if ends_cycle(hs[i], hs[i + 1]) {
        i
    } else {
        lemma_run_state(hs, i + 1);
        if i + 1 < hs.len() - 1 {
            assert(step_at(hs, i + 1));
            lemma_step_progress(hs[i + 1], hs[i + 2]);
        }
        lemma_cycle_ends(hs, i + 1)
    }
}

/// Every state of a run is well formed, and has as many allocations as the
/// first.
pub proof fn lemma_run_state(hs: Seq<HeapView>, i: int)
    requires
        is_run(hs),
        0 <= i < hs.len(),
    ensures
        hs[i].wf(),
        hs[i].objs.len() == hs[0].objs.len(),
        0 <= rank(hs[i]) <= 2 * hs[0].objs.len() + 1,
    decreases i,
{
    invariants::lemma_unmarked_bound(hs[i]);
    if i > 0 {
        lemma_run_state(hs, i - 1);
        assert(step_at(hs, i - 1));
        lemma_step_progress(hs[i - 1], hs[i]);
    }
}

/// What is unreachable stays unreachable as a run goes on.
pub proof fn lemma_run_unreachable(hs: Seq<HeapView>, i: int, j: int, a: usize)
    requires
        is_run(hs),
        0 <= i <= j < hs.len(),
        !hs[i].reachable(a),
    ensures
        !hs[j].reachable(a),
    decreases j - i,
{
    if i < j {
        lemma_run_unreachable(hs, i, j - 1, a);
        assert(step_at(hs, j - 1));
        if hs[j].reachable(a) {
            lemma_step_reachable(hs[j - 1], hs[j], a);
        }
    }
}

/// What is condemned stays condemned as a run goes on.
pub proof fn lemma_run_condemned(hs: Seq<HeapView>, i: int, j: int, a: usize)
    requires
        is_run(hs),
        0 <= i <= j < hs.len(),
        condemned(hs[i], a),
    ensures
        condemned(hs[j], a),
    decreases j - i,
{
    if i < j {
        lemma_run_condemned(hs, i, j - 1, a);
        assert(step_at(hs, j - 1));
        lemma_step_condemned(hs[j - 1], hs[j], a);
    }
}

/// What is dropped stays dropped as a run goes on.
pub proof fn lemma_run_dropped(hs: Seq<HeapView>, i: int, j: int, a: usize)
    requires
        is_run(hs),
        0 <= i <= j < hs.len(),
        !hs[i].live(a),
    ensures
        !hs[j].live(a),
    decreases j - i,
{
    if i < j {
        lemma_run_dropped(hs, i, j - 1, a);
        assert(step_at(hs, j - 1));
        if hs[j].live(a) {
            lemma_step_graph(hs[j - 1], hs[j], a);
        }
    }
}

/// The collector drops what the roots do not reach, and soon: in an arena of
/// `n` allocations in which the host does nothing but ask for steps of at
/// least one unit of work each, an object that the roots do not reach is
/// dropped after at most `4 * n + 4` steps, in whatever state the collector
/// was, and stays dropped. The cycle under way may keep the object, having
/// shaded it already; the next cycle drops it.
pub proof fn lemma_unreachable_is_dropped(hs: Seq<HeapView>, a: usize)
    requires
        is_run(hs),
        hs[0].valid(a),
        !hs[0].reachable(a),
        hs.len() - 1 >= 4 * hs[0].objs.len() + 4,
    ensures
        !hs[hs.len() - 1].live(a),
{
    let n = hs[0].objs.len() as int;
    let last = hs.len() - 1;
    lemma_run_state(hs, 0);
    // The cycle under way ends.
    let j1 = lemma_cycle_ends(hs, 0);
    lemma_run_unreachable(hs, 0, j1 + 1, a);
    assert(step_at(hs, j1));
    lemma_step_progress(hs[j1], hs[j1 + 1]);
    let s = hs[j1 + 1];
    lemma_run_state(hs, j1 + 1);
    // The next one starts with the object condemned.
    reach::lemma_precise_marked(s, a);
    assert(condemned(s, a));
    // It ends too, and drops the object.
    let j2 = lemma_cycle_ends(hs, j1 + 1);
    lemma_run_condemned(hs, j1 + 1, j2, a);
    assert(step_at(hs, j2));
    lemma_step_condemned(hs[j2], hs[j2 + 1], a);
    lemma_run_dropped(hs, j2 + 1, last, a);
}

} // verus!
