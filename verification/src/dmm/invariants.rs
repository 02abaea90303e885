//! Why each move of the collector and of the host keeps the arena's invariant.

use vstd::prelude::*;
use crate::dmm::metrics::Metrics;
use crate::dmm::reach;
use crate::dmm::types::{
    live_weight, swept_obj, unmarked_weight, weight_sum, CollectionPhase, GcColor, HeapView,
    ObjView,
};

verus! {

/// Appending an allocation adds its weight to the sum.
pub proof fn lemma_sum_push(objs: Seq<ObjView>, o: ObjView, w: spec_fn(ObjView) -> nat)
    ensures
        weight_sum(objs.push(o), w) == weight_sum(objs, w) + w(o),
{
    assert(objs.push(o).drop_last() =~= objs);
}

/// Replacing an allocation replaces its weight in the sum.
pub proof fn lemma_sum_update(objs: Seq<ObjView>, i: int, o: ObjView, w: spec_fn(ObjView) -> nat)
    requires
        0 <= i < objs.len(),
    ensures
        weight_sum(objs.update(i, o), w) + w(objs[i]) == weight_sum(objs, w) + w(o),
    decreases objs.len(),
{
    if i == objs.len() - 1 {
        assert(objs.update(i, o).drop_last() =~= objs.drop_last());
    } else {
        assert(objs.update(i, o).drop_last() =~= objs.drop_last().update(i, o));
        lemma_sum_update(objs.drop_last(), i, o, w);
    }
}

/// Painting an allocation keeps the bytes held by live allocations.
pub proof fn lemma_paint_live_bytes(h: HeapView, a: usize, c: GcColor)
    requires
        h.valid(a),
    ensures
        h.paint(a, c).live_bytes() == h.live_bytes(),
{
    lemma_sum_update(h.objs, a as int, h.paint(a, c).objs[a as int], live_weight());
}

/// Painting an allocation changes the count of those not Black by at most
/// that one.
pub proof fn lemma_paint_unmarked(h: HeapView, a: usize, c: GcColor)
    requires
        h.valid(a),
    ensures
        h.paint(a, c).unmarked() + (if h.color(a) != GcColor::Black {
            1nat
        } else {
            0nat
        }) == h.unmarked() + (if c != GcColor::Black {
            1nat
        } else {
            0nat
        }),
{
    lemma_sum_update(h.objs, a as int, h.paint(a, c).objs[a as int], unmarked_weight());
}

/// Shading an address keeps the invariant of a marking arena.
pub proof fn lemma_shade_inv(h: HeapView, a: usize, pending: Option<usize>, rooted: int)
    requires
        h.inv(pending, rooted),
        h.phase == CollectionPhase::Marking,
    ensures
        h.shade(a).inv(pending, rooted),
{
    let g = h.shade(a);
    if h.live(a) && h.color(a) == GcColor::White {
        lemma_paint_live_bytes(h, a, GcColor::Gray);
        assert forall|x: usize| g.valid(x) implies #[trigger] g.obj_ok(x) by {
            assert(h.obj_ok(x));
        }
        assert forall|i: int| 0 <= i < g.gray.len() implies g.live(#[trigger] g.gray[i])
            && g.color(g.gray[i]) == GcColor::Gray && Some(g.gray[i]) != pending by {
            if i < h.gray.len() {
                assert(h.live(h.gray[i]));
            }
        }
        assert forall|i: int, j: int| 0 <= i < j < g.gray.len() implies #[trigger] g.gray[i]
            != #[trigger] g.gray[j] by {
            assert(h.live(h.gray[i]));
            if j < h.gray.len() {
                assert(h.live(h.gray[j]));
            }
        }
        assert forall|x: usize|
            #[trigger] g.live(x) && g.color(x) == GcColor::Gray && Some(x) != pending implies g.gray.contains(
            x,
        ) by {
            if x == a {
                assert(g.gray[h.gray.len() as int] == a);
            } else {
                assert(h.live(x));
                let i = choose|i: int| 0 <= i < h.gray.len() && h.gray[i] == x;
                assert(g.gray[i] == x);
            }
        }
        assert forall|i: int, x: usize| #[trigger] g.slot_holds(i, x) implies g.usable(x) && (i
            < rooted ==> g.color(x) != GcColor::White) by {
            assert(h.slot_holds(i, x));
        }
        assert forall|x: usize, e: usize| #[trigger] g.edge(x, e) && g.live(x) implies g.live(e) by {
            assert(h.edge(x, e));
        }
        assert forall|x: usize, e: usize|
            #[trigger] g.edge(x, e) && g.live(x) && g.color(x) == GcColor::Black && Some(x)
                != pending implies g.color(e) != GcColor::White by {
            assert(h.edge(x, e));
        }
    }
}

/// Shading an object that a shaded object points to is marking, and leaves
/// the count of objects that are not Black as it was.
pub proof fn lemma_shade_marks(h0: HeapView, h: HeapView, a: usize, e: usize)
    requires
        h0.marks_to(h),
        h0.closed_live(),
        h0.shaded(a),
        h0.edge(a, e),
    ensures
        h0.marks_to(h.shade(e)),
        h.shade(e).unmarked() == h.unmarked(),
        h.live(e) ==> h.shade(e).color(e) != GcColor::White,
        forall|x: usize| h.valid(x) && h.color(x) != GcColor::White ==> h.shade(e).color(x) != GcColor::White,
{
    let g = h.shade(e);
    assert(h0.live(e));
    assert(h0.same_obj(h, e));
    if h.live(e) && h.color(e) == GcColor::White {
        lemma_paint_unmarked(h, e, GcColor::Gray);
        assert forall|x: usize| h0.valid(x) implies #[trigger] h0.same_obj(g, x) by {
            assert(h0.same_obj(h, x));
        }
        assert forall|x: usize| #[trigger] h0.shaded(x) implies g.shaded(x) by {
            assert(h.shaded(x));
        }
        assert forall|x: usize| #[trigger] g.shaded(x) implies h0.marked(x) by {
            if x == e {
                reach::lemma_reach_refl(h0, a);
                reach::lemma_reach_step(h0, a, a, e);
                reveal(HeapView::marked);
            } else {
                assert(h.shaded(x));
            }
        }
    }
}

/// Taking the last entry off the worklist leaves an arena in which that object
/// is pending.
pub proof fn lemma_pop_inv(h: HeapView, rooted: int)
    requires
        h.inv(None, rooted),
        h.phase == CollectionPhase::Marking,
        h.gray.len() > 0,
    ensures
        h.pop_gray().inv(Some(h.gray.last()), rooted),
        h.marks_to(h.pop_gray()),
        h.pop_gray().unmarked() == h.unmarked(),
{
    let g = h.pop_gray();
    let a = h.gray.last();
    assert(h.live(h.gray[h.gray.len() - 1]));
    assert forall|x: usize| g.valid(x) implies #[trigger] g.obj_ok(x) by {
        assert(h.obj_ok(x));
    }
    assert forall|i: int| 0 <= i < g.gray.len() implies g.live(#[trigger] g.gray[i]) && g.color(
        g.gray[i],
    ) == GcColor::Gray && Some(g.gray[i]) != Some(a) by {
        assert(h.live(h.gray[i]));
        assert(h.gray[i] != h.gray[h.gray.len() - 1]);
    }
    assert forall|x: usize|
        #[trigger] g.live(x) && g.color(x) == GcColor::Gray && Some(x) != Some(a) implies g.gray.contains(
        x,
    ) by {
        assert(h.live(x));
        let i = choose|i: int| 0 <= i < h.gray.len() && h.gray[i] == x;
        assert(g.gray[i] == x);
    }
    assert forall|i: int, x: usize| #[trigger] g.slot_holds(i, x) implies g.usable(x) && (i
        < rooted ==> g.color(x) != GcColor::White) by {
        assert(h.slot_holds(i, x));
    }
    assert forall|x: usize, e: usize| #[trigger] g.edge(x, e) && g.live(x) implies g.live(e) by {
        assert(h.edge(x, e));
    }
    assert forall|x: usize, e: usize|
        #[trigger] g.edge(x, e) && g.live(x) && g.color(x) == GcColor::Black && Some(x) != Some(
            a,
        ) implies g.color(e) != GcColor::White by {
        assert(h.edge(x, e));
    }
    reach::lemma_marks_to_refl(h);
    assert forall|x: usize| h.valid(x) implies #[trigger] h.same_obj(g, x) by {}
    assert forall|x: usize| #[trigger] g.shaded(x) implies h.marked(x) by {
        assert(h.shaded(x));
    }
}

/// Painting the pending object Black, once nothing it points to is White,
/// restores the invariant, is marking, and leaves one object fewer that is not
/// Black.
pub proof fn lemma_blacken_inv(h0: HeapView, h: HeapView, a: usize, rooted: int)
    requires
        h.inv(Some(a), rooted),
        h.phase == CollectionPhase::Marking,
        h0.marks_to(h),
        forall|e: usize| #[trigger] h.edge(a, e) ==> h.color(e) != GcColor::White,
    ensures
        h.paint(a, GcColor::Black).inv(None, rooted),
        h0.marks_to(h.paint(a, GcColor::Black)),
        h.paint(a, GcColor::Black).unmarked() + 1 == h.unmarked(),
{
    let g = h.paint(a, GcColor::Black);
    lemma_paint_live_bytes(h, a, GcColor::Black);
    lemma_paint_unmarked(h, a, GcColor::Black);
    assert forall|x: usize| g.valid(x) implies #[trigger] g.obj_ok(x) by {
        assert(h.obj_ok(x));
    }
    assert forall|i: int| 0 <= i < g.gray.len() implies g.live(#[trigger] g.gray[i]) && g.color(
        g.gray[i],
    ) == GcColor::Gray by {
        assert(h.live(h.gray[i]));
    }
    assert forall|x: usize| #[trigger] g.live(x) && g.color(x) == GcColor::Gray implies g.gray.contains(
        x,
    ) by {
        assert(h.live(x));
    }
    assert forall|i: int, x: usize| #[trigger] g.slot_holds(i, x) implies g.usable(x) && (i
        < rooted ==> g.color(x) != GcColor::White) by {
        assert(h.slot_holds(i, x));
    }
    assert forall|x: usize, e: usize| #[trigger] g.edge(x, e) && g.live(x) implies g.live(e) by {
        assert(h.edge(x, e));
    }
    assert forall|x: usize, e: usize|
        #[trigger] g.edge(x, e) && g.live(x) && g.color(x) == GcColor::Black implies g.color(e)
        != GcColor::White by {
        assert(h.edge(x, e));
    }
    assert forall|x: usize| h0.valid(x) implies #[trigger] h0.same_obj(g, x) by {
        assert(h0.same_obj(h, x));
    }
    assert forall|x: usize| #[trigger] h0.shaded(x) implies g.shaded(x) by {
        assert(h.shaded(x));
    }
    assert forall|x: usize| #[trigger] g.shaded(x) implies h0.marked(x) by {
        assert(h.shaded(x));
    }
}

/// When the worklist has run empty, every object that could be reached from
/// a shaded one is Black and every other is White.
pub proof fn lemma_marking_done(h0: HeapView, h: HeapView, a: usize)
    requires
        h0.marks_to(h),
        h.wf(),
        h.phase == CollectionPhase::Marking,
        h.gray.len() == 0,
        h.valid(a),
    ensures
        h.color(a) == if h0.marked(a) {
            GcColor::Black
        } else {
            GcColor::White
        },
{
    assert(h.obj_ok(a));
    assert forall|x: usize| #[trigger] h.live(x) implies h.color(x) != GcColor::Gray by {
        if h.color(x) == GcColor::Gray {
            assert(h.gray.contains(x));
        }
    }
    if h.live(a) && h.color(a) == GcColor::Gray {
        assert(h.gray.contains(a));
    }
    if h0.marked(a) {
        reach::lemma_marks_to_marked(h0, h, a);
        reveal(HeapView::marked);
        let x = choose|x: usize| h.shaded(x) && #[trigger] h.reach_from(x, a);
        let p = choose|p: Seq<usize>| h.path_between(p, x, a);
        reach::lemma_path_shaded(h, p);
    } else {
        if h.shaded(a) {
            assert(h0.marked(a));
        }
    }
}

/// Opening the finalizing pass on an arena whose worklist has run empty keeps
/// the invariant.
pub proof fn lemma_enter_finalizing_inv(h: HeapView)
    requires
        h.wf(),
        h.phase == CollectionPhase::Marking,
        h.gray.len() == 0,
        h.objs.len() <= usize::MAX,
    ensures
        h.enter_finalizing().wf(),
{
    let g = h.enter_finalizing();
    assert(g.objs == h.objs);
    assert forall|x: usize| #[trigger] h.live(x) implies h.color(x) != GcColor::Gray by {
        if h.color(x) == GcColor::Gray {
            assert(h.gray.contains(x));
        }
    }
    assert forall|x: usize| g.valid(x) implies #[trigger] g.obj_ok(x) by {
        assert(h.obj_ok(x));
        if h.live(x) {
        }
    }
    assert forall|x: usize| #[trigger] g.live(x) implies g.color(x) != GcColor::Gray by {
        assert(h.live(x));
    }
    assert forall|i: int, x: usize| #[trigger] g.slot_holds(i, x) implies g.usable(x) by {
        assert(h.slot_holds(i, x));
    }
    assert forall|x: usize, e: usize| #[trigger] g.edge(x, e) && g.usable(x) implies g.usable(
        e,
    ) by {
        assert(h.edge(x, e));
        assert(h.live(x));
        assert(h.obj_ok(x));
    }
    assert forall|x: usize, e: usize| #[trigger] g.edge(x, e) && g.live(x) implies g.live(e) by {
        assert(h.edge(x, e));
    }
}

/// Closing the finalizing pass keeps the invariant.
pub proof fn lemma_leave_finalizing_inv(h: HeapView)
    requires
        h.wf(),
    ensures
        h.leave_finalizing().wf(),
{
    let g = h.leave_finalizing();
    assert forall|a: usize| g.valid(a) implies #[trigger] g.obj_ok(a) by {
        assert(h.obj_ok(a));
    }
    assert forall|i: int| 0 <= i < g.gray.len() implies g.live(#[trigger] g.gray[i]) && g.color(
        g.gray[i],
    ) == GcColor::Gray by {
        assert(h.live(h.gray[i]));
    }
    assert forall|a: usize| #[trigger] g.live(a) && g.color(a) == GcColor::Gray implies g.gray.contains(
        a,
    ) by {
        assert(h.live(a));
    }
    assert forall|i: int, a: usize| #[trigger] g.slot_holds(i, a) implies g.usable(a) && (g.phase
        == CollectionPhase::Marking ==> g.color(a) != GcColor::White) by {
        assert(h.slot_holds(i, a));
    }
    assert forall|a: usize, e: usize| #[trigger] g.edge(a, e) implies h.edge(a, e) by {}
    assert(g.usable(0) == h.usable(0));
    if g.phase == CollectionPhase::Sweeping {
        assert forall|a: usize, e: usize| #[trigger] g.edge(a, e) && g.usable(a) implies g.usable(
            e,
        ) by {
            assert(h.edge(a, e));
            assert(h.usable(a));
            assert(h.usable(e));
        }
    } else {
        assert forall|a: usize, e: usize| #[trigger] g.edge(a, e) && g.live(a) implies g.live(
            e,
        ) by {
            assert(h.edge(a, e));
        }
        assert forall|a: usize, e: usize|
            #[trigger] g.edge(a, e) && g.live(a) && g.color(a) == GcColor::Black implies g.color(
            e,
        ) != GcColor::White by {
            assert(h.edge(a, e));
        }
    }
}

/// Sweeping keeps the invariant and takes nothing back from the bytes
/// counted as freed.
pub proof fn lemma_sweep_frees(h: HeapView, c: usize)
    requires
        h.wf(),
        h.phase == CollectionPhase::Sweeping,
        !h.finalizing,
        h.cursor <= c <= h.sweep_end,
    ensures
        h.swept_to(c).wf(),
        h.swept_to(c).metrics.freed_bytes >= h.metrics.freed_bytes,
        h.swept_to(c).metrics.total_allocated == h.metrics.total_allocated,
    decreases c - h.cursor,
{
    if c == h.cursor {
        lemma_swept_none(h);
    } else {
        let b = (c - 1) as usize;
        lemma_sweep_frees(h, b);
        lemma_sweep_step_inv(h.swept_to(b));
        lemma_swept_compose(h, b, c);
    }
}

/// The bytes held by live allocations are at least those of any one of them.
pub proof fn lemma_live_bytes_bound(objs: Seq<ObjView>, i: int)
    requires
        0 <= i < objs.len(),
    ensures
        weight_sum(objs, live_weight()) >= live_weight()(objs[i]),
{
    let o = ObjView { live: false, ..objs[i] };
    lemma_sum_update(objs, i, o, live_weight());
}

/// Sweeping in two moves is sweeping in one.
pub proof fn lemma_swept_compose(h: HeapView, c: usize, d: usize)
    requires
        h.cursor <= c <= d,
    ensures
        h.swept_to(c).swept_to(d) == h.swept_to(d),
{
    assert(h.swept_to(c).swept_objs(d) =~= h.swept_objs(d));
}

/// Sweeping nothing changes nothing.
pub proof fn lemma_swept_none(h: HeapView)
    requires
        h.wf(),
    ensures
        h.swept_to(h.cursor) == h,
{
    assert(h.swept_objs(h.cursor) =~= h.objs);
}

/// Sweeping the allocation under the cursor keeps the invariant.
pub proof fn lemma_sweep_step_inv(h: HeapView)
    requires
        h.wf(),
        h.phase == CollectionPhase::Sweeping,
        !h.finalizing,
        h.cursor < h.sweep_end,
    ensures
        h.swept_to((h.cursor + 1) as usize).wf(),
        h.swept_to((h.cursor + 1) as usize).objs == h.objs.update(
            h.cursor as int,
            swept_obj(h.objs[h.cursor as int]),
        ),
        h.swept_to((h.cursor + 1) as usize).metrics.freed_bytes == h.metrics.freed_bytes + (if h.doomed(
            h.cursor,
        ) {
            h.objs[h.cursor as int].size as int
        } else {
            0
        }),
{
    let c = h.cursor;
    let g = h.swept_to((c + 1) as usize);
    let o = h.objs[c as int];
    assert(g.objs =~= h.objs.update(c as int, swept_obj(o)));
    lemma_sum_update(h.objs, c as int, swept_obj(o), live_weight());
    lemma_live_bytes_bound(h.objs, c as int);
    assert(h.obj_ok(c));
    assert forall|x: usize| g.valid(x) implies #[trigger] g.obj_ok(x) by {
        assert(h.obj_ok(x));
    }
    assert forall|x: usize| #[trigger] g.live(x) implies g.color(x) != GcColor::Gray by {
        assert(g.obj_ok(x));
    }
    assert forall|x: usize| x != c implies g.usable(x) == h.usable(x) by {}
    assert forall|i: int, x: usize| #[trigger] g.slot_holds(i, x) implies g.usable(x) by {
        assert(h.slot_holds(i, x));
    }
    assert forall|x: usize, e: usize| #[trigger] g.edge(x, e) && g.usable(x) implies g.usable(
        e,
    ) by {
        assert(h.edge(x, e));
        assert(h.usable(x));
        assert(h.usable(e));
    }
}

/// Once the sweep has covered its range, every live allocation is White and
/// points only to live allocations.
pub proof fn lemma_sweep_done(h: HeapView)
    requires
        h.wf(),
        h.phase == CollectionPhase::Sweeping,
        !h.finalizing,
        h.cursor == h.sweep_end,
    ensures
        h.closed_live(),
        forall|a: usize| h.valid(a) ==> #[trigger] h.color(a) == GcColor::White,
{
    assert forall|a: usize| h.valid(a) implies #[trigger] h.color(a) == GcColor::White by {
        assert(h.obj_ok(a));
    }
    assert forall|x: usize, e: usize| #[trigger] h.edge(x, e) && h.live(x) implies h.live(e) by {
        assert(h.usable(x));
    }
}

/// Turning a swept arena to marking with its root object Gray gives an arena
/// that lacks only the shading of its dynamic roots.
pub proof fn lemma_begin_marking_inv(h: HeapView)
    requires
        h.wf(),
        h.phase == CollectionPhase::Sweeping,
        !h.finalizing,
        h.cursor == h.sweep_end,
    ensures
        h.begin_marking().inv(None, 0),
        h.same_graph(h.begin_marking()),
        forall|a: usize|
            h.valid(a) ==> #[trigger] h.begin_marking().color(a) == if a == 0 {
                GcColor::Gray
            } else {
                GcColor::White
            },
{
    lemma_sweep_done(h);
    let m = HeapView {
        phase: CollectionPhase::Marking,
        metrics: Metrics { allocated_bytes: 0, work_done: 0, ..h.metrics },
        ..h
    };
    let g = h.begin_marking();
    lemma_paint_live_bytes(m, 0, GcColor::Gray);
    assert(g.gray =~= seq![0usize]);
    assert forall|x: usize| g.valid(x) implies #[trigger] g.obj_ok(x) by {
        assert(h.obj_ok(x));
    }
    assert forall|x: usize| h.valid(x) implies #[trigger] g.color(x) == if x == 0 {
        GcColor::Gray
    } else {
        GcColor::White
    } by {
        assert(h.color(x) == GcColor::White);
    }
    assert forall|x: usize| #[trigger] g.live(x) && g.color(x) == GcColor::Gray implies g.gray.contains(
        x,
    ) by {
        assert(h.color(x) == GcColor::White);
        assert(g.gray[0] == 0);
    }
    assert forall|i: int, x: usize| #[trigger] g.slot_holds(i, x) implies g.usable(x) by {
        assert(h.slot_holds(i, x));
    }
    assert forall|x: usize, e: usize| #[trigger] g.edge(x, e) && g.live(x) implies g.live(e) by {
        assert(h.edge(x, e));
    }
    assert forall|x: usize, e: usize|
        #[trigger] g.edge(x, e) && g.live(x) && g.color(x) == GcColor::Black implies g.color(e)
        != GcColor::White by {
        assert(h.color(x) == GcColor::White);
    }
    assert forall|x: usize| h.valid(x) implies #[trigger] h.same_obj(g, x) by {}
}

/// Once the target of the next dynamic root is shaded, one more dynamic root
/// is known to be.
pub proof fn lemma_rooted_next(h: HeapView, k: int)
    requires
        h.inv(None, k),
        h.phase == CollectionPhase::Marking,
        0 <= k < h.roots.len(),
        forall|a: usize| h.roots[k] == Some(a) ==> h.color(a) != GcColor::White,
    ensures
        h.inv(None, k + 1),
{
    assert forall|i: int, a: usize| #[trigger] h.slot_holds(i, a) && i < k + 1 implies h.color(a)
        != GcColor::White by {
        if i == k {
            assert(h.roots[k] == Some(a));
        }
    }
}

/// Where only roots are shaded, only what the roots reach is.
pub proof fn lemma_roots_precise(h: HeapView)
    requires
        forall|x: usize| #[trigger] h.shaded(x) ==> h.is_root(x),
    ensures
        h.precise(),
{
    assert forall|x: usize| #[trigger] h.shaded(x) implies h.reachable(x) by {
        reach::lemma_reach_refl(h, x);
        reveal(HeapView::reachable);
    }
}

/// There are no more allocations that are not Black than allocations.
pub proof fn lemma_weight_bound(objs: Seq<ObjView>)
    ensures
        weight_sum(objs, unmarked_weight()) <= objs.len(),
    decreases objs.len(),
{
    if objs.len() > 0 {
        lemma_weight_bound(objs.drop_last());
    }
}

/// The count of allocations that are not Black fits the table's length.
pub proof fn lemma_unmarked_bound(h: HeapView)
    ensures
        h.unmarked() <= h.objs.len(),
{
    lemma_weight_bound(h.objs);
}

/// An allocation that points only to objects that may be handed out keeps
/// the invariant.
pub proof fn lemma_allocate_inv(h: HeapView, edges: Set<usize>, size: usize)
    requires
        h.wf(),
        !h.finalizing,
        h.all_usable(edges),
        h.metrics.total_allocated + size <= usize::MAX,
        h.objs.len() < usize::MAX,
    ensures
        h.allocated(edges, size).wf(),
        h.allocated(edges, size).usable(h.objs.len() as usize),
        forall|x: usize| h.shaded(x) ==> h.allocated(edges, size).shaded(x),
{
    let g = h.allocated(edges, size);
    let n = h.objs.len() as usize;
    lemma_sum_push(h.objs, g.objs[n as int], live_weight());
    assert(g.objs.drop_last() =~= h.objs);
    assert forall|x: usize| g.valid(x) implies #[trigger] g.obj_ok(x) by {
        if x != n {
            assert(h.obj_ok(x));
        }
    }
    assert forall|x: usize| x != n implies g.usable(x) == h.usable(x) by {}
    assert forall|i: int| 0 <= i < g.gray.len() implies g.live(#[trigger] g.gray[i]) && g.color(
        g.gray[i],
    ) == GcColor::Gray by {
        if i < h.gray.len() {
            assert(h.live(h.gray[i]));
        }
    }
    assert forall|i: int, j: int| 0 <= i < j < g.gray.len() implies #[trigger] g.gray[i]
        != #[trigger] g.gray[j] by {
        assert(h.live(h.gray[i]));
        if j < h.gray.len() {
            assert(h.live(h.gray[j]));
        }
    }
    assert forall|x: usize| #[trigger] g.live(x) && g.color(x) == GcColor::Gray implies g.gray.contains(
        x,
    ) by {
        if x == n {
            if h.phase == CollectionPhase::Marking {
                assert(g.gray[h.gray.len() as int] == n);
            }
        } else {
            assert(h.live(x));
            assert(h.obj_ok(x));
            let i = choose|i: int| 0 <= i < h.gray.len() && h.gray[i] == x;
            assert(g.gray[i] == x);
        }
    }
    assert forall|i: int, x: usize| #[trigger] g.slot_holds(i, x) implies g.usable(x) && (g.phase
        == CollectionPhase::Marking ==> g.color(x) != GcColor::White) by {
        assert(h.slot_holds(i, x));
    }
    assert forall|x: usize, e: usize| #[trigger] g.edge(x, e) && g.usable(x) implies g.usable(
        e,
    ) by {
        if x != n {
            assert(h.edge(x, e));
            assert(h.usable(x));
            if h.phase == CollectionPhase::Marking {
                assert(h.live(e));
            }
            assert(h.usable(e));
        } else {
            assert(h.usable(e));
        }
    }
    assert forall|x: usize, e: usize|
        #[trigger] g.edge(x, e) && g.live(x) && g.color(x) == GcColor::Black implies g.color(e)
        != GcColor::White || g.phase != CollectionPhase::Marking by {
        if x != n {
            assert(h.edge(x, e));
            if h.phase == CollectionPhase::Marking {
                assert(h.live(e));
            }
        }
    }
    if g.phase == CollectionPhase::Marking {
        assert forall|x: usize, e: usize| #[trigger] g.edge(x, e) && g.live(x) implies g.live(
            e,
        ) by {
            if x != n {
                assert(h.edge(x, e));
            } else {
                assert(h.usable(e));
            }
        }
    }
}

/// The write barrier keeps the invariant.
pub proof fn lemma_barrier_inv(h: HeapView, a: usize)
    requires
        h.wf(),
    ensures
        h.barrier(a).wf(),
        forall|x: usize| h.barrier(a).usable(x) == h.usable(x),
        h.same_graph(h.barrier(a)),
        h.live(a) ==> !h.barrier(a).needs_barrier(a),
{
    let g = h.barrier(a);
    assert forall|x: usize| h.valid(x) implies #[trigger] h.same_obj(g, x) by {}
    if h.live(a) && h.needs_barrier(a) {
        lemma_paint_live_bytes(h, a, GcColor::Gray);
        assert(h.obj_ok(a));
        assert forall|x: usize| g.valid(x) implies #[trigger] g.obj_ok(x) by {
            assert(h.obj_ok(x));
        }
        assert forall|i: int| 0 <= i < g.gray.len() implies g.live(#[trigger] g.gray[i])
            && g.color(g.gray[i]) == GcColor::Gray by {
            if i < h.gray.len() {
                assert(h.live(h.gray[i]));
            }
        }
        assert forall|i: int, j: int| 0 <= i < j < g.gray.len() implies #[trigger] g.gray[i]
            != #[trigger] g.gray[j] by {
            assert(h.live(h.gray[i]));
            if j < h.gray.len() {
                assert(h.live(h.gray[j]));
            }
        }
        assert forall|x: usize| #[trigger] g.live(x) && g.color(x) == GcColor::Gray implies g.gray.contains(
            x,
        ) by {
            if x == a {
                assert(g.gray[h.gray.len() as int] == a);
            } else {
                assert(h.live(x));
                let i = choose|i: int| 0 <= i < h.gray.len() && h.gray[i] == x;
                assert(g.gray[i] == x);
            }
        }
        assert forall|i: int, x: usize| #[trigger] g.slot_holds(i, x) implies g.usable(x)
            && g.color(x) != GcColor::White by {
            assert(h.slot_holds(i, x));
        }
        assert forall|x: usize, e: usize| #[trigger] g.edge(x, e) && g.live(x) implies g.live(
            e,
        ) by {
            assert(h.edge(x, e));
        }
        assert forall|x: usize, e: usize|
            #[trigger] g.edge(x, e) && g.live(x) && g.color(x) == GcColor::Black implies g.color(
            e,
        ) != GcColor::White by {
            assert(h.edge(x, e));
        }
    }
}

/// Replacing the strong pointers of an object on which the write barrier has
/// run, by pointers to objects that may be handed out, keeps the invariant.
pub proof fn lemma_write_inv(h: HeapView, a: usize, edges: Set<usize>)
    requires
        h.wf(),
        !h.finalizing,
        h.usable(a),
        h.all_usable(edges),
    ensures
        h.written(a, edges).wf(),
        forall|x: usize| h.written(a, edges).usable(x) == h.usable(x),
{
    lemma_barrier_inv(h, a);
    let b = h.barrier(a);
    let g = h.written(a, edges);
    lemma_sum_update(b.objs, a as int, g.objs[a as int], live_weight());
    assert(b.obj_ok(a));
    assert forall|x: usize| g.valid(x) implies #[trigger] g.obj_ok(x) by {
        assert(b.obj_ok(x));
    }
    assert forall|x: usize| g.usable(x) == h.usable(x) by {
        assert(b.usable(x) == h.usable(x));
    }
    assert forall|i: int| 0 <= i < g.gray.len() implies g.live(#[trigger] g.gray[i]) && g.color(
        g.gray[i],
    ) == GcColor::Gray by {
        assert(b.live(b.gray[i]));
    }
    assert forall|x: usize| #[trigger] g.live(x) && g.color(x) == GcColor::Gray implies g.gray.contains(
        x,
    ) by {
        assert(b.live(x));
    }
    assert forall|i: int, x: usize| #[trigger] g.slot_holds(i, x) implies g.usable(x) && (g.phase
        == CollectionPhase::Marking ==> g.color(x) != GcColor::White) by {
        assert(b.slot_holds(i, x));
    }
    assert forall|x: usize, e: usize| #[trigger] g.edge(x, e) && g.usable(x) implies g.usable(
        e,
    ) by {
        if x != a {
            assert(b.edge(x, e));
            assert(b.usable(x));
            if b.phase == CollectionPhase::Marking {
                assert(b.live(e));
            }
            assert(b.usable(e));
        } else {
            assert(h.usable(e));
        }
    }
    if g.phase == CollectionPhase::Marking {
        assert forall|x: usize, e: usize| #[trigger] g.edge(x, e) && g.live(x) implies g.live(
            e,
        ) by {
            assert(g.usable(x));
            assert(g.usable(e));
        }
        assert forall|x: usize, e: usize|
            #[trigger] g.edge(x, e) && g.live(x) && g.color(x) == GcColor::Black implies g.color(
            e,
        ) != GcColor::White by {
            if x != a {
                assert(b.edge(x, e));
            }
        }
    }
}

/// Making an object that may be handed out a dynamic root keeps the
/// invariant.
pub proof fn lemma_stash_inv(h: HeapView, i: int, a: usize)
    requires
        h.wf(),
        !h.finalizing,
        h.usable(a),
        h.free_slot(i),
    ensures
        h.stashed(i, a).wf(),
        h.stashed(i, a).slot_holds(i, a),
{
    let s = if h.phase == CollectionPhase::Marking {
        h.shade(a)
    } else {
        h
    };
    if h.phase == CollectionPhase::Marking {
        lemma_shade_inv(h, a, None, h.roots.len() as int);
    }
    let g = h.stashed(i, a);
    assert(g.objs == s.objs);
    assert forall|x: usize| g.valid(x) implies #[trigger] g.obj_ok(x) by {
        assert(s.obj_ok(x));
    }
    assert forall|x: usize| g.usable(x) == s.usable(x) by {}
    assert forall|k: int| 0 <= k < g.gray.len() implies g.live(#[trigger] g.gray[k]) && g.color(
        g.gray[k],
    ) == GcColor::Gray by {
        assert(s.live(s.gray[k]));
    }
    assert forall|x: usize| #[trigger] g.live(x) && g.color(x) == GcColor::Gray implies g.gray.contains(
        x,
    ) by {
        assert(s.live(x));
    }
    assert forall|k: int, x: usize| #[trigger] g.slot_holds(k, x) implies g.usable(x) && (g.phase
        == CollectionPhase::Marking ==> g.color(x) != GcColor::White) by {
        if k == i {
            assert(x == a);
        } else {
            assert(s.slot_holds(k, x));
        }
    }
    assert forall|x: usize, e: usize| #[trigger] g.edge(x, e) implies s.edge(x, e) by {}
    if g.phase == CollectionPhase::Sweeping {
        assert forall|x: usize, e: usize| #[trigger] g.edge(x, e) && g.usable(x) implies g.usable(
            e,
        ) by {
            assert(s.edge(x, e));
            assert(s.usable(x));
        }
    } else {
        assert forall|x: usize, e: usize| #[trigger] g.edge(x, e) && g.live(x) implies g.live(
            e,
        ) by {
            assert(s.edge(x, e));
        }
        assert forall|x: usize, e: usize|
            #[trigger] g.edge(x, e) && g.live(x) && g.color(x) == GcColor::Black implies g.color(
            e,
        ) != GcColor::White by {
            assert(s.edge(x, e));
        }
    }
}

/// Emptying a slot of the dynamic root set keeps the invariant.
pub proof fn lemma_release_inv(h: HeapView, i: int)
    requires
        h.wf(),
        0 <= i < h.roots.len(),
    ensures
        h.released(i).wf(),
{
    let g = h.released(i);
    assert forall|x: usize| g.valid(x) implies #[trigger] g.obj_ok(x) by {
        assert(h.obj_ok(x));
    }
    assert forall|k: int| 0 <= k < g.gray.len() implies g.live(#[trigger] g.gray[k]) && g.color(
        g.gray[k],
    ) == GcColor::Gray by {
        assert(h.live(h.gray[k]));
    }
    assert forall|x: usize| #[trigger] g.live(x) && g.color(x) == GcColor::Gray implies g.gray.contains(
        x,
    ) by {
        assert(h.live(x));
    }
    assert forall|k: int, x: usize| #[trigger] g.slot_holds(k, x) implies g.usable(x) && (g.phase
        == CollectionPhase::Marking ==> g.color(x) != GcColor::White) by {
        assert(h.slot_holds(k, x));
    }
    assert forall|x: usize, e: usize| #[trigger] g.edge(x, e) implies h.edge(x, e) by {}
    if g.phase == CollectionPhase::Sweeping {
        assert forall|x: usize, e: usize| #[trigger] g.edge(x, e) && g.usable(x) implies g.usable(
            e,
        ) by {
            assert(h.edge(x, e));
            assert(h.usable(x));
            assert(h.usable(e));
        }
    } else {
        assert forall|x: usize, e: usize| #[trigger] g.edge(x, e) && g.live(x) implies g.live(
            e,
        ) by {
            assert(h.edge(x, e));
        }
        assert forall|x: usize, e: usize|
            #[trigger] g.edge(x, e) && g.live(x) && g.color(x) == GcColor::Black implies g.color(
            e,
        ) != GcColor::White by {
            assert(h.edge(x, e));
        }
    }
}

/// Bringing a live object back in the finalizing pass keeps the invariant,
/// keeps the pass open, and changes of no object whether it was dead when the
/// pass began.
pub proof fn lemma_resurrect_inv(h: HeapView, a: usize)
    requires
        h.wf(),
        h.finalizing,
        h.live(a),
    ensures
        h.resurrected(a).wf(),
        h.resurrected(a).finalizing,
        h.same_graph(h.resurrected(a)),
        forall|x: usize| h.resurrected(a).dead(x) == h.dead(x),
        h.resurrected(a).shaded(a),
        forall|x: usize| h.shaded(x) ==> h.resurrected(a).shaded(x),
{
    let g = h.resurrected(a);
    assert forall|x: usize| h.valid(x) implies #[trigger] h.same_obj(g, x) by {}
    if h.color(a) == GcColor::White {
        lemma_sum_update(h.objs, a as int, g.objs[a as int], live_weight());
    }
    assert(h.obj_ok(a));
    assert forall|x: usize| g.valid(x) implies #[trigger] g.obj_ok(x) by {
        assert(h.obj_ok(x));
    }
    assert forall|i: int| 0 <= i < g.gray.len() implies g.live(#[trigger] g.gray[i]) && g.color(
        g.gray[i],
    ) == GcColor::Gray by {
        if i < h.gray.len() {
            assert(h.live(h.gray[i]));
        }
    }
    assert forall|i: int, j: int| 0 <= i < j < g.gray.len() implies #[trigger] g.gray[i]
        != #[trigger] g.gray[j] by {
        assert(h.live(h.gray[i]));
        if j < h.gray.len() {
            assert(h.live(h.gray[j]));
        }
    }
    assert forall|x: usize| #[trigger] g.live(x) && g.color(x) == GcColor::Gray implies g.gray.contains(
        x,
    ) by {
        if x == a && h.color(a) == GcColor::White {
            assert(g.gray[h.gray.len() as int] == a);
        } else {
            assert(h.live(x));
            assert(h.obj_ok(x));
            let i = choose|i: int| 0 <= i < h.gray.len() && h.gray[i] == x;
            assert(g.gray[i] == x);
        }
    }
    assert forall|i: int, x: usize| #[trigger] g.slot_holds(i, x) implies g.usable(x) && g.color(
        x,
    ) != GcColor::White by {
        assert(h.slot_holds(i, x));
        assert(h.usable(x));
    }
    assert(h.usable(0));
    assert forall|x: usize, e: usize| #[trigger] g.edge(x, e) && g.live(x) implies g.live(e) by {
        assert(h.edge(x, e));
    }
    assert forall|x: usize, e: usize|
        #[trigger] g.edge(x, e) && g.live(x) && g.color(x) == GcColor::Black implies g.color(e)
        != GcColor::White by {
        assert(h.edge(x, e));
        assert(h.live(x));
        if h.phase == CollectionPhase::Sweeping {
            assert(h.usable(x));
            assert(h.usable(e));
        }
    }
}

/// A new arena whose root object points to nothing but itself is well
/// formed, and shades only what its roots reach.
pub proof fn lemma_initial_inv(edges: Set<usize>, size: usize, wakeup_amount: usize)
    requires
        edges.subset_of(set![0usize]),
    ensures
        HeapView::initial(edges, size, wakeup_amount).wf(),
        HeapView::initial(edges, size, wakeup_amount).precise(),
{
    let h = HeapView::initial(edges, size, wakeup_amount);
    assert(h.objs.drop_last() =~= Seq::<ObjView>::empty());
    assert(weight_sum(h.objs.drop_last(), live_weight()) == 0);
    assert(h.gray[0] == 0);
    assert forall|x: usize, e: usize| #[trigger] h.edge(x, e) && h.live(x) implies h.live(e) by {
        assert(set![0usize].contains(e));
    }
    assert forall|x: usize| #[trigger] h.shaded(x) implies h.is_root(x) by {}
    lemma_roots_precise(h);
}

/// A change to the counter of work alone keeps the invariant.
pub proof fn lemma_metrics_inv(h: HeapView, g: HeapView)
    requires
        h.wf(),
        g == (HeapView {
            metrics: Metrics { work_done: g.metrics.work_done, ..h.metrics },
            ..h
        }),
    ensures
        g.wf(),
{
    assert forall|x: usize| g.valid(x) implies #[trigger] g.obj_ok(x) by {
        assert(h.obj_ok(x));
    }
    assert forall|k: int| 0 <= k < g.gray.len() implies g.live(#[trigger] g.gray[k]) && g.color(
        g.gray[k],
    ) == GcColor::Gray by {
        assert(h.live(h.gray[k]));
    }
    assert forall|x: usize| #[trigger] g.live(x) && g.color(x) == GcColor::Gray implies g.gray.contains(
        x,
    ) by {
        assert(h.live(x));
    }
    assert forall|k: int, x: usize| #[trigger] g.slot_holds(k, x) implies g.usable(x) && (g.phase
        == CollectionPhase::Marking ==> g.color(x) != GcColor::White) by {
        assert(h.slot_holds(k, x));
    }
    assert forall|x: usize, e: usize| #[trigger] g.edge(x, e) implies h.edge(x, e) by {}
    if g.phase == CollectionPhase::Sweeping {
        assert forall|x: usize, e: usize| #[trigger] g.edge(x, e) && g.usable(x) implies g.usable(
            e,
        ) by {
            assert(h.edge(x, e));
            assert(h.usable(x));
            assert(h.usable(e));
        }
    }
    if g.phase == CollectionPhase::Marking || g.finalizing {
        assert forall|x: usize, e: usize| #[trigger] g.edge(x, e) && g.live(x) implies g.live(
            e,
        ) by {
            assert(h.edge(x, e));
        }
        assert forall|x: usize, e: usize|
            #[trigger] g.edge(x, e) && g.live(x) && g.color(x) == GcColor::Black && g.phase
                == CollectionPhase::Marking implies g.color(e) != GcColor::White by {
            assert(h.edge(x, e));
        }
    }
}

/// What marking finds depends on the table alone.
pub proof fn lemma_marked_same(h: HeapView, g: HeapView, a: usize)
    requires
        h.objs == g.objs,
    ensures
        h.marked(a) == g.marked(a),
{
    reveal(HeapView::marked);
    if h.marked(a) {
        let x = choose|x: usize| h.shaded(x) && #[trigger] h.reach_from(x, a);
        lemma_reach_same(h, g, x, a);
        assert(g.shaded(x));
    }
    if g.marked(a) {
        let x = choose|x: usize| g.shaded(x) && #[trigger] g.reach_from(x, a);
        lemma_reach_same(g, h, x, a);
        assert(h.shaded(x));
    }
}

/// Whether one object reaches another depends on the table alone.
pub proof fn lemma_reach_same(h: HeapView, g: HeapView, x: usize, a: usize)
    requires
        h.objs == g.objs,
        h.reach_from(x, a),
    ensures
        g.reach_from(x, a),
{
    let p = choose|p: Seq<usize>| h.path_between(p, x, a);
    assert forall|i: int| 0 <= i < p.len() implies g.live(#[trigger] p[i]) by {
        assert(h.live(p[i]));
    }
    assert forall|i: int| 0 <= i < p.len() - 1 implies #[trigger] g.link(p, i) by {
        assert(h.link(p, i));
    }
    assert(g.path_between(p, x, a));
}

/// Marking is a relation between tables and dynamic roots: it holds of any
/// two arenas that have those of two arenas of which it holds.
pub proof fn lemma_marks_from(h0: HeapView, h: HeapView, k: HeapView, g: HeapView)
    requires
        h0.objs == h.objs,
        h0.roots == h.roots,
        k.objs == g.objs,
        k.roots == g.roots,
        h.marks_to(k),
    ensures
        h0.marks_to(g),
{
    assert forall|a: usize| h0.valid(a) implies #[trigger] h0.same_obj(g, a) by {
        assert(h.same_obj(k, a));
    }
    assert forall|a: usize| #[trigger] h0.shaded(a) implies g.shaded(a) by {
        assert(h.shaded(a));
        assert(k.shaded(a));
    }
    assert forall|a: usize| #[trigger] g.shaded(a) implies h0.marked(a) by {
        assert(k.shaded(a));
        assert(h.marked(a));
        lemma_marked_same(h0, h, a);
    }
}

/// What marking finds is live.
pub proof fn lemma_marked_live(h: HeapView, a: usize)
    requires
        h.marked(a),
    ensures
        h.live(a),
{
    reveal(HeapView::marked);
    let x = choose|x: usize| h.shaded(x) && #[trigger] h.reach_from(x, a);
    let p = choose|p: Seq<usize>| h.path_between(p, x, a);
    assert(h.live(p[p.len() - 1]));
}

} // verus!
