//! Paths through the object graph, and what the invariant says of them.

use vstd::prelude::*;
use crate::dmm::types::{CollectionPhase, GcColor, HeapView};

verus! {

/// A live object reaches itself.
pub proof fn lemma_reach_refl(h: HeapView, x: usize)
    requires
        h.live(x),
    ensures
        h.reach_from(x, x),
{
    let p = seq![x];
    assert(h.is_path(p));
    assert(h.path_between(p, x, x));
}

/// A path can be extended by one strong pointer to a live object.
pub proof fn lemma_reach_step(h: HeapView, x: usize, a: usize, e: usize)
    requires
        h.reach_from(x, a),
        h.edge(a, e),
        h.live(e),
    ensures
        h.reach_from(x, e),
{
    let p = choose|p: Seq<usize>| h.path_between(p, x, a);
    let q = p.push(e);
    assert forall|i: int| 0 <= i < q.len() implies h.live(#[trigger] q[i]) by {
        if i < p.len() {
            assert(q[i] == p[i]);
        }
    }
    assert forall|i: int| 0 <= i < q.len() - 1 implies #[trigger] h.link(q, i) by {
        if i < p.len() - 1 {
            assert(h.link(p, i));
        }
    }
    assert(h.path_between(q, x, e));
}

/// Paths compose.
pub proof fn lemma_reach_trans(h: HeapView, x: usize, y: usize, z: usize)
    requires
        h.reach_from(x, y),
        h.reach_from(y, z),
    ensures
        h.reach_from(x, z),
{
    let p = choose|p: Seq<usize>| h.path_between(p, x, y);
    let q = choose|q: Seq<usize>| h.path_between(q, y, z);
    let r = p + q.subrange(1, q.len() as int);
    assert forall|i: int| 0 <= i < r.len() implies h.live(#[trigger] r[i]) by {
        if i < p.len() {
            assert(r[i] == p[i]);
        } else {
            assert(r[i] == q[i - p.len() + 1]);
        }
    }
    assert forall|i: int| 0 <= i < r.len() - 1 implies #[trigger] h.link(r, i) by {
        if i < p.len() - 1 {
            assert(h.link(p, i));
        } else {
            assert(h.link(q, i - p.len() + 1));
        }
    }
    assert(h.path_between(r, x, z));
}

/// Whether one object reaches another depends on the graph alone.
pub proof fn lemma_same_graph_reach(h: HeapView, g: HeapView, x: usize, a: usize)
    requires
        h.same_graph(g),
        h.reach_from(x, a),
    ensures
        g.reach_from(x, a),
{
    let p = choose|p: Seq<usize>| h.path_between(p, x, a);
    assert forall|i: int| 0 <= i < p.len() implies g.live(#[trigger] p[i]) by {
        assert(h.live(p[i]));
        assert(h.same_obj(g, p[i]));
    }
    assert forall|i: int| 0 <= i < p.len() - 1 implies #[trigger] g.link(p, i) by {
        assert(h.link(p, i));
        assert(h.live(p[i]));
        assert(h.same_obj(g, p[i]));
    }
    assert(g.path_between(p, x, a));
}

/// Having the same graph is symmetric.
pub proof fn lemma_same_graph_sym(h: HeapView, g: HeapView)
    requires
        h.same_graph(g),
    ensures
        g.same_graph(h),
{
    assert forall|a: usize| g.valid(a) implies #[trigger] g.same_obj(h, a) by {
        assert(h.same_obj(g, a));
    }
}

/// If every usable object points only to usable objects, whatever a usable
/// object reaches is usable.
pub proof fn lemma_path_usable(h: HeapView, p: Seq<usize>)
    requires
        h.closed_usable(),
        h.is_path(p),
        h.usable(p[0]),
    ensures
        h.usable(p[p.len() - 1]),
    decreases p.len(),
{
    if p.len() > 1 {
        let q = p.drop_last();
        assert forall|i: int| 0 <= i < q.len() implies h.live(#[trigger] q[i]) by {
            assert(q[i] == p[i]);
        }
        assert forall|i: int| 0 <= i < q.len() - 1 implies #[trigger] h.link(q, i) by {
            assert(h.link(p, i));
        }
        lemma_path_usable(h, q);
        assert(h.link(p, p.len() - 2));
        assert(h.edge(p[p.len() - 2], p[p.len() - 1]));
    }
}

/// In a marking arena that keeps the tri-colour invariant and has no Gray
/// object left, whatever a shaded object reaches is shaded.
pub proof fn lemma_path_shaded(h: HeapView, p: Seq<usize>)
    requires
        h.tricolor(),
        h.no_gray(),
        h.is_path(p),
        h.shaded(p[0]),
    ensures
        h.shaded(p[p.len() - 1]),
    decreases p.len(),
{
    if p.len() > 1 {
        let q = p.drop_last();
        assert forall|i: int| 0 <= i < q.len() implies h.live(#[trigger] q[i]) by {
            assert(q[i] == p[i]);
        }
        assert forall|i: int| 0 <= i < q.len() - 1 implies #[trigger] h.link(q, i) by {
            assert(h.link(p, i));
        }
        lemma_path_shaded(h, q);
        assert(h.link(p, p.len() - 2));
        let a = p[p.len() - 2];
        let e = p[p.len() - 1];
        assert(h.edge(a, e));
        assert(h.live(a));
        assert(h.live(e));
    }
}

/// Safety: in a well-formed arena every object that the roots reach is live,
/// and the collector has not decided to drop it.
pub proof fn lemma_reachable_usable(h: HeapView, a: usize)
    requires
        h.wf(),
        h.reachable(a),
    ensures
        h.usable(a),
{
    reveal(HeapView::reachable);
    let r = choose|r: usize| h.is_root(r) && #[trigger] h.reach_from(r, a);
    let p = choose|p: Seq<usize>| h.path_between(p, r, a);
    if r != 0 {
        let i = choose|i: int| h.slot_holds(i, r);
        assert(h.slot_holds(i, r));
    }
    assert(h.usable(r));
    if h.phase == CollectionPhase::Marking {
        assert forall|x: usize, e: usize| #[trigger] h.edge(x, e) && h.usable(x) implies h.usable(
            e,
        ) by {
            assert(h.live(e));
        }
    }
    lemma_path_usable(h, p);
}

/// Marking soundness: when marking has ended and the finalizing pass is open,
/// no object that the roots reach is White.
pub proof fn lemma_marking_sound(h: HeapView, a: usize)
    requires
        h.wf(),
        h.phase == CollectionPhase::Sweeping,
        h.finalizing,
        h.reachable(a),
    ensures
        h.live(a),
        h.color(a) == GcColor::Black,
{
    lemma_reachable_usable(h, a);
    assert(h.obj_ok(a));
}

/// The tri-colour invariant: in a well-formed marking arena no Black object
/// holds a strong pointer to a White one.
pub proof fn lemma_wf_tricolor(h: HeapView)
    requires
        h.wf(),
        h.phase == CollectionPhase::Marking,
    ensures
        h.tricolor(),
{
}

/// What marking can make of an arena keeps what is marked: an object can be
/// reached from a shaded one afterwards exactly if it could before.
pub proof fn lemma_marks_to_marked(h: HeapView, g: HeapView, a: usize)
    requires
        h.marks_to(g),
    ensures
        h.marked(a) == g.marked(a),
{
    reveal(HeapView::marked);
    if h.marked(a) {
        let x = choose|x: usize| h.shaded(x) && #[trigger] h.reach_from(x, a);
        lemma_same_graph_reach(h, g, x, a);
        assert(g.shaded(x));
    }
    if g.marked(a) {
        let x = choose|x: usize| g.shaded(x) && #[trigger] g.reach_from(x, a);
        assert(h.marked(x));
        let y = choose|y: usize| h.shaded(y) && #[trigger] h.reach_from(y, x);
        lemma_same_graph_sym(h, g);
        lemma_same_graph_reach(g, h, x, a);
        lemma_reach_trans(h, y, x, a);
    }
}

/// Marking composes: what marking can make of what marking made of an arena,
/// marking can make of the arena.
pub proof fn lemma_marks_to_trans(h: HeapView, g: HeapView, k: HeapView)
    requires
        h.marks_to(g),
        g.marks_to(k),
    ensures
        h.marks_to(k),
{
    assert forall|a: usize| h.valid(a) implies #[trigger] h.same_obj(k, a) by {
        assert(h.same_obj(g, a));
        assert(g.same_obj(k, a));
    }
    assert forall|a: usize| #[trigger] k.shaded(a) implies h.marked(a) by {
        assert(g.marked(a));
        lemma_marks_to_marked(h, g, a);
    }
}

/// Marking that changes nothing is marking.
pub proof fn lemma_marks_to_refl(h: HeapView)
    ensures
        h.marks_to(h),
{
    reveal(HeapView::marked);
    assert forall|a: usize| #[trigger] h.shaded(a) implies h.marked(a) by {
        lemma_reach_refl(h, a);
    }
}

/// Where only what the roots reach is shaded, and the roots are, marking finds
/// exactly what the roots reach.
pub proof fn lemma_precise_marked(h: HeapView, a: usize)
    requires
        h.wf(),
        h.phase == CollectionPhase::Marking,
        h.precise(),
    ensures
        h.marked(a) == h.reachable(a),
{
    reveal(HeapView::marked);
    reveal(HeapView::reachable);
    if h.marked(a) {
        let x = choose|x: usize| h.shaded(x) && #[trigger] h.reach_from(x, a);
        assert(h.reachable(x));
        let r = choose|r: usize| h.is_root(r) && #[trigger] h.reach_from(r, x);
        lemma_reach_trans(h, r, x, a);
    }
    if h.reachable(a) {
        let r = choose|r: usize| h.is_root(r) && #[trigger] h.reach_from(r, a);
        if r != 0 {
            let i = choose|i: int| h.slot_holds(i, r);
            assert(h.slot_holds(i, r));
        }
        assert(h.shaded(r));
    }
}

} // verus!
