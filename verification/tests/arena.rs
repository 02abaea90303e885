use tcvm::dmm::{
    AllocError, Arena, CollectionPhase, DynamicRootSet, FetchError, Gc, GcColor, GcLock, GcWeak, Lock,
    TypeTag, WriteError,
};

type Node = (u64, Vec<Gc<()>>);

fn node(tag: u64, edges: &[Gc<Node>]) -> Node {
    (tag, edges.iter().map(|g| Gc::erase(*g)).collect())
}

fn new_arena(wakeup: usize) -> Arena<Node> {
    Arena::new(node(0, &[]), 16, wakeup).unwrap()
}

/// An arena at the start of a cycle whose root points to `a`, with `b`
/// allocated and unreachable, both White.
fn arena_with_white_objects() -> (Arena<Node>, Gc<Node>, Gc<Node>) {
    let mut arena = new_arena(64);
    assert!(arena.mark_all());
    // The collector sweeps now: what is allocated is White and out of the
    // sweep's range.
    let (mc, root) = arena.enter();
    assert_eq!(mc.phase(), CollectionPhase::Sweeping);
    let a = mc.allocate(node(1, &[]), 8).unwrap();
    let b = mc.allocate(node(2, &[]), 8).unwrap();
    assert_eq!(mc.color(a), Some(GcColor::White));
    mc.replace(root, node(0, &[a])).unwrap();
    // Finish the sweep; the next cycle starts with the root Gray.
    while arena.phase() == CollectionPhase::Sweeping {
        arena.step(1);
    }
    (arena, a, b)
}

#[test]
fn arena_starts_marking_with_root() {
    let arena = new_arena(64);
    assert_eq!(arena.phase(), CollectionPhase::Marking);
    assert!(!arena.is_finalizing());
    assert_eq!(arena.metrics().total_allocated(), 16);
    assert_eq!(arena.metrics().allocated_bytes(), 16);
    assert_eq!(arena.metrics().freed_bytes(), 0);
    assert_eq!(arena.metrics().wakeup_amount(), 64);
    assert_eq!(arena.metrics().work_done(), 0);
    assert_eq!(arena.root().as_ptr(), 0);
}

#[test]
fn arena_refuses_root_with_foreign_pointer() {
    let r: Option<Arena<Node>> = Arena::new((0, vec![Gc::from_ptr(7)]), 16, 64);
    assert!(r.is_none());
    let r: Option<Arena<Node>> = Arena::new((0, vec![Gc::from_ptr(0)]), 16, 64);
    assert!(r.is_some());
}

#[test]
fn allocation_is_gray_while_marking_and_white_while_sweeping() {
    let mut arena = new_arena(64);
    let mc = arena.mutation();
    assert_eq!(mc.phase(), CollectionPhase::Marking);
    let a = mc.allocate(node(1, &[]), 8).unwrap();
    assert_eq!(mc.color(a), Some(GcColor::Gray));
    assert!(arena.mark_all());
    let mc = arena.mutation();
    assert_eq!(mc.phase(), CollectionPhase::Sweeping);
    let b = mc.allocate(node(2, &[]), 8).unwrap();
    assert_eq!(mc.color(b), Some(GcColor::White));
    assert_eq!(mc.color(Gc::<Node>::from_ptr(99)), None);
}

#[test]
fn allocation_counts_bytes() {
    let mut arena = new_arena(64);
    let mc = arena.mutation();
    mc.allocate(node(1, &[]), 24).unwrap();
    mc.allocate(node(2, &[]), 40).unwrap();
    assert_eq!(mc.metrics().total_allocated(), 80);
    assert_eq!(mc.metrics().allocated_bytes(), 80);
    assert_eq!(mc.len(), 3);
}

#[test]
fn allocation_refuses_invalid_pointer() {
    let mut arena = new_arena(64);
    let mc = arena.mutation();
    let r = mc.allocate((1, vec![Gc::from_ptr(5)]), 8);
    assert_eq!(r.err(), Some(AllocError::InvalidPointer));
    assert_eq!(mc.len(), 1);
    assert_eq!(mc.metrics().total_allocated(), 16);
}

#[test]
fn allocation_refuses_when_counters_are_full() {
    let mut arena = new_arena(64);
    let mc = arena.mutation();
    let r = mc.allocate(node(1, &[]), usize::MAX);
    assert_eq!(r.err(), Some(AllocError::OutOfMemory));
    let r = mc.allocate(node(1, &[]), usize::MAX - 16);
    assert!(r.is_ok());
}

#[test]
fn distinct_allocations_of_equal_value_are_not_pointer_equal() {
    let mut arena = new_arena(64);
    let mc = arena.mutation();
    let a = mc.allocate(node(1, &[]), 8).unwrap();
    let b = mc.allocate(node(1, &[]), 8).unwrap();
    assert_eq!(mc.get(a).unwrap().0, mc.get(b).unwrap().0);
    assert!(!Gc::ptr_eq(a, b));
    assert!(!GcWeak::ptr_eq(Gc::downgrade(a), Gc::downgrade(b)));
}

#[test]
fn pointer_equality_is_reflexive_and_symmetric() {
    let a: Gc<Node> = Gc::from_ptr(3);
    let b: Gc<Node> = Gc::from_ptr(3);
    let c: Gc<Node> = Gc::from_ptr(4);
    assert!(Gc::ptr_eq(a, a));
    assert!(Gc::ptr_eq(a, b));
    assert!(Gc::ptr_eq(b, a));
    assert!(!Gc::ptr_eq(a, c));
    assert!(!Gc::ptr_eq(c, a));
    let wa = Gc::downgrade(a);
    let wb = Gc::downgrade(b);
    let wc = Gc::downgrade(c);
    assert!(GcWeak::ptr_eq(wa, wa));
    assert!(GcWeak::ptr_eq(wa, wb));
    assert!(GcWeak::ptr_eq(wb, wa));
    assert!(!GcWeak::ptr_eq(wa, wc));
    assert_eq!(wa.as_ptr(), a.as_ptr());
}

#[test]
fn casts_keep_the_address() {
    let a: Gc<Node> = Gc::from_ptr(11);
    assert_eq!(Gc::erase(a).as_ptr(), 11);
    assert_eq!(Gc::cast::<u64>(a).as_ptr(), 11);
    let w: GcWeak<Node> = GcWeak::from_ptr(12);
    assert_eq!(w.as_ptr(), 12);
    assert_eq!(GcWeak::erase(w).as_ptr(), 12);
    assert_eq!(GcWeak::cast::<u64>(w).as_ptr(), 12);
    let copy = w;
    assert!(GcWeak::ptr_eq(copy, w.clone()));
}

#[test]
fn unreachable_object_is_dropped_by_full_cycle() {
    let (mut arena, a, b) = arena_with_white_objects();
    arena.collect_all();
    let mc = arena.mutation();
    assert!(!Gc::downgrade(a).is_dropped(mc));
    assert!(Gc::downgrade(b).is_dropped(mc));
    assert_eq!(mc.get(a).unwrap().0, 1);
    assert!(mc.get(b).is_none());
    assert_eq!(mc.metrics().freed_bytes(), 8);
    assert_eq!(mc.metrics().total_allocated(), 32);
    assert_eq!(mc.metrics().allocated_bytes(), 0);
    assert_eq!(mc.phase(), CollectionPhase::Marking);
}

#[test]
fn dropped_object_stays_dropped_and_is_freed_once() {
    let (mut arena, _a, b) = arena_with_white_objects();
    arena.collect_all();
    assert_eq!(arena.metrics().freed_bytes(), 8);
    arena.collect_all();
    arena.collect_all();
    assert_eq!(arena.metrics().freed_bytes(), 8);
    let mc = arena.mutation();
    assert!(Gc::downgrade(b).is_dropped(mc));
}

#[test]
fn marking_leaves_no_reachable_object_white() {
    let mut arena = new_arena(64);
    arena.collect_all();
    let (mc, root) = arena.enter();
    let c = mc.allocate(node(3, &[]), 8).unwrap();
    let b = mc.allocate(node(2, &[c]), 8).unwrap();
    let a = mc.allocate(node(1, &[b]), 8).unwrap();
    mc.replace(root, node(0, &[a])).unwrap();
    arena.collect_all();
    assert!(arena.mark_all());
    assert_eq!(arena.phase(), CollectionPhase::Sweeping);
    assert!(arena.is_finalizing());
    let fc = arena.finalization().unwrap();
    for g in [root, a, b, c] {
        assert_eq!(fc.as_mutation().color(g), Some(GcColor::Black));
        assert!(!Gc::is_dead(fc, g));
    }
}

#[test]
fn mark_all_does_nothing_while_sweeping() {
    let mut arena = new_arena(64);
    assert!(arena.mark_all());
    assert!(!arena.mark_all());
    assert!(arena.is_finalizing());
}

#[test]
fn weak_pointer_does_not_keep_target_alive() {
    let (mut arena, _a, b) = arena_with_white_objects();
    let w: GcWeak<Node> = Gc::downgrade(b);
    assert!(w.upgrade(arena.mutation()).is_some());
    arena.collect_all();
    let mc = arena.mutation();
    assert!(w.is_dropped(mc));
    assert!(w.upgrade(mc).is_none());
}

#[test]
fn upgrade_fails_while_sweeping_before_the_drop() {
    let (mut arena, a, b) = arena_with_white_objects();
    assert!(arena.mark_all());
    let mc = arena.mutation();
    assert_eq!(mc.phase(), CollectionPhase::Sweeping);
    let w = Gc::downgrade(b);
    assert!(!w.is_dropped(mc));
    assert!(w.upgrade(mc).is_none());
    assert!(mc.get(b).is_none());
    assert!(Gc::downgrade(a).upgrade(mc).is_some());
    assert!(!mc.is_usable(b.as_ptr()));
    assert!(mc.is_live(b.as_ptr()));
}

#[test]
fn upgrade_of_unknown_address_fails() {
    let mut arena = new_arena(64);
    let mc = arena.mutation();
    let w: GcWeak<Node> = GcWeak::from_ptr(1000);
    assert!(w.upgrade(mc).is_none());
    assert!(w.is_dropped(mc));
}

#[test]
fn finalization_is_lent_only_while_finalizing() {
    let mut arena = new_arena(64);
    assert!(arena.finalization().is_none());
    assert!(arena.mark_all());
    assert!(arena.finalization().is_some());
    let _ = arena.mutation();
    assert!(arena.finalization().is_none());
    assert!(!arena.is_finalizing());
}

#[test]
fn resurrection_keeps_object_and_what_it_reaches() {
    let mut arena = new_arena(64);
    assert!(arena.mark_all());
    let mc = arena.mutation();
    let c = mc.allocate(node(3, &[]), 8).unwrap();
    let b = mc.allocate(node(2, &[c]), 8).unwrap();
    let lone = mc.allocate(node(4, &[]), 8).unwrap();
    while arena.phase() == CollectionPhase::Sweeping {
        arena.step(1);
    }
    assert!(arena.mark_all());
    let wb = Gc::downgrade(b);
    let wc = Gc::downgrade(c);
    let fc = arena.finalization().unwrap();
    assert!(wb.is_dead(fc));
    assert!(wc.is_dead(fc));
    assert!(!wb.is_dropped(fc.as_mutation()));
    assert!(!GcWeak::<Node>::from_ptr(0).is_dead(fc));
    let strong = wb.resurrect(fc).unwrap();
    assert!(Gc::ptr_eq(strong, b));
    // Dead when the pass began, whatever happened since.
    assert!(wb.is_dead(fc));
    assert!(wc.is_dead(fc));
    assert_eq!(fc.as_mutation().phase(), CollectionPhase::Marking);
    assert_eq!(fc.as_mutation().color(b), Some(GcColor::Gray));
    arena.collect_all();
    let mc = arena.mutation();
    assert!(!wb.is_dropped(mc));
    assert!(!wc.is_dropped(mc));
    assert!(Gc::downgrade(lone).is_dropped(mc));
    assert_eq!(mc.get(c).unwrap().0, 3);
    // Nothing roots them: the next cycle drops them.
    arena.collect_all();
    let mc = arena.mutation();
    assert!(wb.is_dropped(mc));
    assert!(wc.is_dropped(mc));
}

#[test]
fn resurrect_of_dropped_object_gives_nothing() {
    let (mut arena, _a, b) = arena_with_white_objects();
    arena.collect_all();
    assert!(arena.mark_all());
    let fc = arena.finalization().unwrap();
    let w = Gc::downgrade(b);
    assert!(w.is_dead(fc));
    assert!(w.resurrect(fc).is_none());
    assert_eq!(fc.as_mutation().phase(), CollectionPhase::Sweeping);
    assert!(GcWeak::<Node>::from_ptr(500).is_dead(fc));
    assert!(GcWeak::<Node>::from_ptr(500).resurrect(fc).is_none());
}

#[test]
fn finalizing_opens_again_after_resurrection() {
    let (mut arena, _a, b) = arena_with_white_objects();
    assert!(arena.mark_all());
    let fc = arena.finalization().unwrap();
    Gc::resurrect(fc, b);
    // Marking goes on, and ends in another finalizing pass.
    assert_eq!(arena.phase(), CollectionPhase::Marking);
    let work = arena.step(10);
    assert_eq!(work, 1);
    assert_eq!(arena.phase(), CollectionPhase::Sweeping);
    assert!(arena.is_finalizing());
    let fc = arena.finalization().unwrap();
    assert!(!Gc::is_dead(fc, b));
}

#[test]
fn write_barrier_grays_black_container() {
    let (mut arena, a, b) = arena_with_white_objects();
    let root = arena.root();
    assert_eq!(arena.phase(), CollectionPhase::Marking);
    // One unit of work traces the root: it is Black, `a` Gray, `b` White.
    assert_eq!(arena.step(1), 1);
    let mc = arena.mutation();
    assert_eq!(mc.color(root), Some(GcColor::Black));
    assert_eq!(mc.color(a), Some(GcColor::Gray));
    assert_eq!(mc.color(b), Some(GcColor::White));
    mc.replace(root, node(0, &[a, b])).unwrap();
    assert_eq!(mc.color(root), Some(GcColor::Gray));
    assert_eq!(mc.color(b), Some(GcColor::White));
    assert!(arena.mark_all());
    let mc = arena.mutation();
    assert_eq!(mc.color(b), Some(GcColor::Black));
    arena.collect_all();
    assert!(!Gc::downgrade(b).is_dropped(arena.mutation()));
}

#[test]
fn write_barrier_leaves_other_colors_alone() {
    let (mut arena, a, b) = arena_with_white_objects();
    let mc = arena.mutation();
    mc.write_barrier(b);
    assert_eq!(mc.color(b), Some(GcColor::White));
    mc.write_barrier(Gc::from_ptr(0));
    assert_eq!(mc.color(Gc::<Node>::from_ptr(0)), Some(GcColor::Gray));
    assert!(arena.mark_all());
    let mc = arena.mutation();
    mc.write_barrier(a);
    assert_eq!(mc.color(a), Some(GcColor::Black));
}

#[test]
fn replace_returns_old_payload_and_checks_pointers() {
    let mut arena = new_arena(64);
    let (mc, root) = arena.enter();
    let a = mc.allocate(node(1, &[]), 8).unwrap();
    let before = mc.replace(a, node(5, &[root])).unwrap();
    assert_eq!(before.0, 1);
    assert_eq!(mc.get(a).unwrap().0, 5);
    let r = mc.replace(a, (6, vec![Gc::from_ptr(77)]));
    assert_eq!(r.err(), Some(WriteError::InvalidPointer));
    assert_eq!(mc.get(a).unwrap().0, 5);
    let r = mc.replace(Gc::from_ptr(77), node(6, &[]));
    assert_eq!(r.err(), Some(WriteError::InvalidTarget));
}

#[test]
fn lock_reads_and_writes_through_the_arena() {
    let mut arena: Arena<Lock<u64>> = Arena::new(Lock::new(1), 8, 64).unwrap();
    let (mc, _root) = arena.enter();
    let cell: GcLock<u64> = mc.allocate(Lock::new(10), 8).unwrap();
    assert_eq!(cell.get(mc), Some(&10));
    assert_eq!(cell.set(mc, 20), Ok(10));
    assert_eq!(cell.get(mc), Some(&20));
    let gone: GcLock<u64> = Gc::from_ptr(9);
    assert_eq!(gone.get(mc), None);
    assert_eq!(gone.set(mc, 1), Err(WriteError::InvalidTarget));
    assert_eq!(*Lock::new(3u64).get(), 3);
    assert_eq!(Lock::new(4u64).into_inner(), 4);
}

#[test]
fn dynamic_root_round_trip() {
    let mut arena = new_arena(64);
    let mc = arena.mutation();
    let set = DynamicRootSet::new(mc);
    let v = mc.allocate(node(7, &[]), 8).unwrap();
    let root = set.stash(mc, v, TypeTag(1)).unwrap();
    assert_eq!(root.as_ptr(), v.as_ptr());
    let back: Gc<Node> = set.fetch(mc, &root, TypeTag(1)).unwrap();
    assert!(Gc::ptr_eq(back, v));
    let wrong: Result<Gc<u64>, FetchError> = set.fetch(mc, &root, TypeTag(2));
    assert_eq!(wrong.err(), Some(FetchError::MismatchedType));
}

#[test]
fn dynamic_root_keeps_target_alive_until_released() {
    let (mut arena, _a, b) = arena_with_white_objects();
    let mc = arena.mutation();
    let set = DynamicRootSet::new(mc);
    let root = set.stash(mc, b, TypeTag(1)).unwrap();
    // Stashed while marking: shaded at once.
    assert_eq!(mc.color(b), Some(GcColor::Gray));
    arena.collect_all();
    arena.collect_all();
    let mc = arena.mutation();
    assert!(!Gc::downgrade(b).is_dropped(mc));
    assert_eq!(mc.color(b), Some(GcColor::Gray));
    assert!(set.release(mc, root));
    arena.collect_all();
    arena.collect_all();
    assert!(Gc::downgrade(b).is_dropped(arena.mutation()));
}

#[test]
fn dynamic_root_of_other_set_is_refused() {
    let mut first = new_arena(64);
    let mut second = new_arena(64);
    let mc1 = first.mutation();
    let mc2 = second.mutation();
    let set = DynamicRootSet::new(mc1);
    let v = mc1.allocate(node(7, &[]), 8).unwrap();
    let root = set.stash(mc1, v, TypeTag(1)).unwrap();
    let r: Result<Gc<Node>, FetchError> = set.fetch(mc2, &root, TypeTag(1));
    assert_eq!(r.err(), Some(FetchError::MismatchedRootSet));
    assert!(!set.release(mc2, root));
}

#[test]
fn dynamic_root_slots_are_reused() {
    let mut arena = new_arena(64);
    let mc = arena.mutation();
    let set = DynamicRootSet::new(mc);
    let a = mc.allocate(node(1, &[]), 8).unwrap();
    let b = mc.allocate(node(2, &[]), 8).unwrap();
    let ra = set.stash(mc, a, TypeTag(1)).unwrap();
    let rb = set.stash(mc, b, TypeTag(1)).unwrap();
    assert!(set.release(mc, ra));
    let rc = set.stash(mc, b, TypeTag(1)).unwrap();
    let back: Gc<Node> = set.fetch(mc, &rc, TypeTag(1)).unwrap();
    assert!(Gc::ptr_eq(back, b));
    let back: Gc<Node> = set.fetch(mc, &rb, TypeTag(1)).unwrap();
    assert!(Gc::ptr_eq(back, b));
    assert!(set.stash(mc, Gc::<Node>::from_ptr(50), TypeTag(1)).is_none());
}

#[test]
fn object_allocated_while_marking_is_dropped_by_the_next_full_cycle() {
    let mut arena = new_arena(1);
    assert_eq!(arena.phase(), CollectionPhase::Marking);
    let mc = arena.mutation();
    let a = mc.allocate(node(1, &[]), 8).unwrap();
    assert_eq!(mc.color(a), Some(GcColor::Gray));
    // Nothing ever points to `a`. The cycle under way keeps it, being Gray;
    // the next one, run from its start, drops it.
    let objects = arena.mutation().len();
    let mut steps = 0;
    let mut cycles = 0;
    let mut last = arena.phase();
    while cycles < 2 {
        arena.step(1);
        steps += 1;
        let now = arena.phase();
        if last == CollectionPhase::Sweeping && now == CollectionPhase::Marking {
            cycles += 1;
        }
        last = now;
        assert!(steps <= 100);
    }
    assert!(Gc::downgrade(a).is_dropped(arena.mutation()));
    // Each cycle marks and sweeps each object once, and takes one step more
    // to pass from one phase to the next.
    assert!(steps <= 2 * (2 * objects + 2));
}

#[test]
fn steps_are_paced_by_allocation_debt() {
    let threshold = 100;
    let mut arena = new_arena(threshold);
    // 16 bytes of debt: under the threshold, nothing is done.
    assert_eq!(arena.metrics().allocation_debt(), 0);
    assert_eq!(arena.collect_debt(), 0);
    assert_eq!(arena.phase(), CollectionPhase::Marking);
    let mc = arena.mutation();
    for i in 0..20 {
        mc.allocate(node(i, &[]), 8).unwrap();
    }
    // A tenth of the threshold more earns nothing more.
    mc.allocate(node(0, &[]), threshold / 10).unwrap();
    assert_eq!(mc.metrics().allocated_bytes(), 186);
    assert_eq!(mc.metrics().allocation_debt(), 1);
    assert_eq!(arena.collect_debt(), 1);
    assert_eq!(arena.metrics().work_done(), 1);
    assert_eq!(arena.collect_debt(), 0);
    // A tenth of the threshold earns no work.
    let mc = arena.mutation();
    mc.allocate(node(0, &[]), threshold / 10).unwrap();
    assert_eq!(arena.collect_debt(), 0);
    // The threshold earns one unit, ten times the threshold ten.
    let mc = arena.mutation();
    mc.allocate(node(0, &[]), threshold).unwrap();
    assert_eq!(arena.collect_debt(), 1);
    let mc = arena.mutation();
    mc.allocate(node(0, &[]), 10 * threshold).unwrap();
    assert_eq!(arena.metrics().allocation_debt(), 10);
    assert_eq!(arena.collect_debt(), 10);
    assert_eq!(arena.metrics().work_done(), 12);
}

#[test]
fn step_stops_at_phase_boundaries() {
    let mut arena = new_arena(64);
    let mc = arena.mutation();
    for i in 0..3 {
        mc.allocate(node(i, &[]), 8).unwrap();
    }
    // Four Gray objects: marking ends after four units, whatever the budget.
    assert_eq!(arena.step(100), 4);
    assert!(arena.is_finalizing());
    // The sweep covers the four allocations and starts the next cycle.
    assert_eq!(arena.step(2), 2);
    assert_eq!(arena.phase(), CollectionPhase::Sweeping);
    assert_eq!(arena.step(100), 2);
    assert_eq!(arena.phase(), CollectionPhase::Marking);
    assert_eq!(arena.metrics().work_done(), 0);
    assert_eq!(arena.metrics().allocated_bytes(), 0);
    assert_eq!(arena.step(0), 0);
}

#[test]
fn cleared_root_set_roots_nothing() {
    let (mut arena, _a, b) = arena_with_white_objects();
    let mc = arena.mutation();
    let set = DynamicRootSet::new(mc);
    let root = set.stash(mc, b, TypeTag(1)).unwrap();
    set.clear(mc);
    let r: Result<Gc<Node>, FetchError> = set.fetch(mc, &root, TypeTag(1));
    assert_eq!(r.err(), Some(FetchError::MismatchedRootSet));
    arena.collect_all();
    arena.collect_all();
    assert!(Gc::downgrade(b).is_dropped(arena.mutation()));
}

#[test]
fn visitor_counts_what_it_is_shown() {
    let mut cc = tcvm::dmm::Trace::new();
    assert_eq!(cc.count(), 0);
    cc.trace_gc(Gc::<Node>::from_ptr(1));
    cc.trace_gc(Gc::<Node>::from_ptr(1));
    cc.trace_gc_weak(GcWeak::<Node>::from_ptr(2));
    assert_eq!(cc.count(), 2);
}
