//! Roots that outlive the scope in which they were made.

use vstd::prelude::*;
use crate::dmm::collect::Collect;
use crate::dmm::context::Mutation;
use crate::dmm::gc::Gc;
use crate::dmm::invariants;
use crate::dmm::types::HeapView;

verus! {

/// The runtime name of a type. Two tags are the same type exactly if they are
/// equal.
#[derive(Debug, Clone, Copy, PartialEq, Eq, Structural)]
pub struct TypeTag(pub u64);

/// Why a dynamic root could not be fetched.
#[derive(Debug, Clone, Copy, PartialEq, Eq, Structural)]
pub enum FetchError {
    /// The root was stashed as a value of another type.
    MismatchedType,
    /// The root is not held by this arena's set.
    MismatchedRootSet,
}

/// A root that is independent of any scope: its target, with the type erased,
/// and its place in the set that keeps the target alive. It roots the target
/// until it is released.
#[derive(Debug)]
pub struct DynamicRoot {
    slot: usize,
    addr: usize,
    tag: TypeTag,
}

impl DynamicRoot {
    /// The slot of the set that holds the root.
    pub closed spec fn slot(&self) -> usize {
        self.slot
    }

    /// The address of the target.
    pub closed spec fn addr(&self) -> usize {
        self.addr
    }

    /// The type that the target was stashed as.
    pub closed spec fn tag(&self) -> TypeTag {
        self.tag
    }

    /// Returns the address of the target.
    pub fn as_ptr(&self) -> (a: usize)
        ensures
            a == self.addr(),
    {
        self.addr
    }
}

/// What fetching a root of slot `slot`, target `addr` and type `stashed` as a
/// value of type `wanted` gives: the address, if the types agree and the set
/// holds the root.
pub open spec fn fetch_spec(
    h: HeapView,
    slot: usize,
    addr: usize,
    stashed: TypeTag,
    wanted: TypeTag,
) -> Result<usize, FetchError> {
    if stashed != wanted {
        Err(FetchError::MismatchedType)
    } else if !h.slot_holds(slot as int, addr) {
        Err(FetchError::MismatchedRootSet)
    } else {
        Ok(addr)
    }
}

/// The set of dynamic roots of an arena. The collector traces each of them as
/// a root in every cycle.
#[derive(Debug, Clone, Copy)]
pub struct DynamicRootSet {}

impl DynamicRootSet {
    /// The set of dynamic roots of the arena.
    pub fn new<P: Collect>(mc: &Mutation<P>) -> (set: DynamicRootSet) {
        DynamicRootSet {  }
    }

    /// Puts a root to the target of `gc`, as a value of type `tag`, into the
    /// set: in its first empty slot, or in a new one. While marking goes on
    /// the target is shaded.
    ///
    /// Nothing is stashed if the target may not be handed out.
    pub fn stash<P: Collect, T>(self, mc: &mut Mutation<P>, gc: Gc<T>, tag: TypeTag) -> (r: Option<
        DynamicRoot,
    >)
        requires
            old(mc).wf(),
        ensures
            final(mc).wf(),
            r is Some <==> old(mc)@.usable(gc.addr()),
            r matches Some(root) ==> {
                &&& root.addr() == gc.addr()
                &&& root.tag() == tag
                &&& old(mc)@.free_slot(root.slot() as int)
                &&& final(mc)@ == old(mc)@.stashed(root.slot() as int, gc.addr())
            },
            r is None ==> final(mc)@ == old(mc)@,
            forall|x: usize| final(mc).payload(x) == old(mc).payload(x),
    {
        let addr = gc.as_ptr();
        match mc.add_root(addr) {
            Some(slot) => Some(DynamicRoot { slot, addr, tag }),
            None => None,
        }
    }

    /// Turns a root back into a strong pointer to a value of type `tag`.
    ///
    /// The type is checked: a root stashed as another type is not handed out
    /// as this one. A root that this arena's set does not hold is refused too.
    pub fn fetch<P: Collect, T>(self, mc: &Mutation<P>, root: &DynamicRoot, tag: TypeTag) -> (r:
        Result<Gc<T>, FetchError>)
        ensures
            match r {
                Ok(gc) => fetch_spec(mc@, root.slot(), root.addr(), root.tag(), tag) == Ok::<
                    usize,
                    FetchError,
                >(gc.addr()),
                Err(e) => fetch_spec(mc@, root.slot(), root.addr(), root.tag(), tag) == Err::<
                    usize,
                    FetchError,
                >(e),
            },
    {
        if root.tag.0 != tag.0 {
            return Err(FetchError::MismatchedType);
        }
        if !mc.root_holds(root.slot, root.addr) {
            return Err(FetchError::MismatchedRootSet);
        }
        Ok(Gc::from_ptr(root.addr))
    }

    /// Tears the set down: every root in it stops rooting its target, and
    /// can be fetched no more.
    pub fn clear<P: Collect>(self, mc: &mut Mutation<P>)
        requires
            old(mc).wf(),
        ensures
            final(mc).wf(),
            final(mc)@ == old(mc)@.cleared(old(mc)@.roots.len() as int),
            forall|x: usize| final(mc).payload(x) == old(mc).payload(x),
    {
        mc.clear_roots();
    }

    /// Takes a root out of the set: it stops rooting its target. Returns
    /// false, with nothing changed, if the set does not hold the root.
    pub fn release<P: Collect>(self, mc: &mut Mutation<P>, root: DynamicRoot) -> (b: bool)
        requires
            old(mc).wf(),
        ensures
            final(mc).wf(),
            b == old(mc)@.slot_holds(root.slot() as int, root.addr()),
            final(mc)@ == if b {
                old(mc)@.released(root.slot() as int)
            } else {
                old(mc)@
            },
            forall|x: usize| final(mc).payload(x) == old(mc).payload(x),
    {
        if mc.root_holds(root.slot, root.addr) {
            mc.remove_root(root.slot);
            true
        } else {
            false
        }
    }
}

/// The round trip of a dynamic root: a root stashed as a value of one type and
/// fetched as that type gives the address it was stashed with, and fetched as
/// any other type gives a type error.
pub proof fn lemma_stash_fetch(h: HeapView, slot: usize, addr: usize, tag: TypeTag, other: TypeTag)
    requires
        h.wf(),
        !h.finalizing,
        h.usable(addr),
        h.free_slot(slot as int),
    ensures
        fetch_spec(h.stashed(slot as int, addr), slot, addr, tag, tag) == Ok::<usize, FetchError>(
            addr,
        ),
        other != tag ==> fetch_spec(h.stashed(slot as int, addr), slot, addr, tag, other) == Err::<
            usize,
            FetchError,
        >(FetchError::MismatchedType),
{
    invariants::lemma_stash_inv(h, slot as int, addr);
}

} // verus!
