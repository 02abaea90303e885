//! The strong pointer.

use vstd::prelude::*;
use core::marker::PhantomData;
use crate::dmm::collect::Collect;
use crate::dmm::context::Finalization;
use crate::dmm::gc_weak::GcWeak;

verus! {

/// A strong pointer to an allocation that holds a `T`.
///
/// It is the address of the allocation and nothing else: copying it is free,
/// and it keeps its target alive only by being found when the collector traces
/// from the roots.
#[derive(Debug)]
pub struct Gc<T> {
    pub(crate) addr: usize,
    pub(crate) marker: PhantomData<T>,
}

impl<T> Clone for Gc<T> {
    fn clone(&self) -> (r: Self)
        ensures
            r == *self,
    {
        Gc { addr: self.addr, marker: PhantomData }
    }
}

impl<T> Copy for Gc<T> {

}

impl<T> Gc<T> {
    /// The address of the allocation pointed to.
    pub closed spec fn addr(self) -> usize {
        self.addr
    }

    /// Returns true if the two pointers point to the same allocation, whatever
    /// the allocations hold.
    pub fn ptr_eq(this: Gc<T>, other: Gc<T>) -> (r: bool)
        ensures
            r == (this.addr() == other.addr()),
    {
        this.addr == other.addr
    }

    /// Returns the address of the allocation.
    pub fn as_ptr(self) -> (a: usize)
        ensures
            a == self.addr(),
    {
        self.addr
    }

    /// Makes a pointer from an address that `as_ptr` returned. The arena
    /// checks the address whenever the pointer is used.
    pub fn from_ptr(ptr: usize) -> (r: Gc<T>)
        ensures
            r.addr() == ptr,
    {
        Gc { addr: ptr, marker: PhantomData }
    }

    /// Views the allocation as one that holds a `U`. The address is kept.
    pub fn cast<U>(this: Gc<T>) -> (r: Gc<U>)
        ensures
            r.addr() == this.addr(),
    {
        Gc { addr: this.addr, marker: PhantomData }
    }

    /// Forgets what the allocation holds. The address is kept.
    pub fn erase(this: Gc<T>) -> (r: Gc<()>)
        ensures
            r.addr() == this.addr(),
    {
        Gc { addr: this.addr, marker: PhantomData }
    }

    /// Returns true if the target was dead when the finalizing pass began.
    pub fn is_dead<P: Collect>(fc: &Finalization<P>, gc: Gc<T>) -> (b: bool)
        ensures
            b == fc@.dead(gc.addr()),
    {
        fc.is_dead(gc.addr)
    }

    /// Brings the target back in the finalizing pass. The target must not
    /// have been dropped.
    pub fn resurrect<P: Collect>(fc: &mut Finalization<P>, gc: Gc<T>)
        requires
            old(fc).wf(),
            old(fc)@.live(gc.addr()),
        ensures
            final(fc).wf(),
            final(fc)@ == old(fc)@.resurrected(gc.addr()),
            forall|x: usize| final(fc).payload(x) == old(fc).payload(x),
    {
        fc.resurrect(gc.addr);
    }

    /// Makes a weak pointer to the same allocation.
    pub fn downgrade(this: Gc<T>) -> (r: GcWeak<T>)
        ensures
            r == GcWeak::of(this),
            r.addr() == this.addr(),
    {
        GcWeak::from_strong(this)
    }
}

} // verus!
