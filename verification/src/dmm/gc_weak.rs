//! The weak pointer.

use vstd::prelude::*;
use crate::dmm::collect::Collect;
use crate::dmm::context::{Finalization, Mutation};
use crate::dmm::gc::Gc;

verus! {

/// A weak pointer to an allocation that holds a `T`.
///
/// It is the same address as a strong pointer, and does not keep its target
/// alive: the collector does not follow it. To get at the target it must be
/// upgraded, which checks that the target is still there.
#[derive(Debug)]
pub struct GcWeak<T> {
    pub(crate) inner: Gc<T>,
}

impl<T> Clone for GcWeak<T> {
    fn clone(&self) -> (r: Self)
        ensures
            r == *self,
    {
        GcWeak { inner: self.inner }
    }
}

impl<T> Copy for GcWeak<T> {

}

impl<T> GcWeak<T> {
    /// The address of the allocation pointed to.
    pub closed spec fn addr(self) -> usize {
        self.inner.addr()
    }

    pub(crate) fn from_strong(gc: Gc<T>) -> (r: GcWeak<T>)
        ensures
            r == GcWeak::of(gc),
            r.addr() == gc.addr(),
    {
        GcWeak { inner: gc }
    }

    /// The weak pointer to the allocation that `gc` points to.
    pub closed spec fn of(gc: Gc<T>) -> GcWeak<T> {
        GcWeak { inner: gc }
    }

    /// The strong pointer to the same allocation.
    pub closed spec fn strong(self) -> Gc<T> {
        self.inner
    }

    /// Upgrades the pointer to a strong pointer, if that is safe.
    ///
    /// It is not once the target is dropped, nor while the collector sweeps
    /// and has decided to drop the target: what is about to be collected is
    /// out of reach as much as what is collected.
    pub fn upgrade<P: Collect>(self, mc: &Mutation<P>) -> (r: Option<Gc<T>>)
        ensures
            r == if mc@.usable(self.addr()) {
                Some(self.strong())
            } else {
                None
            },
            r matches Some(gc) ==> gc.addr() == self.addr(),
    {
        if mc.is_usable(self.inner.as_ptr()) {
            Some(self.inner)
        } else {
            None
        }
    }

    /// Returns whether the target has been dropped.
    ///
    /// This is not the same as a failing `upgrade`: while the collector
    /// sweeps, a target that is about to be dropped cannot be upgraded to, and
    /// is not dropped yet.
    pub fn is_dropped<P: Collect>(self, mc: &Mutation<P>) -> (b: bool)
        ensures
            b == !mc@.live(self.addr()),
    {
        !mc.is_live(self.inner.as_ptr())
    }

    /// Returns true if the target was dead when the finalizing pass began:
    /// marking found no strong pointer to it, and unless it is brought back
    /// it is dropped as soon as collection goes on. A target dropped earlier
    /// is dead too.
    ///
    /// Bringing one object back brings back, once marking goes on, what it
    /// points to; the answer given within the same pass does not change with
    /// that.
    pub fn is_dead<P: Collect>(self, fc: &Finalization<P>) -> (b: bool)
        ensures
            b == fc@.dead(self.addr()),
    {
        Gc::is_dead(fc, self.inner)
    }

    /// Brings a dead target that is not dropped back: marks it as strongly
    /// reachable, and turns the collector back to marking so that what it
    /// points to is marked too. Returns the strong pointer, or `None`, with
    /// nothing changed, if the target is dropped.
    pub fn resurrect<P: Collect>(self, fc: &mut Finalization<P>) -> (r: Option<Gc<T>>)
        requires
            old(fc).wf(),
        ensures
            final(fc).wf(),
            r == if old(fc)@.live(self.addr()) {
                Some(self.strong())
            } else {
                None
            },
            r matches Some(gc) ==> gc.addr() == self.addr(),
            final(fc)@ == if old(fc)@.live(self.addr()) {
                old(fc)@.resurrected(self.addr())
            } else {
                old(fc)@
            },
            forall|x: usize| final(fc).payload(x) == old(fc).payload(x),
    {
        if fc.as_mutation().is_live(self.inner.as_ptr()) {
            Gc::resurrect(fc, self.inner);
            Some(self.inner)
        } else {
            None
        }
    }

    /// Returns true if the two pointers point to the same allocation.
    pub fn ptr_eq(this: GcWeak<T>, other: GcWeak<T>) -> (r: bool)
        ensures
            r == (this.addr() == other.addr()),
    {
        this.as_ptr() == other.as_ptr()
    }

    /// Returns the address of the allocation.
    pub fn as_ptr(self) -> (a: usize)
        ensures
            a == self.addr(),
    {
        Gc::as_ptr(self.inner)
    }

    /// Views the allocation as one that holds a `U`. The address is kept.
    pub fn cast<U>(this: GcWeak<T>) -> (r: GcWeak<U>)
        ensures
            r.addr() == this.addr(),
    {
        let inner = Gc::cast::<U>(this.inner);
        GcWeak { inner }
    }

    /// Forgets what the allocation holds. The address is kept.
    pub fn erase(this: GcWeak<T>) -> (r: GcWeak<()>)
        ensures
            r.addr() == this.addr(),
    {
        GcWeak { inner: Gc::erase(this.inner) }
    }

    /// Makes a weak pointer from an address that `as_ptr` returned, of a weak
    /// or of a strong pointer.
    pub fn from_ptr(ptr: usize) -> (r: GcWeak<T>)
        ensures
            r.addr() == ptr,
    {
        let inner = Gc::from_ptr(ptr);
        GcWeak { inner }
    }
}

/// Pointer equality is an equivalence on addresses: every pointer equals
/// itself, equality does not depend on the order of the two pointers, and it
/// is transitive. A strong pointer and the weak pointer made from it point to
/// the same allocation, so weak pointers are equal exactly when the strong
/// pointers they were made from are.
pub proof fn lemma_ptr_eq_is_equivalence<T>(a: Gc<T>, b: Gc<T>, c: Gc<T>)
    ensures
        a.addr() == a.addr(),
        (a.addr() == b.addr()) == (b.addr() == a.addr()),
        a.addr() == b.addr() && b.addr() == c.addr() ==> a.addr() == c.addr(),
        GcWeak::of(a).addr() == a.addr(),
        (GcWeak::of(a).addr() == GcWeak::of(b).addr()) == (a.addr() == b.addr()),
{
}

} // verus!
