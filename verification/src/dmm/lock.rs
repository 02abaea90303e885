//! Cells that can be written only together with the write barrier.

use vstd::prelude::*;
use crate::dmm::collect::{Collect, Trace};
use crate::dmm::context::Mutation;
use crate::dmm::gc::Gc;
use crate::dmm::types::WriteError;

verus! {

/// A cell for a value kept in an arena.
///
/// Anyone may read it. It is written only through a strong pointer to the
/// allocation that holds it and the arena's mutation capability, and the write
/// runs the write barrier on that allocation.
pub struct Lock<T> {
    value: T,
}

/// A cell for a value that is read by reference. In this arena every cell
/// is: a `Lock` lends its value to readers and is written as a whole.
pub type RefLock<T> = Lock<T>;

/// A strong pointer to an allocation that holds a cell.
pub type GcLock<T> = Gc<Lock<T>>;

/// A strong pointer to an allocation that holds a cell read by reference.
pub type GcRefLock<T> = Gc<RefLock<T>>;

impl<T> View for Lock<T> {
    type V = T;

    closed spec fn view(&self) -> T {
        self.value
    }
}

impl<T> Lock<T> {
    /// A cell that holds `value`.
    pub fn new(value: T) -> (lock: Lock<T>)
        ensures
            lock@ == value,
    {
        Lock { value }
    }

    /// Reads the cell.
    pub fn get(&self) -> (value: &T)
        ensures
            *value == self@,
    {
        &self.value
    }

    /// Takes the value out of the cell.
    pub fn into_inner(self) -> (value: T)
        ensures
            value == self@,
    {
        self.value
    }
}

impl<T: Collect> Collect for Lock<T> {
    open spec fn edges(&self) -> Set<usize> {
        self@.edges()
    }

    open spec fn pointer_count(&self, a: usize) -> nat {
        self@.pointer_count(a)
    }

    open spec fn needs_trace_spec() -> bool {
        T::needs_trace_spec()
    }

    fn needs_trace() -> (b: bool) {
        T::needs_trace()
    }

    proof fn lemma_no_trace_no_edges(&self) {
        self@.lemma_no_trace_no_edges();
    }

    fn trace(&self, cc: &mut Trace) {
        cc.trace(&self.value);
    }
}

impl<T: Collect> Gc<Lock<T>> {
    /// Reads the cell that the pointer points to. There is none to read once
    /// the collector has dropped it or decided to.
    pub fn get<'a>(self, mc: &'a Mutation<Lock<T>>) -> (r: Option<&'a T>)
        requires
            mc.heap_wf(),
        ensures
            r is Some <==> mc@.usable(self.addr()),
            r matches Some(v) ==> mc.payload(self.addr()) matches Some(lock) && lock@ == *v,
    {
        match mc.get(self) {
            Some(lock) => Some(lock.get()),
            None => None,
        }
    }

    /// Writes `value` to the cell that the pointer points to, running the
    /// write barrier on the allocation, and returns what the cell held.
    ///
    /// The write is refused if the allocation, or something that the value
    /// holds a strong pointer to, may not be handed out; the arena is then
    /// left as it was.
    pub fn set(self, mc: &mut Mutation<Lock<T>>, value: T) -> (r: Result<T, WriteError>)
        requires
            old(mc).wf(),
        ensures
            final(mc).wf(),
            match r {
                Ok(before) => {
                    &&& old(mc)@.write_error(self.addr(), value.edges()) is None
                    &&& old(mc).payload(self.addr()) matches Some(lock) && lock@ == before
                    &&& final(mc)@ == old(mc)@.written(self.addr(), value.edges())
                    &&& final(mc).payload(self.addr()) matches Some(lock) && lock@ == value
                    &&& forall|x: usize|
                        x != self.addr() ==> final(mc).payload(x) == old(mc).payload(x)
                },
                Err(e) => {
                    &&& old(mc)@.write_error(self.addr(), value.edges()) == Some(e)
                    &&& final(mc)@ == old(mc)@
                    &&& forall|x: usize| final(mc).payload(x) == old(mc).payload(x)
                },
            },
    {
        match mc.replace(self, Lock::new(value)) {
            Ok(before) => Ok(before.into_inner()),
            Err(e) => Err(e),
        }
    }
}

} // verus!
