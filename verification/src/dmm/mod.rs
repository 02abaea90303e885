//! A tracing garbage collector over an index-addressed arena.
//!
//! An [`Arena`] owns a table of allocations. An address is an index into the
//! table and is never given to another allocation, so a pointer, strong
//! ([`Gc`]) or weak ([`GcWeak`]), is an address and nothing else, and can be
//! checked whenever it is used: the arena refuses a pointer to what it has
//! dropped or decided to drop, instead of following it.
//!
//! The host changes the graph through the [`Mutation`] capability, which the
//! arena lends out for one unit of host activity. Every write replaces the
//! payload of one allocation and runs the write barrier on it ([`Lock`]).
//! Between two such units the host asks the arena for a bounded step of
//! collection.
//!
//! The collector is a tri-colour mark and sweep. While marking, it takes Gray
//! objects off a worklist, shades what they point to, and paints them Black.
//! When the worklist is empty it opens the finalizing pass, in which the host
//! may ask which objects are dead and bring some back through the
//! [`Finalization`] capability. Then it sweeps: it drops every live object
//! that marking left White, paints the others White, and starts over.
//!
//! How much work a step does is decided by the [`Metrics`]: each
//! `wakeup_amount` bytes allocated pay for one unit, an object marked or
//! swept.
//!
//! What the collector guarantees of the objects it keeps and drops is stated
//! in [`safety`], and how soon it drops what has become unreachable in
//! [`progress`].
//!
//! What a type kept in an arena points to, the collector learns through
//! [`Collect`]; what an implementation derived from the shape of a type
//! consists of is decided in [`collect_derive`].

pub mod arena;
pub mod collect;
pub mod collect_derive;
pub mod collect_impl;
pub mod context;
pub mod dynamic_roots;
pub mod gc;
pub mod gc_weak;
pub mod hashbrown;
pub mod invariants;
pub mod lock;
pub mod metrics;
pub mod progress;
pub mod reach;
pub mod safety;
pub mod types;
pub mod unelide;

pub use self::arena::Arena;
pub use self::collect::{Collect, Trace};
pub use self::context::{Finalization, Mutation};
pub use self::dynamic_roots::{DynamicRoot, DynamicRootSet, FetchError, TypeTag};
pub use self::gc::Gc;
pub use self::gc_weak::GcWeak;
pub use self::lock::{GcLock, GcRefLock, Lock, RefLock};
pub use self::metrics::Metrics;
pub use self::types::{AllocError, CollectionPhase, GcColor, HeapView, ObjView, WriteError};
