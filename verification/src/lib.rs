//! A register machine in the style of the Lua virtual machine, and the
//! garbage-collected arena that holds its heap.
//!
//! The heart of the crate is [`dmm`], an incremental tracing collector: an
//! arena that owns an object graph, strong and weak pointers into it, a
//! write barrier, dynamic roots, and the pacing of collection work by
//! allocation debt. Around it stand the value representation ([`value`]), the
//! instruction set ([`instruction`]), the interpreter loop ([`interp`]), the
//! operators on values ([`num`]) and a small counter machine ([`dispatch`]).
//!
//! Every function of the crate is verified. The contracts of the collector
//! speak of a mathematical model of the arena, [`dmm::HeapView`], and the
//! guarantees that relate several operations are stated as proof functions in
//! [`dmm::safety`].

pub mod dispatch;
pub mod dmm;
pub mod instruction;
pub mod interp;
pub mod num;
pub mod value;
pub mod value2;
