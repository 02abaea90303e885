//! Type tags of the compact value encoding.

use vstd::prelude::*;

verus! {

/// The dynamic type of a value.
#[derive(Debug, Clone, Copy, PartialEq, Eq, Structural)]
pub enum ValueType {
    Nil,
    Boolean,
    Integer,
    Float,
    String,
    Userdata,
    Function,
    Thread,
    Table,
}

} // verus!
