//! Naming the lifetimes that a type leaves out.

use vstd::prelude::*;

verus! {

/// The name that stands for a lifetime left out: `_`.
pub open spec fn elided() -> Seq<u8> {
    seq![95u8]
}

/// What a lifetime named `name` becomes: `lt` if it is left out, itself
/// otherwise.
pub open spec fn unelided(lt: Seq<u8>, name: Seq<u8>) -> Seq<u8> {
    if name == elided() {
        lt
    } else {
        name
    }
}

/// Whether a lifetime is left out.
pub fn is_elided(name: &Vec<u8>) -> (b: bool)
    ensures
        b == (name@ == elided()),
{
    let b = name.len() == 1 && name[0] == 95;
    proof {
        if b {
            assert(name@ =~= elided());
        }
    }
    b
}

/// Replaces every lifetime of a type that is left out by `lt`. The lifetimes
/// are given by name, without the leading quote, in the order in which the
/// type mentions them; the names come back in the same order.
pub fn __unelide_lifetimes(lt: &Vec<u8>, lifetimes: Vec<Vec<u8>>) -> (named: Vec<Vec<u8>>)
    ensures
        named@.len() == lifetimes@.len(),
        forall|i: int|
            0 <= i < lifetimes@.len() ==> (#[trigger] named@[i])@ == unelided(lt@, lifetimes@[i]@),
{
    let mut named = lifetimes;
    let mut i: usize = 0;
    while i < named.len()
        invariant
            i <= named@.len(),
            named@.len() == lifetimes@.len(),
            forall|j: int| 0 <= j < i ==> (#[trigger] named@[j])@ == unelided(lt@, lifetimes@[j]@),
            forall|j: int| i <= j < named@.len() ==> #[trigger] named@[j] == lifetimes@[j],
        decreases named@.len() - i,
    {
        if is_elided(&named[i]) {
            let name = lt.clone();
            named[i] = name;
        }
        i = i + 1;
    }
    named
}

} // verus!
