//! The size cap shared by the sequence generators: no generated sequence
//! may hold more than one million elements, and a request past the cap
//! collapses to an empty sequence rather than a clamped one.

use vstd::prelude::*;

verus! {

/// The element count that a generator request of `size` yields: the
/// request itself up to one million, and zero past it.
pub fn capped_size(size: usize) -> (r: usize)
    ensures
        size <= 1000000 ==> r == size,
        size > 1000000 ==> r == 0,
{
    if size > 1000000 {
        0
    } else {
        size
    }
}

} // verus!
