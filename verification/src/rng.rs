use vstd::prelude::*;

verus! {

/// A position drawn at random below `len`, from the thread's random number
/// generator: `rand::random_range(0..len)`. The crate documents that the value
/// lies in the range and that an empty range panics, hence the `requires`; which
/// position comes out is left to chance and stated nowhere.
#[verifier::external_body]
pub(crate) fn random_index(len: usize) -> (r: usize)
    requires
        len > 0,
    ensures
        r < len,
{
    rand::random_range(0..len)
}

} // verus!
