use vstd::prelude::*;

verus! {

/// Relies on `rand::random_range`: a value drawn uniformly from `0..bound`
/// with the thread-local generator. The call panics on an empty range.
#[verifier::external_body]
pub(crate) fn random_below(bound: usize) -> (r: usize)
    requires
        bound > 0,
    ensures
        r < bound,
{
    rand::random_range(0..bound)
}

} // verus!
