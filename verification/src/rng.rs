use vstd::prelude::*;

verus! {

/// Relies on rand::random_range: a value drawn from the given range by the
/// thread-local generator, uniformly distributed over it; it panics only on
/// an empty range, which the precondition rules out. Which index comes back
/// is left open: callers must be right for every draw.
#[verifier::external_body]
pub(crate) fn draw_index(n: usize) -> (r: usize)
    requires
        n > 0,
    ensures
        r < n,
{
    rand::random_range(0..n)
}

} // verus!
