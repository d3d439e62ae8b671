use vstd::prelude::*;
use rand::Rng;

verus! {

/// A number drawn uniformly from `0..n`.
///
/// Trusted: calls `rand::Rng::gen_range` on the thread-local generator, which
/// returns a value inside the half-open range it is given and panics on an
/// empty range (hence `n > 0`). Which value comes back is left open.
#[verifier::external_body]
pub(crate) fn random_below(n: usize) -> (r: usize)
    requires
        n > 0,
    ensures
        r < n,
{
    rand::thread_rng().gen_range(0..n)
}

} // verus!
