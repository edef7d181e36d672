use vstd::prelude::*;
use rand::distr::Distribution;

verus! {

/// Relies on `rand::distr::Uniform::<u64>::new(0, high)`, which succeeds when
/// `0 < high`, and its `sample` on the thread-local generator `rand::rng()`,
/// which returns a value in the half-open range `[0, high)`.
#[verifier::external_body]
pub(crate) fn uniform_below(high: u64) -> (r: u64)
    requires
        0 < high,
    ensures
        r < high,
{
    let dist = rand::distr::Uniform::new(0u64, high).unwrap();
    dist.sample(&mut rand::rng())
}

} // verus!
