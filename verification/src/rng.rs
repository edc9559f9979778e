use vstd::prelude::*;
use rand::Rng;
use rand::rngs::SmallRng;

verus! {

#[verifier::external_type_specification]
#[verifier::external_body]
pub struct ExSmallRng(SmallRng);

/// Relies on rand's `Rng::gen_range` over `lo..hi`: the sample lies in the
/// half-open range, and the call panics only on an empty range, which the
/// precondition rules out. Nothing more is assumed of the draw.
#[verifier::external_body]
pub(crate) fn rng_range(rng: &mut SmallRng, lo: usize, hi: usize) -> (r: usize)
    requires
        lo < hi,
    ensures
        lo <= r < hi,
{
    rng.gen_range(lo..hi)
}

}
