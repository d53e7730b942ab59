use rand::Rng;
use vstd::prelude::*;

verus! {

/// Relies on `rand::thread_rng` and `rand::Rng::gen_range`: a uniform draw from
/// the half-open range `lo..hi`, which panics only when the range is empty.
#[verifier::external_body]
pub(crate) fn random_range(lo: i64, hi: i64) -> (r: i64)
    requires
        lo < hi,
    ensures
        lo <= r < hi,
{
    rand::thread_rng().gen_range(lo..hi)
}

} // verus!
