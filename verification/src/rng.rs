//! The single point where the library draws randomness.

use vstd::prelude::*;

verus! {

/// Relies on `rand::thread_rng` and `rand::Rng::gen_range`: a draw from the
/// half-open range `lo..hi`, uniform over it. `gen_range` panics only on an
/// empty range, which the precondition excludes; nothing more than the bounds
/// is assumed of the outcome.
#[verifier::external_body]
pub(crate) fn random_in_range(lo: u64, hi: u64) -> (r: u64)
    requires
        lo < hi,
    ensures
        lo <= r < hi,
{
    rand::Rng::gen_range(&mut rand::thread_rng(), lo..hi)
}

} // verus!
