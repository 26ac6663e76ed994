//! The engine's single source of randomness: spawn positions.

use vstd::prelude::*;
use rand::Rng;

verus! {

/// Relies on `rand::Rng::gen_range` over `rand::thread_rng()`: it returns a
/// value of the half-open range `[lo, hi)` and panics only when the range
/// is empty. Nothing is assumed beyond membership in the range.
#[verifier::external_body]
pub(crate) fn random_in_range(lo: i64, hi: i64) -> (r: i64)
    requires
        lo < hi,
    ensures
        lo <= r < hi,
{
    rand::thread_rng().gen_range(lo..hi)
}

} // verus!
