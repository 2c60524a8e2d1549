//! The one entry point for randomness: a uniform draw from an inclusive
//! range, taken from the thread-local generator. Every consumer states what
//! holds of *every* value in the range, so nothing downstream depends on the
//! distribution.

use rand::Rng;
use vstd::prelude::*;

verus! {

/// Relies on `rand::Rng::gen_range` over the inclusive range `lo..=hi` with
/// `rand::thread_rng`: it panics only when the range is empty (ruled out by
/// the precondition) and returns a value inside the range.
#[verifier::external_body]
pub(crate) fn rand_in_range(lo: i64, hi: i64) -> (r: i64)
    requires
        lo <= hi,
    ensures
        lo <= r <= hi,
{
    rand::thread_rng().gen_range(lo..=hi)
}

} // verus!
