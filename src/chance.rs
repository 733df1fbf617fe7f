//! Random draws.
use vstd::prelude::*;

verus! {

/// Relies on `rand::random_range` over the inclusive range `lo..=hi`: a
/// value drawn from the thread-local generator that lies within the range.
/// An empty range would panic, which `requires` rules out.
#[verifier::external_body]
pub(crate) fn random_in(lo: u32, hi: u32) -> (r: u32)
    requires
        lo <= hi,
    ensures
        lo <= r <= hi,
{
    rand::random_range(lo..=hi)
}

/// Relies on `rand::random_ratio(1, 2)`: a fair coin drawn from the
/// thread-local generator. Nothing is promised of the outcome.
#[verifier::external_body]
pub(crate) fn coin_flip() -> (r: bool) {
    rand::random_ratio(1, 2)
}

} // verus!
