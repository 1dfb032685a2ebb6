//! The random capability: uniform sampling, supplied by the rand crate.

use vstd::prelude::*;

verus! {

/// rand's process-wide generator, declared so that it can cross this
/// library's signatures.
#[verifier::external_type_specification]
#[verifier::external_body]
pub struct ExThreadRng(rand::rngs::ThreadRng);

/// Relies on rand's `Rng::gen_range` over `lo..hi`: it panics on an empty
/// range and otherwise returns a sample inside the range.
#[verifier::external_body]
pub(crate) fn rand_range(rng: &mut rand::rngs::ThreadRng, lo: i64, hi: i64) -> (r: i64)
    requires
        lo < hi,
    ensures
        lo <= r < hi,
{
    rand::Rng::gen_range(rng, lo..hi)
}

/// Relies on rand's `Rng::gen_range` over `lo..=hi`: it panics on an empty
/// range and otherwise returns a sample inside the range.
#[verifier::external_body]
pub(crate) fn rand_range_inclusive(rng: &mut rand::rngs::ThreadRng, lo: i64, hi: i64) -> (r: i64)
    requires
        lo <= hi,
    ensures
        lo <= r <= hi,
{
    rand::Rng::gen_range(rng, lo..=hi)
}

/// Relies on rand's `Rng::gen_range` over `0..n`: it panics on an empty
/// range and otherwise returns an index below `n`.
#[verifier::external_body]
pub(crate) fn rand_index(rng: &mut rand::rngs::ThreadRng, n: usize) -> (r: usize)
    requires
        n > 0,
    ensures
        r < n,
{
    rand::Rng::gen_range(rng, 0..n)
}

} // verus!
