//! The boundary to the `rand` crate.
//!
//! Everything random in the harness comes from the three calls below. Their
//! contracts are taken on trust from `rand`'s source and say only what holds of
//! every outcome: which values can be drawn, that filling bytes succeeds, and
//! that a shuffle neither loses nor invents a key.

use rand::rngs::StdRng;
use rand::seq::SliceRandom;
use rand::Fill;
use rand::Rng;
use vstd::prelude::*;

verus! {

/// `rand::rngs::StdRng`, the generator that every random choice is drawn
/// from. The caller seeds it, from the system's entropy or from a number of
/// its own; Verus carries it through without looking inside.
#[verifier::external_type_specification]
#[verifier::external_body]
pub struct ExStdRng(StdRng);

/// `rand::Error`, what a generator reports when it cannot produce bytes.
#[verifier::external_type_specification]
#[verifier::external_body]
pub struct ExRandError(rand::Error);

/// Calls `rand::Rng::gen_range` on the half-open range `0..bound`.
///
/// Trusted: the value drawn lies in the range. `gen_range` panics on an empty
/// range, which `bound > 0` rules out.
#[verifier::external_body]
pub(crate) fn random_below(rng: &mut StdRng, bound: u64) -> (drawn: u64)
    requires
        bound > 0,
    ensures
        drawn < bound,
{
    rng.gen_range(0..bound)
}

/// Calls `rand::Fill::try_fill` on the bytes of `dest`.
///
/// Trusted: the call succeeds, and a slice keeps its length. For `StdRng` the
/// call comes down to `fill_bytes` of the block generator, which writes every
/// byte and has no way to fail; the `Ok` it is wrapped in is unconditional.
/// Nothing is claimed of the bytes written.
#[verifier::external_body]
pub(crate) fn fill_bytes(rng: &mut StdRng, dest: &mut [u8]) -> (r: Result<(), rand::Error>)
    ensures
        r is Ok,
        final(dest)@.len() == old(dest)@.len(),
{
    dest.try_fill(rng)
}

/// Calls `rand::seq::SliceRandom::shuffle` on `keys`.
///
/// Trusted: the shuffle only swaps elements, so the keys afterwards are the
/// keys before, each as often as before, in some order.
#[verifier::external_body]
pub(crate) fn shuffle(rng: &mut StdRng, keys: &mut [u64])
    ensures
        final(keys)@.to_multiset() == old(keys)@.to_multiset(),
{
    keys.shuffle(rng)
}

} // verus!
