//! The source of randomness.
//!
//! Every draw the crate makes goes through one trusted primitive,
//! `rng_below`; everything else is derived from it in verified code. The
//! stream is a seedable `ChaCha8Rng`, so runs are reproducible: callers
//! construct it (`rand_chacha` is ordinary Rust) and pass it in.

use vstd::prelude::*;
use crate::fx::SCALE;

verus! {

/// Declares `rand_chacha::ChaCha8Rng` so it can stand in signatures; the
/// stream itself stays opaque to the verifier.
#[verifier::external_type_specification]
#[verifier::external_body]
pub struct ExChaCha8Rng(rand_chacha::ChaCha8Rng);

/// Relies on rand's `Rng::gen_range` over `0..bound`: the draw is uniform in
/// `[0, bound)`. The empty range, on which it panics, is excluded here.
#[verifier::external_body]
pub(crate) fn rng_below(rng: &mut rand_chacha::ChaCha8Rng, bound: u64) -> (r: u64)
    requires
        bound > 0,
    ensures
        r < bound,
{
    rand::Rng::gen_range(rng, 0..bound)
}

/// A uniform index into a non-empty collection.
pub(crate) fn rand_index(rng: &mut rand_chacha::ChaCha8Rng, len: usize) -> (r: usize)
    requires
        len > 0,
    ensures
        r < len,
{
    rng_below(rng, len as u64) as usize
}

/// A uniform scalar from the closed interval `[lo, hi]`.
pub(crate) fn rand_in(rng: &mut rand_chacha::ChaCha8Rng, lo: i64, hi: i64) -> (r: i64)
    requires
        lo <= hi,
        (hi as int) - (lo as int) < i64::MAX as int,
    ensures
        lo <= r <= hi,
{
    let span: u64 = ((hi - lo) as u64) + 1;
    let d: u64 = rng_below(rng, span);
    lo + (d as i64)
}

/// A fair coin.
pub(crate) fn coin(rng: &mut rand_chacha::ChaCha8Rng) -> (r: bool)
{
    rng_below(rng, 2) == 1
}

/// A uniform coordinate in `[0, SCALE)`: anywhere on one axis of the world.
pub(crate) fn rand_coord(rng: &mut rand_chacha::ChaCha8Rng) -> (r: i64)
    ensures
        0 <= r < SCALE,
{
    rand_in(rng, 0, SCALE - 1)
}

} // verus!
