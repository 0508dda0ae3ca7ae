//! Random draws. The generator is `fastrand::Rng`; nothing is known of what
//! it yields, so everything built on a draw is proved for every value of it.

use vstd::prelude::*;
use crate::rule::{CHANCE_SCALE, FRACTION_SCALE};

verus! {

/// `fastrand::Rng`, carried through as it is.
#[verifier::external_type_specification]
#[verifier::external_body]
pub struct ExRng(fastrand::Rng);

/// `fastrand::Rng::new`: a generator seeded from the thread's own. Nothing
/// is claimed of it.
#[verifier::external_body]
pub(crate) fn fresh_generator() -> (rng: fastrand::Rng) {
    fastrand::Rng::new()
}

/// `fastrand::Rng::bool`: one random coin flip. Nothing is claimed of it.
#[verifier::external_body]
pub(crate) fn flip(rng: &fastrand::Rng) -> (heads: bool) {
    rng.bool()
}

/// `fastrand::Rng::u32` over the full range: one random word. Nothing is
/// claimed of it.
#[verifier::external_body]
pub(crate) fn word(rng: &fastrand::Rng) -> (w: u32) {
    rng.u32(..)
}

/// `fastrand::Rng::u64` over the full range: one random long word. Nothing
/// is claimed of it.
#[verifier::external_body]
pub(crate) fn long_word(rng: &fastrand::Rng) -> (w: u64) {
    rng.u64(..)
}

/// The chance that the top bits of a random word stand for.
pub open spec fn chance_of(w: u32) -> u32 {
    w >> 9
}

/// The launch fraction that the top bits of a random long word stand for.
pub open spec fn fraction_of(w: u64) -> u64 {
    w >> 12
}

/// Turns a random word into a chance.
pub fn chance_from(w: u32) -> (c: u32)
    ensures
        c == chance_of(w),
        c < CHANCE_SCALE,
{
    assert(w >> 9 < 8_388_608u32) by (bit_vector);
    w >> 9
}

/// Turns a random long word into a launch fraction.
pub fn fraction_from(w: u64) -> (f: u64)
    ensures
        f == fraction_of(w),
        f < FRACTION_SCALE,
{
    assert(w >> 12 < 4_503_599_627_370_496u64) by (bit_vector);
    w >> 12
}

/// Draws a chance: a fraction of one in units of `1 / CHANCE_SCALE`.
pub fn chance(rng: &fastrand::Rng) -> (c: u32)
    ensures
        c < CHANCE_SCALE,
{
    chance_from(word(rng))
}

/// Draws a launch fraction: a fraction of one in units of
/// `1 / FRACTION_SCALE`.
pub fn fraction(rng: &fastrand::Rng) -> (f: u64)
    ensures
        f < FRACTION_SCALE,
{
    fraction_from(long_word(rng))
}

} // verus!
