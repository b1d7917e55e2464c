//! Random positions, and the calls into `rand` that the library makes.
use vstd::prelude::*;

verus! {

/// Calls `rand::random_range(0..bound)` on the thread-local generator.
/// rand documents that the value lies in the half-open range and that the
/// call panics on an empty range, so `bound` must be positive. Which value
/// comes back is left open: it rests on chance.
#[verifier::external_body]
pub(crate) fn random_below(bound: u32) -> (r: u32)
    requires
        bound > 0,
    ensures
        r < bound,
{
    rand::random_range(0..bound)
}

/// Calls `rand::random::<u32>()` on the thread-local generator. Any `u32`
/// may come back: nothing is stated of it.
#[verifier::external_body]
pub(crate) fn random_u32() -> (r: u32) {
    rand::random::<u32>()
}

/// The position that two raw random samples select inside a
/// `max_x` by `max_y` area: each sample is reduced modulo its bound.
pub fn position_from_samples(sample_x: u32, sample_y: u32, max_x: u32, max_y: u32) -> (pos: (u32, u32))
    requires
        max_x > 0,
        max_y > 0,
    ensures
        pos.0 == sample_x % max_x,
        pos.1 == sample_y % max_y,
{
    (sample_x % max_x, sample_y % max_y)
}

/// A random position `(x, y)` with `x < max_x` and `y < max_y`.
/// Both bounds must be positive (the remainder by zero panics).
pub fn get_random_position(max_x: u32, max_y: u32) -> (pos: (u32, u32))
    requires
        max_x > 0,
        max_y > 0,
    ensures
        pos.0 < max_x,
        pos.1 < max_y,
{
    let sample_x = random_u32();
    let sample_y = random_u32();
    position_from_samples(sample_x, sample_y, max_x, max_y)
}

} // verus!
