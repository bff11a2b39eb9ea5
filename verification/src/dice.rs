//! The random source of the map generators.

use vstd::prelude::*;

verus! {

/// `rltk::RandomNumberGenerator`, an opaque value: the generators make one
/// and hand it to the two functions that draw from it.
#[verifier::external_type_specification]
#[verifier::external_body]
pub struct ExRandomNumberGenerator(rltk::RandomNumberGenerator);

/// `rltk::RandomNumberGenerator::new`: a generator with a seed taken from
/// the operating system or the clock. Nothing is claimed of it.
#[verifier::external_body]
pub(crate) fn new_rng() -> (rng: rltk::RandomNumberGenerator) {
    rltk::RandomNumberGenerator::new()
}

/// `rltk::RandomNumberGenerator::range`, at `i32`: some value of the
/// half-open range from `min` to `max`. The outside function panics on an
/// empty range, which `requires` leaves out.
#[verifier::external_body]
pub(crate) fn rng_range(rng: &mut rltk::RandomNumberGenerator, min: i32, max: i32) -> (r: i32)
    requires
        min < max,
    ensures
        min <= r < max,
{
    rng.range(min, max)
}

/// `rltk::RandomNumberGenerator::roll_dice`: the sum of `n` dice, each of
/// them some value from 1 to `die_type`. The outside function adds one to
/// `die_type`, draws from a range that must not be empty, and sums in
/// `i32`; `requires` leaves out the inputs on which one of these fails.
#[verifier::external_body]
pub(crate) fn rng_roll_dice(rng: &mut rltk::RandomNumberGenerator, n: i32, die_type: i32) -> (r:
    i32)
    requires
        0 <= n,
        1 <= die_type < i32::MAX,
        n * die_type <= i32::MAX,
    ensures
        n <= r <= n * die_type,
{
    rng.roll_dice(n, die_type)
}

} // verus!
