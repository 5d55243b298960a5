//! Random numbers from bracket-lib's dice-oriented generator.
use vstd::prelude::*;

verus! {

/// bracket-lib's random number generator, carried through unopened.
#[verifier::external_type_specification]
#[verifier::external_body]
pub struct ExRandomNumberGenerator(bracket_lib::random::RandomNumberGenerator);

/// Calls bracket-lib's `RandomNumberGenerator::new`, which seeds a generator
/// from the operating system's entropy (or the clock). Nothing is claimed of it.
#[verifier::external_body]
pub(crate) fn rng_new() -> bracket_lib::random::RandomNumberGenerator {
    bracket_lib::random::RandomNumberGenerator::new()
}

/// Calls bracket-lib's `RandomNumberGenerator::range`, documented as inclusive
/// of `min` and exclusive of `max`; it draws through rand's `gen_range`, which
/// panics on an empty range, hence `min < max`. Which number comes is not
/// claimed.
#[verifier::external_body]
pub(crate) fn rng_range(
    rng: &mut bracket_lib::random::RandomNumberGenerator,
    min: i32,
    max: i32,
) -> (r: i32)
    requires
        min < max,
    ensures
        min <= r < max,
{
    rng.range(min, max)
}

} // verus!
