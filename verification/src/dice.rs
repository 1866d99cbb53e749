//! The seeded pseudo-random generator behind map generation, monster
//! wandering and blink destinations.
//!
//! The generator is `bracket_random::RandomNumberGenerator`, an xorshift
//! generator. Nothing here is proved of it: the three names below stand for
//! what it computes, and the two functions state what is taken on trust.

use vstd::prelude::*;
use bracket_random::prelude::RandomNumberGenerator;

verus! {

/// Declares the generator's type: a value that can be passed on but not
/// looked into.
#[verifier::external_type_specification]
#[verifier::external_body]
pub struct ExRandomNumberGenerator(RandomNumberGenerator);

/// The internal state of a generator, its four 32-bit words read as one number.
pub uninterp spec fn generator_state(rng: RandomNumberGenerator) -> int;

/// The state in which `RandomNumberGenerator::seeded` leaves a fresh generator.
pub uninterp spec fn seeded_state(seed: u64) -> int;

/// What `RandomNumberGenerator::range(min, max)` does to a generator in state
/// `state`: the value it returns, then the state it leaves behind.
pub uninterp spec fn range_step(state: int, min: int, max: int) -> (int, int);

/// Calls `RandomNumberGenerator::seeded`. Trusted: the state of the new
/// generator depends on the seed alone.
#[verifier::external_body]
pub(crate) fn seeded_generator(seed: u64) -> (rng: RandomNumberGenerator)
    ensures
        generator_state(rng) == seeded_state(seed),
{
    RandomNumberGenerator::seeded(seed)
}

/// Calls `RandomNumberGenerator::range` on `i32` bounds. Trusted: the value
/// returned and the state left behind depend on the state before and on the
/// bounds alone, and the value lies in `[min, max)`. An empty range makes the
/// generator panic, so it is excluded.
#[verifier::external_body]
pub(crate) fn draw_range(rng: &mut RandomNumberGenerator, min: i32, max: i32) -> (value: i32)
    requires
        min < max,
    ensures
        value == range_step(generator_state(*old(rng)), min as int, max as int).0,
        generator_state(*final(rng)) == range_step(
            generator_state(*old(rng)),
            min as int,
            max as int,
        ).1,
        min <= value < max,
{
    rng.range(min, max)
}

/// The upper bound under which a place in a list of `len` items is
/// drawn: `len`, or the largest `i32` for a list longer than that.
pub open spec fn pick_bound(len: int) -> int {
    if len > i32::MAX {
        i32::MAX as int
    } else {
        len
    }
}

/// Draws a place in a list of `len` items.
pub(crate) fn draw_index(rng: &mut RandomNumberGenerator, len: usize) -> (place: usize)
    requires
        len > 0,
    ensures
        place == range_step(generator_state(*old(rng)), 0, pick_bound(len as int)).0,
        generator_state(*final(rng)) == range_step(
            generator_state(*old(rng)),
            0,
            pick_bound(len as int),
        ).1,
        place < len,
{
    let bound: i32 = if len > i32::MAX as usize {
        i32::MAX
    } else {
        len as i32
    };
    draw_range(rng, 0, bound) as usize
}

} // verus!
