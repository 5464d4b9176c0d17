//! Where food may lie, and the random draw of a candidate cell.
use vstd::prelude::*;
use crate::field::{HEIGHT, WIDTH};

verus! {

/// The lowest column and row on which food is placed.
pub const FOOD_MIN: u16 = 2;

/// Food lies in columns `FOOD_MIN <= x < FOOD_MAX_X`.
pub const FOOD_MAX_X: u16 = 58;

/// Food lies in rows `FOOD_MIN <= y < FOOD_MAX_Y`.
pub const FOOD_MAX_Y: u16 = 18;

/// Whether food may be placed on `cell`: an interior cell, away from the right
/// and bottom walls by one more cell.
pub open spec fn food_in_range(cell: (u16, u16)) -> bool {
    &&& FOOD_MIN <= cell.0 < WIDTH - 2
    &&& FOOD_MIN <= cell.1 < HEIGHT - 2
}

/// Calls `rand::Rng::gen_range` on the thread's generator. The generator
/// documents a value in the half-open range from `low` to `high`, and panics
/// unless `low < high`. Which value comes is left to chance.
#[verifier::external_body]
fn random_between(low: u16, high: u16) -> (r: u16)
    requires
        low < high,
    ensures
        low <= r < high,
{
    rand::Rng::gen_range(&mut rand::thread_rng(), low, high)
}

/// Draws a random cell on which food may be placed.
pub fn food_gen() -> (cell: (u16, u16))
    ensures
        food_in_range(cell),
{
    let rx = random_between(FOOD_MIN, FOOD_MAX_X);
    let ry = random_between(FOOD_MIN, FOOD_MAX_Y);
    (rx, ry)
}

} // verus!
