//! The random source behind the random-direction instruction.

use vstd::prelude::*;
use rand::Rng;

use crate::state::Direction;

verus! {

/// Relies on rand::Rng::gen_range over rand::thread_rng: on a non-empty
/// range it returns a value of that range. Nothing more is assumed of a
/// random draw.
#[verifier::external_body]
fn random_quarter() -> (r: u8)
    ensures
        r < 4,
{
    rand::thread_rng().gen_range(0..4u8)
}

/// One of the four cardinal directions, drawn from the thread-local
/// generator. Two calls may differ; callers state what holds of every
/// outcome.
pub(crate) fn random_direction() -> Direction {
    let r = random_quarter();
    if r == 0 {
        Direction::East
    } else if r == 1 {
        Direction::West
    } else if r == 2 {
        Direction::North
    } else {
        Direction::South
    }
}

} // verus!
