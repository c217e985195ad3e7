use rand::Rng;
use vstd::prelude::*;

use crate::grid::{is_cell, CELL_COUNT};

verus! {

/// Number of food cells on the grid.
pub const FOOD_NUMBER: usize = 5;

/// Random draws made for one food cell before giving up.
pub const MAX_DRAWS: u32 = 10000;

/// Relies on rand::thread_rng and rand::Rng::gen_range: a value drawn from
/// `0..bound`, which gen_range documents to lie in the half-open range.
#[verifier::external_body]
fn draw_below(bound: i32) -> (r: i32)
    requires
        bound > 0,
    ensures
        0 <= r < bound,
{
    rand::thread_rng().gen_range(0..bound)
}

/// Accepts a drawn cell when it is free in `world`.
pub fn free_cell(world: &Vec<bool>, candidate: i32) -> (r: Option<i32>)
    requires
        world@.len() == CELL_COUNT,
        is_cell(candidate as int),
    ensures
        r == (if world@[candidate as int] {
            None::<i32>
        } else {
            Some(candidate)
        }),
{
    if world[candidate as usize] {
        None
    } else {
        Some(candidate)
    }
}

/// Draws uniformly random cells until one is free in `world`, at most
/// `MAX_DRAWS` times. `Some(c)` is always a free cell of the grid; on a full
/// grid the result is `None`.
pub fn gen_one_food(world: &Vec<bool>) -> (r: Option<i32>)
    requires
        world@.len() == CELL_COUNT,
    ensures
        r matches Some(c) ==> is_cell(c as int) && !world@[c as int],
        (forall|i: int| 0 <= i < CELL_COUNT ==> #[trigger] world@[i]) ==> r is None,
{
    let mut draws: u32 = 0;
    while draws < MAX_DRAWS
        invariant
            world@.len() == CELL_COUNT,
        decreases MAX_DRAWS - draws,
    {
        let candidate = draw_below(CELL_COUNT);
        if let Some(c) = free_cell(world, candidate) {
            return Some(c);
        }
        draws = draws + 1;
    }
    None
}

} // verus!
