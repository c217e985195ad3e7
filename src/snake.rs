use vstd::prelude::*;

use crate::direction::Direction;
use crate::food::gen_one_food;
use crate::grid::{is_cell, lemma_next_cell_in_grid, next_cell, side, CELL_COUNT, CELL_NUMBER};
use crate::world::{food_fits, occupancy_of};

verus! {

/// What one step of the snake led to.
#[derive(Clone, Copy, Debug, PartialEq, Eq, Structural)]
pub enum MoveOutcome {
    /// The head moved onto a free cell; the tail followed.
    Moved,
    /// The head moved onto food, which was replaced; the body grew by one.
    Ate,
    /// The head ran into the body; the final score is the body length.
    GameOver(usize),
}

/// No free cell was found for a new food cell.
#[derive(Clone, Copy, Debug, PartialEq, Eq, Structural)]
pub struct FoodExhausted;

/// The snake: its cells, head first, and its heading.
pub struct Snake {
    pub body: Vec<i32>,
    pub head_direction: Direction,
}

/// Every element of `s` is a cell of the grid.
pub open spec fn all_cells(s: Seq<i32>) -> bool {
    forall|k: int| 0 <= k < s.len() ==> is_cell(#[trigger] s[k] as int)
}

/// The relation between the state before and after one step of a snake with
/// `body0` and `heading` on the occupancy map `world`, with food `food0`
/// before and `food1` after, the body `body1` after, and the outcome `r`.
pub open spec fn advanced(
    body0: Seq<i32>,
    heading: Direction,
    world: Seq<bool>,
    food0: Seq<i32>,
    r: Result<MoveOutcome, FoodExhausted>,
    body1: Seq<i32>,
    food1: Seq<i32>,
) -> bool {
    let h = next_cell(body0[0] as int, heading, side());
    let grown = seq![h as i32] + body0;
    let moved = Ok::<MoveOutcome, FoodExhausted>(MoveOutcome::Moved);
    let ate = Ok::<MoveOutcome, FoodExhausted>(MoveOutcome::Ate);
    &&& !world[h] <==> r == moved
    &&& (r == ate || r is Err) <==> (world[h] && food0.contains(h as i32))
    &&& (r matches Ok(MoveOutcome::GameOver(_))) <==> (world[h] && !food0.contains(h as i32))
    &&& r == moved ==> body1 == grown.drop_last() && food1 == food0
    &&& r == ate ==> body1 == grown && exists|j: int|
        0 <= j < food0.len() && food0[j] == h as i32 && food1 == food0.update(j, food1[j])
            && !world[food1[j] as int]
    &&& r matches Ok(MoveOutcome::GameOver(score)) ==> score == body0.len()
    &&& (r is Err || (r matches Ok(MoveOutcome::GameOver(_)))) ==> body1 == body0 && food1 == food0
}

/// Moving keeps the body's length; eating lengthens it by one.
pub proof fn lemma_advance_length(
    body0: Seq<i32>,
    heading: Direction,
    world: Seq<bool>,
    food0: Seq<i32>,
    r: Result<MoveOutcome, FoodExhausted>,
    body1: Seq<i32>,
    food1: Seq<i32>,
)
    requires
        body0.len() >= 1,
        advanced(body0, heading, world, food0, r, body1, food1),
    ensures
        r == Ok::<MoveOutcome, FoodExhausted>(MoveOutcome::Moved) ==> body1.len() == body0.len(),
        r == Ok::<MoveOutcome, FoodExhausted>(MoveOutcome::Ate) ==> body1.len() == body0.len() + 1,
        r is Err || (r matches Ok(MoveOutcome::GameOver(_))) ==> body1.len() == body0.len(),
{
}

impl Snake {
    /// The body is non-empty, lies on the grid and never covers a cell twice.
    pub open spec fn wf(&self) -> bool {
        self.body@.len() >= 1 && all_cells(self.body@) && self.body@.no_duplicates()
    }

    /// The cell that the head enters on the next step.
    pub open spec fn next_head(&self) -> int {
        next_cell(self.body@[0] as int, self.head_direction, side())
    }

    /// Advances the snake one cell along its heading, against the occupancy
    /// map `world` of its body and `food`.
    ///
    /// A free target cell: the head moves there and the tail leaves
    /// (`Moved`). A food cell: the head moves there, the tail stays, and that
    /// food cell is replaced by a cell that was free (`Ate`); when no free
    /// cell is found nothing changes (`Err`). A cell of the body: nothing
    /// changes and the score is the body length (`GameOver`).
    pub fn update_snake(&mut self, world: &Vec<bool>, food: &mut Vec<i32>) -> (r: Result<
        MoveOutcome,
        FoodExhausted,
    >)
        requires
            old(self).wf(),
            food_fits(old(self).body@, old(food)@),
            world@ == occupancy_of(old(self).body@, old(food)@),
        ensures
            final(self).head_direction == old(self).head_direction,
            final(self).wf(),
            food_fits(final(self).body@, final(food)@),
            advanced(
                old(self).body@,
                old(self).head_direction,
                world@,
                old(food)@,
                r,
                final(self).body@,
                final(food)@,
            ),
    {
        let new_head = Self::update_body(self.body[0], self.head_direction);
        let ghost h = new_head as int;
        let ghost body0 = self.body@;
        let ghost food0 = food@;
        if !world[new_head as usize] {
            assert(!body0.contains(new_head));
            assert(!food0.contains(new_head));
            self.body.pop();
            self.body.insert(0, new_head);
            proof {
                assert(self.body@ =~= (seq![new_head] + body0).drop_last());
                assert forall|k: int| 0 <= k < food@.len() implies !self.body@.contains(#[trigger] food@[k]) by {
                    if self.body@.contains(food@[k]) {
                        let i = choose|i: int| 0 <= i < self.body@.len() && self.body@[i] == food@[k];
                        if i > 0 {
                            assert(body0[i - 1] == food@[k]);
                        }
                    }
                };
                assert forall|a: int, b: int| 0 <= a < b < self.body@.len() implies self.body@[a] != self.body@[b] by {
                    if a > 0 {
                        assert(self.body@[a] == body0[a - 1]);
                    } else {
                        assert(body0.contains(self.body@[b]));
                    }
                };
            }
            return Ok(MoveOutcome::Moved);
        }
        let mut j: usize = 0;
        while j < food.len()
            invariant
                0 <= j <= food@.len(),
                food@ == food0,
                self.body@ == body0,
                self.head_direction == old(self).head_direction,
                old(self).body@ == body0,
                old(food)@ == food0,
                old(self).wf(),
                food_fits(body0, food0),
                world@ == occupancy_of(body0, food0),
                h == old(self).next_head(),
                h == new_head as int,
                is_cell(h),
                world@[h],
                forall|k: int| 0 <= k < j ==> food0[k] != new_head,
            decreases food@.len() - j,
        {
            if food[j] == new_head {
                let fresh = match gen_one_food(world) {
                    Some(c) => c,
                    None => {
                        return Err(FoodExhausted);
                    },
                };
                assert(!body0.contains(fresh));
                assert(!food0.contains(fresh));
                food.set(j, fresh);
                self.body.insert(0, new_head);
                proof {
                    assert(self.body@ =~= seq![new_head] + body0);
                    assert(food@ =~= food0.update(j as int, food@[j as int]));
                    assert forall|a: int, b: int| 0 <= a < b < self.body@.len() implies self.body@[a] != self.body@[b] by {
                        if a == 0 {
                            assert(food0[j as int] == self.body@[0]);
                            assert(self.body@[b] == body0[b - 1]);
                        } else {
                            assert(self.body@[a] == body0[a - 1]);
                        }
                    };
                    assert forall|a: int, b: int| 0 <= a < b < food@.len() implies food@[a] != food@[b] by {
                        if a == j {
                            assert(food0.contains(food@[b]));
                        } else if b == j {
                            assert(food0.contains(food@[a]));
                        }
                    };
                    assert forall|k: int| 0 <= k < food@.len() implies !self.body@.contains(#[trigger] food@[k]) by {
                        if self.body@.contains(food@[k]) {
                            let i = choose|i: int| 0 <= i < self.body@.len() && self.body@[i] == food@[k];
                            if k == j {
                                if i > 0 {
                                    assert(body0[i - 1] == fresh);
                                }
                            } else if i == 0 {
                                assert(food0[k] == food0[j as int]);
                            } else {
                                assert(body0[i - 1] == food0[k]);
                            }
                        }
                    };
                    assert(world@[h]);
                }
                return Ok(MoveOutcome::Ate);
            }
            j = j + 1;
        }
        proof {
            assert(!food0.contains(new_head));
        }
        Ok(MoveOutcome::GameOver(self.body.len()))
    }

    /// One step from `head` in `direction`, wrapping around the grid's edges.
    pub fn update_body(head: i32, direction: Direction) -> (r: i32)
        requires
            is_cell(head as int),
        ensures
            r as int == next_cell(head as int, direction, side()),
            is_cell(r as int),
    {
        proof {
            lemma_next_cell_in_grid(head as int, direction, side());
        }
        match direction {
            Direction::Up => if head / CELL_NUMBER == 0 {
                head - CELL_NUMBER + CELL_COUNT
            } else {
                head - CELL_NUMBER
            },
            Direction::Down => if head / CELL_NUMBER == CELL_NUMBER - 1 {
                head + CELL_NUMBER - CELL_COUNT
            } else {
                head + CELL_NUMBER
            },
            Direction::Left => if head % CELL_NUMBER == 0 {
                head - 1 + CELL_NUMBER
            } else {
                head - 1
            },
            Direction::Right => if head % CELL_NUMBER == CELL_NUMBER - 1 {
                head + 1 - CELL_NUMBER
            } else {
                head + 1
            },
            Direction::Idle => head,
        }
    }
}

} // verus!
