use vstd::prelude::*;

use crate::direction::{latest_direction, latest_of, steer, steered, Direction};
use crate::food::{gen_one_food, FOOD_NUMBER};
use crate::grid::{CELL_COUNT, CELL_NUMBER};
use crate::snake::{advanced, all_cells, FoodExhausted, MoveOutcome, Snake};

verus! {

/// The occupancy map of a snake `body` and `food`: a cell is marked exactly
/// when one of them covers it.
pub open spec fn occupancy_of(body: Seq<i32>, food: Seq<i32>) -> Seq<bool> {
    Seq::new(CELL_COUNT as nat, |i: int| body.contains(i as i32) || food.contains(i as i32))
}

/// The food lies on the grid, covers no cell twice and none of `body`.
pub open spec fn food_fits(body: Seq<i32>, food: Seq<i32>) -> bool {
    &&& all_cells(food)
    &&& food.no_duplicates()
    &&& forall|k: int| 0 <= k < food.len() ==> !body.contains(#[trigger] food[k])
}

/// Builds the occupancy map of `body` and `food` from scratch.
pub fn occupancy(body: &Vec<i32>, food: &Vec<i32>) -> (r: Vec<bool>)
    requires
        all_cells(body@),
        all_cells(food@),
    ensures
        r@ == occupancy_of(body@, food@),
{
    let mut world: Vec<bool> = Vec::new();
    let mut i: i32 = 0;
    while i < CELL_COUNT
        invariant
            0 <= i <= CELL_COUNT,
            world@.len() == i,
            forall|c: int| 0 <= c < i ==> !#[trigger] world@[c],
        decreases CELL_COUNT - i,
    {
        world.push(false);
        i = i + 1;
    }
    let mut k: usize = 0;
    while k < body.len()
        invariant
            0 <= k <= body@.len(),
            all_cells(body@),
            world@.len() == CELL_COUNT,
            forall|c: int|
                0 <= c < CELL_COUNT ==> #[trigger] world@[c] == exists|m: int|
                    0 <= m < k && body@[m] == c as i32,
        decreases body@.len() - k,
    {
        let cell = body[k];
        world.set(cell as usize, true);
        k = k + 1;
    }
    let mut k: usize = 0;
    while k < food.len()
        invariant
            0 <= k <= food@.len(),
            all_cells(food@),
            world@.len() == CELL_COUNT,
            forall|c: int|
                0 <= c < CELL_COUNT ==> #[trigger] world@[c] == (body@.contains(c as i32) || exists|
                    m: int,
                | 0 <= m < k && food@[m] == c as i32),
        decreases food@.len() - k,
    {
        let cell = food[k];
        world.set(cell as usize, true);
        k = k + 1;
    }
    assert(world@ =~= occupancy_of(body@, food@));
    world
}

/// One tick of the world: the snake advances, then the occupancy map is
/// rebuilt from the body and the food. The map always matches them after the
/// call, and the food stays clear of the body.
pub fn update_world(snake: &mut Snake, world: &mut Vec<bool>, food: &mut Vec<i32>) -> (r: Result<
    MoveOutcome,
    FoodExhausted,
>)
    requires
        old(snake).wf(),
        food_fits(old(snake).body@, old(food)@),
        old(world)@ == occupancy_of(old(snake).body@, old(food)@),
    ensures
        final(snake).head_direction == old(snake).head_direction,
        final(snake).wf(),
        food_fits(final(snake).body@, final(food)@),
        final(world)@ == occupancy_of(final(snake).body@, final(food)@),
        advanced(
            old(snake).body@,
            old(snake).head_direction,
            old(world)@,
            old(food)@,
            r,
            final(snake).body@,
            final(food)@,
        ),
{
    let r = snake.update_snake(world, food);
    match r {
        Ok(MoveOutcome::Moved) | Ok(MoveOutcome::Ate) => {
            *world = occupancy(&snake.body, food);
        },
        _ => {},
    }
    r
}

/// The body the snake starts with: three cells of the middle column, in the
/// three bottom rows but the last, head uppermost.
pub open spec fn spawn_body() -> Seq<i32> {
    let n = CELL_NUMBER as int;
    seq![
        (n * (n - 3) + n / 2) as i32,
        (n * (n - 2) + n / 2) as i32,
        (n * (n - 1) + n / 2) as i32,
    ]
}

/// The whole state of a game: the snake, the food and their occupancy map.
pub struct Game {
    pub snake: Snake,
    pub world: Vec<bool>,
    pub food: Vec<i32>,
}

impl Game {
    /// The snake is well formed, the food clear of it, and the map theirs.
    pub open spec fn wf(&self) -> bool {
        &&& self.snake.wf()
        &&& food_fits(self.snake.body@, self.food@)
        &&& self.world@ == occupancy_of(self.snake.body@, self.food@)
    }

    /// A new game: the snake at its spawn cells heading up, and
    /// `FOOD_NUMBER` food cells placed one after another on free cells.
    /// `None` when no free cell was found for one of them.
    pub fn new() -> (r: Option<Game>)
        ensures
            r matches Some(g) ==> {
                &&& g.wf()
                &&& g.snake.body@ == spawn_body()
                &&& g.snake.head_direction == Direction::Up
                &&& g.food@.len() == FOOD_NUMBER
            },
    {
        let body = vec![
            CELL_NUMBER * (CELL_NUMBER - 3) + CELL_NUMBER / 2,
            CELL_NUMBER * (CELL_NUMBER - 2) + CELL_NUMBER / 2,
            CELL_NUMBER * (CELL_NUMBER - 1) + CELL_NUMBER / 2,
        ];
        let mut food: Vec<i32> = Vec::new();
        let mut world = occupancy(&body, &food);
        while food.len() < FOOD_NUMBER
            invariant
                body@ == spawn_body(),
                all_cells(body@),
                food@.len() <= FOOD_NUMBER,
                food_fits(body@, food@),
                world@ == occupancy_of(body@, food@),
            decreases FOOD_NUMBER - food@.len(),
        {
            let c = match gen_one_food(&world) {
                Some(c) => c,
                None => {
                    return None;
                },
            };
            let ghost food0 = food@;
            food.push(c);
            world = occupancy(&body, &food);
            proof {
                assert(food@ == food0.push(c));
                assert(!food0.contains(c));
                assert(!body@.contains(c));
                assert forall|a: int, b: int| 0 <= a < b < food@.len() implies food@[a] != food@[b] by {
                    if b == food0.len() {
                        assert(food0.contains(food@[a]));
                    }
                };
            }
        }
        let snake = Snake { body, head_direction: Direction::Up };
        Some(Game { snake, world, food })
    }

    /// One tick: the latest of the buffered `inputs` goes through the turn
    /// filter, then the world is updated.
    pub fn tick(&mut self, inputs: &Vec<Direction>) -> (r: Result<MoveOutcome, FoodExhausted>)
        requires
            old(self).wf(),
        ensures
            final(self).wf(),
            final(self).snake.head_direction == steered(
                old(self).snake.head_direction,
                latest_of(inputs@),
            ),
            advanced(
                old(self).snake.body@,
                final(self).snake.head_direction,
                old(self).world@,
                old(self).food@,
                r,
                final(self).snake.body@,
                final(self).food@,
            ),
    {
        let input = latest_direction(inputs);
        self.snake.head_direction = steer(self.snake.head_direction, input);
        update_world(&mut self.snake, &mut self.world, &mut self.food)
    }
}

} // verus!
