use snake::direction::{direction_of_key, latest_direction, same_text, steer, Direction};
use snake::food::{free_cell, gen_one_food, FOOD_NUMBER};
use snake::grid::{CELL_COUNT, CELL_NUMBER};
use snake::render::{cell_rects, grid_lines};
use snake::snake::{FoodExhausted, MoveOutcome, Snake};
use snake::world::{occupancy, update_world, Game};

fn state(body: Vec<i32>, heading: Direction, food: Vec<i32>) -> (Snake, Vec<bool>, Vec<i32>) {
    let world = occupancy(&body, &food);
    (Snake { body, head_direction: heading }, world, food)
}

#[test]
fn moves_up_onto_free_cell() {
    let (mut snake, mut world, mut food) =
        state(vec![537, 562, 587], Direction::Up, vec![0, 1, 2, 3, 4]);
    let r = update_world(&mut snake, &mut world, &mut food);
    assert_eq!(r, Ok(MoveOutcome::Moved));
    assert_eq!(snake.body, vec![512, 537, 562]);
    assert_eq!(food, vec![0, 1, 2, 3, 4]);
    assert_eq!(snake.head_direction, Direction::Up);
}

#[test]
fn up_from_top_row_wraps_to_bottom() {
    assert_eq!(Snake::update_body(0, Direction::Up), 600);
    assert_eq!(Snake::update_body(7, Direction::Up), 607);
}

#[test]
fn other_edges_wrap() {
    assert_eq!(Snake::update_body(612, Direction::Down), 12);
    assert_eq!(Snake::update_body(50, Direction::Left), 74);
    assert_eq!(Snake::update_body(74, Direction::Right), 50);
    assert_eq!(Snake::update_body(300, Direction::Left), 324);
    assert_eq!(Snake::update_body(301, Direction::Down), 326);
    assert_eq!(Snake::update_body(301, Direction::Right), 302);
    assert_eq!(Snake::update_body(301, Direction::Left), 300);
    assert_eq!(Snake::update_body(301, Direction::Idle), 301);
}

#[test]
fn opposite_steps_cancel_on_every_cell() {
    for c in 0..CELL_COUNT {
        let up = Snake::update_body(c, Direction::Up);
        assert_eq!(Snake::update_body(up, Direction::Down), c);
        let left = Snake::update_body(c, Direction::Left);
        assert_eq!(Snake::update_body(left, Direction::Right), c);
        assert!(up >= 0 && up < CELL_COUNT && left >= 0 && left < CELL_COUNT);
        let down = Snake::update_body(c, Direction::Down);
        assert_eq!(Snake::update_body(down, Direction::Up), c);
        let right = Snake::update_body(c, Direction::Right);
        assert_eq!(Snake::update_body(right, Direction::Left), c);
    }
}

#[test]
fn running_into_third_segment_ends_game() {
    let (mut snake, mut world, mut food) =
        state(vec![312, 400, 287], Direction::Up, vec![0, 1, 2, 3, 4]);
    let r = update_world(&mut snake, &mut world, &mut food);
    assert_eq!(r, Ok(MoveOutcome::GameOver(3)));
    assert_eq!(snake.body, vec![312, 400, 287]);
    assert_eq!(food, vec![0, 1, 2, 3, 4]);
}

#[test]
fn running_into_own_body_scores_length() {
    let (mut snake, mut world, mut food) =
        state(vec![312, 313, 288, 287, 286], Direction::Up, vec![10, 11]);
    let r = snake.update_snake(&world, &mut food);
    assert_eq!(r, Ok(MoveOutcome::GameOver(5)));
    assert_eq!(snake.body.len(), 5);
    world = occupancy(&snake.body, &food);
    assert!(world[287]);
}

#[test]
fn moving_into_tail_cell_ends_game() {
    let (mut snake, mut world, mut food) =
        state(vec![312, 313, 288, 287], Direction::Up, vec![10]);
    let r = update_world(&mut snake, &mut world, &mut food);
    assert_eq!(r, Ok(MoveOutcome::GameOver(4)));
}

#[test]
fn eating_grows_and_replaces_food() {
    let (mut snake, mut world, mut food) =
        state(vec![537, 562, 587], Direction::Up, vec![100, 512, 200]);
    let r = update_world(&mut snake, &mut world, &mut food);
    assert_eq!(r, Ok(MoveOutcome::Ate));
    assert_eq!(snake.body, vec![512, 537, 562, 587]);
    assert_eq!(food[0], 100);
    assert_eq!(food[2], 200);
    assert!(food[1] >= 0 && food[1] < CELL_COUNT);
    assert!(!snake.body.contains(&food[1]));
    assert!(food[1] != 100 && food[1] != 200);
    assert_eq!(world, occupancy(&snake.body, &food));
}

#[test]
fn length_kept_on_move() {
    let (mut snake, mut world, mut food) =
        state(vec![301, 302, 303, 304], Direction::Left, vec![5]);
    let before = snake.body.len();
    assert_eq!(update_world(&mut snake, &mut world, &mut food), Ok(MoveOutcome::Moved));
    assert_eq!(snake.body.len(), before);
    assert_eq!(snake.body, vec![300, 301, 302, 303]);
}

#[test]
fn rebuilt_world_marks_exactly_body_and_food() {
    let (mut snake, mut world, mut food) =
        state(vec![537, 562, 587], Direction::Up, vec![0, 1, 2, 3, 4]);
    update_world(&mut snake, &mut world, &mut food).unwrap();
    assert_eq!(world.len(), CELL_COUNT as usize);
    for (i, &occupied) in world.iter().enumerate() {
        let i = i as i32;
        assert_eq!(occupied, snake.body.contains(&i) || food.contains(&i));
    }
    assert_eq!(world.iter().filter(|&&b| b).count(), 8);
    assert!(!world[587]);
}

#[test]
fn turn_filter_takes_right_angles_only() {
    assert_eq!(steer(Direction::Left, Direction::Up), Direction::Up);
    assert_eq!(steer(Direction::Left, Direction::Right), Direction::Left);
    assert_eq!(steer(Direction::Up, Direction::Down), Direction::Up);
    assert_eq!(steer(Direction::Up, Direction::Right), Direction::Right);
    assert_eq!(steer(Direction::Down, Direction::Left), Direction::Left);
    assert_eq!(steer(Direction::Right, Direction::Idle), Direction::Right);
    assert_eq!(steer(Direction::Up, Direction::Up), Direction::Up);
}

#[test]
fn latest_input_wins() {
    assert_eq!(latest_direction(&vec![]), Direction::Idle);
    assert_eq!(
        latest_direction(&vec![Direction::Left, Direction::Down, Direction::Right]),
        Direction::Right
    );
}

#[test]
fn keys_map_to_directions() {
    assert_eq!(direction_of_key("ArrowUp"), Some(Direction::Up));
    assert_eq!(direction_of_key("w"), Some(Direction::Up));
    assert_eq!(direction_of_key("ArrowDown"), Some(Direction::Down));
    assert_eq!(direction_of_key("s"), Some(Direction::Down));
    assert_eq!(direction_of_key("ArrowLeft"), Some(Direction::Left));
    assert_eq!(direction_of_key("a"), Some(Direction::Left));
    assert_eq!(direction_of_key("ArrowRight"), Some(Direction::Right));
    assert_eq!(direction_of_key("d"), Some(Direction::Right));
    assert_eq!(direction_of_key("W"), None);
    assert_eq!(direction_of_key("Enter"), None);
    assert_eq!(direction_of_key(""), None);
    assert!(same_text("héllo", "héllo"));
    assert!(!same_text("héllo", "hello"));
}

#[test]
fn food_lands_on_free_cells() {
    let mut world = vec![true; CELL_COUNT as usize];
    world[42] = false;
    for _ in 0..5 {
        assert_eq!(gen_one_food(&world), Some(42));
    }
    let world = occupancy(&vec![537, 562, 587], &vec![]);
    for _ in 0..50 {
        let c = gen_one_food(&world).unwrap();
        assert!(c >= 0 && c < CELL_COUNT);
        assert!(!world[c as usize]);
    }
}

#[test]
fn full_grid_gives_no_food() {
    let world = vec![true; CELL_COUNT as usize];
    assert_eq!(gen_one_food(&world), None);
}

#[test]
fn drawn_cell_accepted_only_when_free() {
    let world = occupancy(&vec![10, 11, 12], &vec![20]);
    assert_eq!(free_cell(&world, 11), None);
    assert_eq!(free_cell(&world, 20), None);
    assert_eq!(free_cell(&world, 21), Some(21));
}

#[test]
fn new_game_has_spawn_snake_and_food() {
    let game = Game::new().unwrap();
    assert_eq!(game.snake.body, vec![562, 587, 612]);
    assert_eq!(game.snake.head_direction, Direction::Up);
    assert_eq!(game.food.len(), FOOD_NUMBER);
    for (k, f) in game.food.iter().enumerate() {
        assert!(!game.snake.body.contains(f));
        assert!(!game.food[..k].contains(f));
    }
    assert_eq!(game.world, occupancy(&game.snake.body, &game.food));
}

#[test]
fn food_stays_clear_of_body_over_ticks() {
    let mut game = Game::new().unwrap();
    let turns = [Direction::Left, Direction::Up, Direction::Right, Direction::Up];
    for t in 0..60 {
        let inputs = if t % 7 == 0 { vec![turns[(t / 7) % 4]] } else { vec![] };
        match game.tick(&inputs) {
            Ok(MoveOutcome::GameOver(score)) => {
                assert_eq!(score, game.snake.body.len());
                break;
            }
            Ok(_) => {}
            Err(FoodExhausted) => panic!("grid full"),
        }
        for f in game.food.iter() {
            assert!(!game.snake.body.contains(f));
        }
        assert_eq!(game.world, occupancy(&game.snake.body, &game.food));
    }
}

#[test]
fn tick_applies_turn_then_moves() {
    let (snake, world, food) = state(vec![537, 562, 587], Direction::Up, vec![0, 1, 2, 3, 4]);
    let mut game = Game { snake, world, food };
    assert_eq!(game.tick(&vec![Direction::Down]), Ok(MoveOutcome::Moved));
    assert_eq!(game.snake.head_direction, Direction::Up);
    assert_eq!(game.snake.body, vec![512, 537, 562]);
    assert_eq!(game.tick(&vec![Direction::Down, Direction::Left]), Ok(MoveOutcome::Moved));
    assert_eq!(game.snake.head_direction, Direction::Left);
    assert_eq!(game.snake.body, vec![511, 512, 537]);
}

#[test]
fn grid_lines_evenly_spaced() {
    let lines = grid_lines(500);
    assert_eq!(lines.len(), (CELL_NUMBER + 1) as usize);
    assert_eq!(lines[0], 0);
    assert_eq!(lines[1], 20);
    assert_eq!(lines[25], 500);
    let lines = grid_lines(510);
    assert_eq!(lines[1], 20);
    assert_eq!(lines[2], 40);
    assert_eq!(lines[25], 510);
}

#[test]
fn occupied_cells_become_squares() {
    let world = occupancy(&vec![26, 0], &vec![624]);
    let rects = cell_rects(&world, 500, 250);
    assert_eq!(rects, vec![(0, 0, 20, 10), (20, 10, 20, 10), (480, 240, 20, 10)]);
}

#[test]
fn eating_on_full_grid_reports_exhaustion() {
    let mut body = vec![537];
    for c in 0..CELL_COUNT {
        if c != 537 && c != 512 {
            body.push(c);
        }
    }
    let (mut snake, mut world, mut food) = state(body.clone(), Direction::Up, vec![512]);
    assert!(world.iter().all(|&b| b));
    let r = update_world(&mut snake, &mut world, &mut food);
    assert_eq!(r, Err(FoodExhausted));
    assert_eq!(snake.body, body);
    assert_eq!(food, vec![512]);
}
