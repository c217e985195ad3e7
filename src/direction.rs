use vstd::prelude::*;
use vstd::string::StrSliceExecFns;

verus! {

/// A heading of the snake, or `Idle` for "no new input this tick".
#[derive(Clone, Copy, Debug, PartialEq, Eq, Structural)]
pub enum Direction {
    Up,
    Down,
    Left,
    Right,
    Idle,
}

/// Up or down.
pub open spec fn is_vertical(d: Direction) -> bool {
    d == Direction::Up || d == Direction::Down
}

/// Left or right.
pub open spec fn is_horizontal(d: Direction) -> bool {
    d == Direction::Left || d == Direction::Right
}

/// The heading after `input` is applied to `heading`: only a turn at a right
/// angle is taken; a reversal, a repeat or `Idle` keeps the heading.
pub open spec fn steered(heading: Direction, input: Direction) -> Direction {
    if (is_vertical(input) && is_horizontal(heading)) || (is_horizontal(input) && is_vertical(
        heading,
    )) {
        input
    } else {
        heading
    }
}

/// Applies the turn filter to a buffered `input`.
pub fn steer(heading: Direction, input: Direction) -> (r: Direction)
    ensures
        r == steered(heading, input),
{
    match input {
        Direction::Up | Direction::Down => match heading {
            Direction::Left | Direction::Right => input,
            _ => heading,
        },
        Direction::Left | Direction::Right => match heading {
            Direction::Up | Direction::Down => input,
            _ => heading,
        },
        Direction::Idle => heading,
    }
}

/// The direction a key name asks for: the arrow keys and `w`, `a`, `s`, `d`.
pub open spec fn key_direction(key: Seq<char>) -> Option<Direction> {
    if key == "ArrowUp"@ || key == "w"@ {
        Some(Direction::Up)
    } else if key == "ArrowDown"@ || key == "s"@ {
        Some(Direction::Down)
    } else if key == "ArrowLeft"@ || key == "a"@ {
        Some(Direction::Left)
    } else if key == "ArrowRight"@ || key == "d"@ {
        Some(Direction::Right)
    } else {
        None
    }
}

/// Whether `a` and `b` hold the same characters.
pub fn same_text(a: &str, b: &str) -> (r: bool)
    ensures
        r == (a@ == b@),
{
    let n = a.unicode_len();
    if n != b.unicode_len() {
        return false;
    }
    let mut i: usize = 0;
    while i < n
        invariant
            0 <= i <= n,
            n == a@.len(),
            n == b@.len(),
            a@.subrange(0, i as int) == b@.subrange(0, i as int),
        decreases n - i,
    {
        if a.get_char(i) != b.get_char(i) {
            return false;
        }
        assert(a@.subrange(0, i + 1) =~= a@.subrange(0, i as int).push(a@[i as int]));
        assert(b@.subrange(0, i + 1) =~= b@.subrange(0, i as int).push(b@[i as int]));
        i = i + 1;
    }
    assert(a@ =~= a@.subrange(0, n as int));
    assert(b@ =~= b@.subrange(0, n as int));
    true
}

/// The direction for a pressed key, or `None` for a key that steers nothing.
pub fn direction_of_key(key: &str) -> (r: Option<Direction>)
    ensures
        r == key_direction(key@),
{
    if same_text(key, "ArrowUp") || same_text(key, "w") {
        Some(Direction::Up)
    } else if same_text(key, "ArrowDown") || same_text(key, "s") {
        Some(Direction::Down)
    } else if same_text(key, "ArrowLeft") || same_text(key, "a") {
        Some(Direction::Left)
    } else if same_text(key, "ArrowRight") || same_text(key, "d") {
        Some(Direction::Right)
    } else {
        None
    }
}

/// The last of `inputs`, or `Idle` when there is none.
pub open spec fn latest_of(inputs: Seq<Direction>) -> Direction {
    if inputs.len() == 0 {
        Direction::Idle
    } else {
        inputs.last()
    }
}

/// The most recent of the inputs buffered since the last tick, oldest first;
/// `Idle` when none arrived.
pub fn latest_direction(inputs: &Vec<Direction>) -> (r: Direction)
    ensures
        r == latest_of(inputs@),
{
    let mut latest = Direction::Idle;
    let mut i: usize = 0;
    while i < inputs.len()
        invariant
            0 <= i <= inputs@.len(),
            latest == (if i == 0 {
                Direction::Idle
            } else {
                inputs@[i - 1]
            }),
        decreases inputs@.len() - i,
    {
        latest = inputs[i];
        i = i + 1;
    }
    latest
}

} // verus!
