use vstd::arithmetic::div_mod::{lemma_fundamental_div_mod_converse, lemma_mod_bound};
use vstd::prelude::*;

use crate::direction::Direction;

verus! {

/// Side length of the square grid.
pub const CELL_NUMBER: i32 = 25;

/// Number of cells of the grid.
pub const CELL_COUNT: i32 = 625;

/// The grid side as a mathematical integer.
pub open spec fn side() -> int {
    CELL_NUMBER as int
}

/// `c` names a cell of a grid of side `n`.
pub open spec fn is_cell_of(c: int, n: int) -> bool {
    0 <= c < n * n
}

/// `c` names a cell of the game's grid.
pub open spec fn is_cell(c: int) -> bool {
    is_cell_of(c, side())
}

/// The cell one step from `c` in direction `d`, on an `n`-by-`n` torus in
/// row-major order: the row or the column moves by one and wraps around.
pub open spec fn next_cell(c: int, d: Direction, n: int) -> int {
    let row = c / n;
    let col = c % n;
    match d {
        Direction::Up => ((row + n - 1) % n) * n + col,
        Direction::Down => ((row + 1) % n) * n + col,
        Direction::Left => row * n + (col + n - 1) % n,
        Direction::Right => row * n + (col + 1) % n,
        Direction::Idle => c,
    }
}

proof fn lemma_row_col(r: int, k: int, n: int)
    requires
        n > 0,
        0 <= k < n,
    ensures
        (r * n + k) / n == r,
        (r * n + k) % n == k,
{
    lemma_fundamental_div_mod_converse(r * n + k, n, r, k);
}

proof fn lemma_cell_split(c: int, n: int)
    requires
        n > 0,
        is_cell_of(c, n),
    ensures
        0 <= c / n < n,
        0 <= c % n < n,
        c == (c / n) * n + c % n,
{
    lemma_mod_bound(c, n);
    vstd::arithmetic::div_mod::lemma_fundamental_div_mod(c, n);
    vstd::arithmetic::div_mod::lemma_div_pos_is_pos(c, n);
    if c / n >= n {
        vstd::arithmetic::mul::lemma_mul_inequality(n, c / n, n);
    }
}

/// Moving up and then down returns to the starting cell, on every grid.
pub proof fn lemma_up_then_down(c: int, n: int)
    requires
        n > 0,
        is_cell_of(c, n),
    ensures
        next_cell(next_cell(c, Direction::Up, n), Direction::Down, n) == c,
{
    lemma_cell_split(c, n);
    let row = c / n;
    let col = c % n;
    let up_row = (row + n - 1) % n;
    lemma_mod_bound(row + n - 1, n);
    lemma_row_col(up_row, col, n);
    if row == 0 {
        lemma_row_col(1, n - 1, n);
        assert(0 * n == 0);
        lemma_fundamental_div_mod_converse(n - 1, n, 0, n - 1);
        lemma_fundamental_div_mod_converse(n, n, 1, 0);
    } else {
        lemma_fundamental_div_mod_converse(row + n - 1, n, 1, row - 1);
        assert(0 * n == 0);
        lemma_fundamental_div_mod_converse(row, n, 0, row);
    }
}

/// Moving left and then right returns to the starting cell, on every grid.
pub proof fn lemma_left_then_right(c: int, n: int)
    requires
        n > 0,
        is_cell_of(c, n),
    ensures
        next_cell(next_cell(c, Direction::Left, n), Direction::Right, n) == c,
{
    lemma_cell_split(c, n);
    let row = c / n;
    let col = c % n;
    let left_col = (col + n - 1) % n;
    lemma_mod_bound(col + n - 1, n);
    lemma_row_col(row, left_col, n);
    assert(0 * n == 0);
    if col == 0 {
        lemma_fundamental_div_mod_converse(n - 1, n, 0, n - 1);
        lemma_fundamental_div_mod_converse(n, n, 1, 0);
    } else {
        lemma_fundamental_div_mod_converse(col + n - 1, n, 1, col - 1);
        lemma_fundamental_div_mod_converse(col, n, 0, col);
    }
}

proof fn lemma_row_col_in_grid(r: int, k: int, n: int)
    requires
        0 <= r < n,
        0 <= k < n,
    ensures
        is_cell_of(r * n + k, n),
{
    vstd::arithmetic::mul::lemma_mul_inequality(r, n - 1, n);
    vstd::arithmetic::mul::lemma_mul_nonnegative(r, n);
    assert((n - 1) * n == n * n - n) by (nonlinear_arith);
}

/// Moving down and then up returns to the starting cell, on every grid.
pub proof fn lemma_down_then_up(c: int, n: int)
    requires
        n > 0,
        is_cell_of(c, n),
    ensures
        next_cell(next_cell(c, Direction::Down, n), Direction::Up, n) == c,
{
    lemma_cell_split(c, n);
    let row = c / n;
    let col = c % n;
    let down_row = (row + 1) % n;
    lemma_mod_bound(row + 1, n);
    lemma_row_col(down_row, col, n);
    assert(0 * n == 0);
    if row == n - 1 {
        lemma_fundamental_div_mod_converse(n, n, 1, 0);
        lemma_fundamental_div_mod_converse(n - 1, n, 0, n - 1);
    } else {
        lemma_fundamental_div_mod_converse(row + 1, n, 0, row + 1);
        lemma_fundamental_div_mod_converse(row + n, n, 1, row);
    }
}

/// Moving right and then left returns to the starting cell, on every grid.
pub proof fn lemma_right_then_left(c: int, n: int)
    requires
        n > 0,
        is_cell_of(c, n),
    ensures
        next_cell(next_cell(c, Direction::Right, n), Direction::Left, n) == c,
{
    lemma_cell_split(c, n);
    let row = c / n;
    let col = c % n;
    let right_col = (col + 1) % n;
    lemma_mod_bound(col + 1, n);
    lemma_row_col(row, right_col, n);
    assert(0 * n == 0);
    if col == n - 1 {
        lemma_fundamental_div_mod_converse(n, n, 1, 0);
        lemma_fundamental_div_mod_converse(n - 1, n, 0, n - 1);
    } else {
        lemma_fundamental_div_mod_converse(col + 1, n, 0, col + 1);
        lemma_fundamental_div_mod_converse(col + n, n, 1, col);
    }
}

/// Every step from a cell of the grid lands on a cell of the grid.
pub proof fn lemma_next_cell_in_grid(c: int, d: Direction, n: int)
    requires
        n > 0,
        is_cell_of(c, n),
    ensures
        is_cell_of(next_cell(c, d, n), n),
{
    lemma_cell_split(c, n);
    let row = c / n;
    let col = c % n;
    lemma_mod_bound(row + n - 1, n);
    lemma_mod_bound(row + 1, n);
    lemma_mod_bound(col + n - 1, n);
    lemma_mod_bound(col + 1, n);
    lemma_row_col_in_grid((row + n - 1) % n, col, n);
    lemma_row_col_in_grid((row + 1) % n, col, n);
    lemma_row_col_in_grid(row, (col + n - 1) % n, n);
    lemma_row_col_in_grid(row, (col + 1) % n, n);
}

} // verus!
