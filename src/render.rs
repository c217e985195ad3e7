use vstd::prelude::*;

use crate::grid::{CELL_COUNT, CELL_NUMBER};

verus! {

/// Largest canvas extent, in pixels, whose grid geometry fits in `i32`.
pub const MAX_EXTENT: i32 = 85899345;

/// The offset of grid line `i` across a canvas `extent` pixels long.
pub open spec fn line_offset(i: int, extent: int) -> int {
    i * extent / (CELL_NUMBER as int)
}

/// A filled square: left, top, width and height in pixels.
pub type Rect = (i32, i32, i32, i32);

/// The square drawn for cell `c` on a `width` by `height` canvas.
pub open spec fn rect_of(c: int, width: int, height: int) -> (int, int, int, int) {
    let n = CELL_NUMBER as int;
    (line_offset(c % n, width), line_offset(c / n, height), width / n, height / n)
}

/// The squares of the occupied cells among the first `k` cells of `world`,
/// in row-major order.
pub open spec fn rects_upto(world: Seq<bool>, k: int, width: int, height: int) -> Seq<Rect>
    decreases k,
{
    if k <= 0 {
        Seq::empty()
    } else {
        let before = rects_upto(world, k - 1, width, height);
        if world[k - 1] {
            let q = rect_of(k - 1, width, height);
            before.push((q.0 as i32, q.1 as i32, q.2 as i32, q.3 as i32))
        } else {
            before
        }
    }
}

/// The offsets of the `CELL_NUMBER + 1` evenly spaced grid lines across a
/// canvas `extent` pixels long, first to last.
pub fn grid_lines(extent: i32) -> (r: Vec<i32>)
    requires
        0 <= extent <= MAX_EXTENT,
    ensures
        r@.len() == CELL_NUMBER + 1,
        forall|i: int| 0 <= i <= CELL_NUMBER ==> #[trigger] r@[i] as int == line_offset(i, extent as int),
{
    let mut lines: Vec<i32> = Vec::new();
    let mut i: i32 = 0;
    while i <= CELL_NUMBER
        invariant
            0 <= i <= CELL_NUMBER + 1,
            0 <= extent <= MAX_EXTENT,
            lines@.len() == i,
            forall|j: int| 0 <= j < i ==> #[trigger] lines@[j] as int == line_offset(j, extent as int),
        decreases CELL_NUMBER + 1 - i,
    {
        assert(0 <= i * extent <= 25 * MAX_EXTENT) by (nonlinear_arith)
            requires
                0 <= i <= 25,
                0 <= extent <= MAX_EXTENT,
        ;
        lines.push(i * extent / CELL_NUMBER);
        i = i + 1;
    }
    lines
}

/// The square of each occupied cell of `world`, in row-major order.
pub fn cell_rects(world: &Vec<bool>, width: i32, height: i32) -> (r: Vec<Rect>)
    requires
        world@.len() == CELL_COUNT,
        0 <= width <= MAX_EXTENT,
        0 <= height <= MAX_EXTENT,
    ensures
        r@ == rects_upto(world@, CELL_COUNT as int, width as int, height as int),
{
    let mut rects: Vec<Rect> = Vec::new();
    let mut c: i32 = 0;
    while c < CELL_COUNT
        invariant
            0 <= c <= CELL_COUNT,
            world@.len() == CELL_COUNT,
            0 <= width <= MAX_EXTENT,
            0 <= height <= MAX_EXTENT,
            rects@ == rects_upto(world@, c as int, width as int, height as int),
        decreases CELL_COUNT - c,
    {
        if world[c as usize] {
            let x = c % CELL_NUMBER;
            let y = c / CELL_NUMBER;
            assert(0 <= x * width <= 25 * MAX_EXTENT) by (nonlinear_arith)
                requires
                    0 <= x < 25,
                    0 <= width <= MAX_EXTENT,
            ;
            assert(0 <= y * height <= 25 * MAX_EXTENT) by (nonlinear_arith)
                requires
                    0 <= y < 25,
                    0 <= height <= MAX_EXTENT,
            ;
            rects.push(
                (
                    x * width / CELL_NUMBER,
                    y * height / CELL_NUMBER,
                    width / CELL_NUMBER,
                    height / CELL_NUMBER,
                ),
            );
        }
        c = c + 1;
    }
    rects
}

} // verus!
