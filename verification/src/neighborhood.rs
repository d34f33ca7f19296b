use vstd::prelude::*;
use crate::grid::{in_bounds, TileGrid, TILE_WALL};

verus! {

/// What one cell adds to a wall count: 1 for a wall inside the grid, 0 for a
/// floor and for any position outside the grid.
pub open spec fn wall_at(g: Seq<Seq<bool>>, r: int, c: int) -> int {
    if in_bounds(g, r, c) && g[r][c] == TILE_WALL {
        1
    } else {
        0
    }
}

/// How far a window reaches from its centre: 1 for the near window, 2 for
/// the far one.
pub open spec fn radius(far: bool) -> int {
    if far {
        2
    } else {
        1
    }
}

/// The offsets that a window covers. The near window is the full 3 by 3
/// square. The far window is the 5 by 5 square without its four corners.
pub open spec fn in_window(far: bool, dr: int, dc: int) -> bool {
    &&& -radius(far) <= dr <= radius(far)
    &&& -radius(far) <= dc <= radius(far)
    &&& !(far && (dr == -2 || dr == 2) && (dc == -2 || dc == 2))
}

/// The walls among the window cells of one row offset `dr`, taking the
/// column offsets below `dc_end` only.
pub open spec fn walls_in_row(
    g: Seq<Seq<bool>>,
    r: int,
    c: int,
    far: bool,
    dr: int,
    dc_end: int,
) -> int
    decreases dc_end + radius(far),
{
    if dc_end <= -radius(far) {
        0
    } else {
        walls_in_row(g, r, c, far, dr, dc_end - 1) + if in_window(far, dr, dc_end - 1) {
            wall_at(g, r + dr, c + dc_end - 1)
        } else {
            0
        }
    }
}

/// The walls among the window cells whose row offset is below `dr_end`.
pub open spec fn walls_in_rows(g: Seq<Seq<bool>>, r: int, c: int, far: bool, dr_end: int) -> int
    decreases dr_end + radius(far),
{
    if dr_end <= -radius(far) {
        0
    } else {
        walls_in_rows(g, r, c, far, dr_end - 1) + walls_in_row(
            g,
            r,
            c,
            far,
            dr_end - 1,
            radius(far) + 1,
        )
    }
}

/// The number of walls in the near window of a cell: the cell itself and its
/// eight neighbours.
pub open spec fn count_r1(g: Seq<Seq<bool>>, r: int, c: int) -> int {
    walls_in_rows(g, r, c, false, 2)
}

/// The number of walls in the far window of a cell: the 21 cells within two
/// steps of it, corners left out. Positions outside the grid count nothing.
pub open spec fn count_r2(g: Seq<Seq<bool>>, r: int, c: int) -> int {
    walls_in_rows(g, r, c, true, 3)
}

/// Tells whether a position holds a wall; a position outside the grid does
/// not.
fn holds_wall(grid: &Vec<Vec<bool>>, r: i64, c: i64) -> (wall: bool)
    ensures
        wall == (wall_at(grid.tiles(), r as int, c as int) == 1),
{
    if r < 0 || c < 0 {
        return false;
    }
    if r as u64 >= grid.len() as u64 {
        return false;
    }
    let row = &grid[r as usize];
    if c as u64 >= row.len() as u64 {
        return false;
    }
    row[c as usize] == TILE_WALL
}

/// Counts the walls in one window of a cell.
fn count_window(grid: &Vec<Vec<bool>>, row: i32, column: i32, far: bool) -> (count: i32)
    ensures
        count == walls_in_rows(grid.tiles(), row as int, column as int, far, radius(far) + 1),
        0 <= count <= 25,
{
    let reach: i64 = if far { 2 } else { 1 };
    let mut count: i32 = 0;
    let mut dr: i64 = -reach;
    while dr <= reach
        invariant
            reach == radius(far),
            -reach <= dr <= reach + 1,
            0 <= count <= 5 * (dr + reach),
            count == walls_in_rows(grid.tiles(), row as int, column as int, far, dr as int),
        decreases reach + 1 - dr,
    {
        let mut dc: i64 = -reach;
        while dc <= reach
            invariant
                reach == radius(far),
                -reach <= dr <= reach,
                -reach <= dc <= reach + 1,
                0 <= count <= 5 * (dr + reach) + (dc + reach),
                count == walls_in_rows(grid.tiles(), row as int, column as int, far, dr as int)
                    + walls_in_row(grid.tiles(), row as int, column as int, far, dr as int, dc as int),
            decreases reach + 1 - dc,
        {
            let corner = far && (dr == -2 || dr == 2) && (dc == -2 || dc == 2);
            if !corner && holds_wall(grid, row as i64 + dr, column as i64 + dc) {
                count += 1;
            }
            dc += 1;
        }
        dr += 1;
    }
    count
}

/// Counts the walls in the near window of a cell.
pub fn adj_count_r1(grid: &Vec<Vec<bool>>, row: i32, column: i32) -> (count: i32)
    ensures
        count == count_r1(grid.tiles(), row as int, column as int),
        0 <= count <= 9,
{
    let count = count_window(grid, row, column, false);
    proof {
        lemma_count_bounds(grid.tiles(), row as int, column as int);
    }
    count
}

/// Counts the walls in the far window of a cell.
pub fn adj_count_r2(grid: &Vec<Vec<bool>>, row: i32, column: i32) -> (count: i32)
    ensures
        count == count_r2(grid.tiles(), row as int, column as int),
        0 <= count <= 21,
{
    let count = count_window(grid, row, column, true);
    proof {
        lemma_count_bounds(grid.tiles(), row as int, column as int);
    }
    count
}

/// A window cannot hold more walls than it has cells: the near count lies
/// between 0 and 9, the far count between 0 and 21.
pub proof fn lemma_count_bounds(g: Seq<Seq<bool>>, r: int, c: int)
    ensures
        0 <= count_r1(g, r, c) <= 9,
        0 <= count_r2(g, r, c) <= 21,
{
    reveal_with_fuel(walls_in_rows, 6);
    reveal_with_fuel(walls_in_row, 6);
}

} // verus!
