use vstd::prelude::*;

verus! {

/// The tile that is open space.
pub const TILE_FLOOR: bool = true;

/// The tile that blocks passage.
pub const TILE_WALL: bool = false;

/// The mathematical reading of a stored grid.
pub trait TileGrid {
    /// The tiles as a sequence of rows, each a sequence of tiles.
    spec fn tiles(&self) -> Seq<Seq<bool>>;
}

impl TileGrid for Vec<Vec<bool>> {
    open spec fn tiles(&self) -> Seq<Seq<bool>> {
        Seq::new(self@.len(), |r: int| self@[r]@)
    }
}

/// The grid has `y_size` rows of `x_size` tiles each.
pub open spec fn is_grid(g: Seq<Seq<bool>>, x_size: int, y_size: int) -> bool {
    &&& 0 <= x_size
    &&& g.len() == y_size
    &&& forall|r: int| 0 <= r < g.len() ==> (#[trigger] g[r]).len() == x_size
}

/// A grid of this size has at least one cell that is not on its border.
pub open spec fn has_interior(x_size: int, y_size: int) -> bool {
    x_size >= 3 && y_size >= 3
}

/// The cell lies inside the grid.
pub open spec fn in_bounds(g: Seq<Seq<bool>>, r: int, c: int) -> bool {
    0 <= r < g.len() && 0 <= c < g[r].len()
}

/// The cell lies inside the grid and not on its outermost ring.
pub open spec fn is_interior(g: Seq<Seq<bool>>, r: int, c: int) -> bool {
    1 <= r < g.len() - 1 && 1 <= c < g[r].len() - 1
}

/// The cell lies on the outermost ring of the grid.
pub open spec fn is_border(g: Seq<Seq<bool>>, r: int, c: int) -> bool {
    in_bounds(g, r, c) && !is_interior(g, r, c)
}

/// Every cell on the outermost ring is a wall.
pub open spec fn border_is_wall(g: Seq<Seq<bool>>) -> bool {
    forall|r: int, c: int| is_border(g, r, c) ==> #[trigger] g[r][c] == TILE_WALL
}

/// Every cell off the outermost ring has the given tile.
pub open spec fn interior_is(g: Seq<Seq<bool>>, tile: bool) -> bool {
    forall|r: int, c: int| is_interior(g, r, c) ==> #[trigger] g[r][c] == tile
}

/// Every cell of the grid is a wall.
pub open spec fn all_wall(g: Seq<Seq<bool>>) -> bool {
    forall|r: int, c: int| in_bounds(g, r, c) ==> #[trigger] g[r][c] == TILE_WALL
}

/// Two grids have the same number of rows and, row by row, of columns.
pub open spec fn same_shape(a: Seq<Seq<bool>>, b: Seq<Seq<bool>>) -> bool {
    &&& a.len() == b.len()
    &&& forall|r: int| 0 <= r < a.len() ==> (#[trigger] a[r]).len() == b[r].len()
}

/// The grid with one cell replaced.
pub open spec fn with_tile(g: Seq<Seq<bool>>, r: int, c: int, tile: bool) -> Seq<Seq<bool>> {
    g.update(r, g[r].update(c, tile))
}

/// Puts a tile into one cell of a grid and leaves every other cell as it
/// is.
pub fn set_tile(grid: &mut Vec<Vec<bool>>, row: usize, column: usize, tile: bool)
    requires
        in_bounds(old(grid).tiles(), row as int, column as int),
    ensures
        final(grid).tiles() == with_tile(old(grid).tiles(), row as int, column as int, tile),
{
    grid[row][column] = tile;
    assert(grid.tiles() =~~= with_tile(old(grid).tiles(), row as int, column as int, tile));
}

/// Tells whether a grid has exactly `y_size` rows of `x_size` tiles.
pub fn check_grid(grid: &Vec<Vec<bool>>, x_size: i32, y_size: i32) -> (ok: bool)
    ensures
        ok == is_grid(grid.tiles(), x_size as int, y_size as int),
{
    if x_size < 0 || y_size < 0 || grid.len() != y_size as usize {
        return false;
    }
    let mut r: usize = 0;
    while r < grid.len()
        invariant
            0 <= x_size,
            r <= grid.len(),
            forall|i: int| 0 <= i < r ==> (#[trigger] grid.tiles()[i]).len() == x_size,
        decreases grid.len() - r,
    {
        if grid[r].len() != x_size as usize {
            assert(grid.tiles()[r as int].len() != x_size);
            return false;
        }
        r += 1;
    }
    true
}

} // verus!
