use rand::rngs::StdRng;
use vstd::prelude::*;
use crate::automaton::{all_valid, check_rules, run_automaton, run_rules};
use crate::error::GenerationError;
use crate::generation_rule::GenerationRule;
use crate::grid::{border_is_wall, has_interior, is_grid, is_interior};
use crate::grid::{set_tile, TileGrid, TILE_FLOOR, TILE_WALL};
use crate::laws::lemma_run_keeps_border;
use crate::random_source::{entropy_generator, next_draw};

verus! {

/// The tile that a draw selects under a fill percentage: a wall when the
/// draw, reduced to 0..100, is below the percentage. A negative percentage
/// is read as the unsigned number with the same bits, which no reduced draw
/// reaches, so it selects a wall for every draw.
pub open spec fn seeded_tile(draw: u32, fill_percent: i32) -> bool {
    if fill_percent < 0 || draw % 100 < fill_percent {
        TILE_WALL
    } else {
        TILE_FLOOR
    }
}

/// Some draw selects this tile under the fill percentage.
pub open spec fn can_seed(fill_percent: i32, tile: bool) -> bool {
    exists|draw: u32| tile == #[trigger] seeded_tile(draw, fill_percent)
}

/// A grid that seeding may produce: of the stated size, with a border of
/// walls, and with each interior cell a tile that some draw selects.
pub open spec fn is_seeding(g: Seq<Seq<bool>>, x_size: int, y_size: int, fill_percent: i32) -> bool {
    &&& has_interior(x_size, y_size)
    &&& is_grid(g, x_size, y_size)
    &&& border_is_wall(g)
    &&& forall|r: int, c: int| is_interior(g, r, c) ==> can_seed(fill_percent, #[trigger] g[r][c])
}

/// A grid that generation may produce: what the rules make of some seeding.
pub open spec fn is_cave_map(
    g: Seq<Seq<bool>>,
    x_size: int,
    y_size: int,
    fill_percent: i32,
    rules: Seq<GenerationRule>,
) -> bool {
    exists|seeding: Seq<Seq<bool>>| #[trigger]
        is_seeding(seeding, x_size, y_size, fill_percent) && g == run_rules(seeding, rules)
}

/// A row of walls of the given length.
pub open spec fn solid_row(x_size: int) -> Seq<bool> {
    Seq::new(x_size as nat, |c: int| TILE_WALL)
}

/// A grid of walls with `y_size` rows of `x_size` tiles.
pub open spec fn solid_grid(x_size: int, y_size: int) -> Seq<Seq<bool>> {
    Seq::new(y_size as nat, |r: int| solid_row(x_size))
}

/// Turns one draw into a tile by the fill percentage.
pub fn random_select(draw: u32, fill_percent: i32) -> (tile: bool)
    ensures
        tile == seeded_tile(draw, fill_percent),
{
    if fill_percent < 0 || draw % 100 < fill_percent as u32 {
        TILE_WALL
    } else {
        TILE_FLOOR
    }
}

/// Builds the two grids of a run. Both get a border of walls. The first
/// gets one draw from the generator for each interior cell, row by row, and
/// the tile that the draw selects; the second, the buffer, is all walls.
/// A size without an interior is refused before anything is drawn.
pub fn initialize_grids(x_size: i32, y_size: i32, fill_percent: i32, rng: &mut StdRng) -> (result:
    Result<(Vec<Vec<bool>>, Vec<Vec<bool>>), GenerationError>)
    ensures
        match result {
            Ok((grid_1, grid_2)) => is_seeding(grid_1.tiles(), x_size as int, y_size as int, fill_percent)
                && grid_2.tiles() == solid_grid(x_size as int, y_size as int),
            Err(error) => error == GenerationError::InvalidDimension
                && !has_interior(x_size as int, y_size as int)
                && *final(rng) == *old(rng),
        },
{
    if x_size < 3 || y_size < 3 {
        return Err(GenerationError::InvalidDimension);
    }
    let mut grid_1: Vec<Vec<bool>> = Vec::with_capacity(y_size as usize);
    let mut grid_2: Vec<Vec<bool>> = Vec::with_capacity(y_size as usize);
    let mut i: i32 = 0;
    while i < y_size
        invariant
            3 <= x_size,
            0 <= i <= y_size,
            grid_1.tiles() == solid_grid(x_size as int, i as int),
            grid_2.tiles() == solid_grid(x_size as int, i as int),
        decreases y_size - i,
    {
        let mut item_1: Vec<bool> = Vec::with_capacity(x_size as usize);
        let mut item_2: Vec<bool> = Vec::with_capacity(x_size as usize);
        let mut j: i32 = 0;
        while j < x_size
            invariant
                0 <= j <= x_size,
                item_1@ == solid_row(j as int),
                item_2@ == solid_row(j as int),
            decreases x_size - j,
        {
            item_1.push(TILE_WALL);
            item_2.push(TILE_WALL);
            j += 1;
        }
        let ghost rows_1 = grid_1.tiles();
        let ghost rows_2 = grid_2.tiles();
        grid_1.push(item_1);
        grid_2.push(item_2);
        assert(grid_1.tiles() =~= rows_1.push(solid_row(x_size as int)));
        assert(grid_2.tiles() =~= rows_2.push(solid_row(x_size as int)));
        assert(grid_1.tiles() =~= solid_grid(x_size as int, i + 1));
        assert(grid_2.tiles() =~= solid_grid(x_size as int, i + 1));
        i += 1;
    }
    let mut yi: i32 = 1;
    while yi < y_size - 1
        invariant
            3 <= x_size,
            3 <= y_size,
            1 <= yi <= y_size - 1,
            is_grid(grid_1.tiles(), x_size as int, y_size as int),
            border_is_wall(grid_1.tiles()),
            forall|r: int, c: int|
                is_interior(grid_1.tiles(), r, c) && r < yi ==> can_seed(
                    fill_percent,
                    #[trigger] grid_1.tiles()[r][c],
                ),
        decreases y_size - yi,
    {
        let mut xi: i32 = 1;
        while xi < x_size - 1
            invariant
                3 <= x_size,
                3 <= y_size,
                1 <= yi < y_size - 1,
                1 <= xi <= x_size - 1,
                is_grid(grid_1.tiles(), x_size as int, y_size as int),
                border_is_wall(grid_1.tiles()),
                forall|r: int, c: int|
                    is_interior(grid_1.tiles(), r, c) && (r < yi || (r == yi && c < xi))
                        ==> can_seed(fill_percent, #[trigger] grid_1.tiles()[r][c]),
            decreases x_size - xi,
        {
            assert(grid_1.tiles()[yi as int].len() == x_size);
            let draw = next_draw(rng);
            let tile = random_select(draw, fill_percent);
            set_tile(&mut grid_1, yi as usize, xi as usize, tile);
            assert(can_seed(fill_percent, tile));
            xi += 1;
        }
        yi += 1;
    }
    Ok((grid_1, grid_2))
}

/// What holds of a generated map: the inputs were acceptable, the map is
/// what the rules make of some seeding, and it has the stated size and a
/// border of walls.
pub open spec fn is_generated(
    g: Seq<Seq<bool>>,
    x_size: int,
    y_size: int,
    fill_percent: i32,
    rules: Seq<GenerationRule>,
) -> bool {
    &&& has_interior(x_size, y_size)
    &&& all_valid(rules)
    &&& is_cave_map(g, x_size, y_size, fill_percent, rules)
    &&& is_grid(g, x_size, y_size)
    &&& border_is_wall(g)
}

/// Generates a cave map with the draws of a given generator: seeds a grid
/// of the stated size by the fill percentage, then applies the rules in
/// order. A size without an interior is refused first, then a rule with a
/// negative repeat count; in both cases nothing is drawn.
pub fn create_cave_map_from(
    x_size: i32,
    y_size: i32,
    fill_percent: i32,
    rules: &Vec<GenerationRule>,
    rng: &mut StdRng,
) -> (result: Result<Vec<Vec<bool>>, GenerationError>)
    ensures
        match result {
            Ok(grid) => is_generated(
                grid.tiles(),
                x_size as int,
                y_size as int,
                fill_percent,
                rules@,
            ),
            Err(GenerationError::InvalidDimension) => !has_interior(x_size as int, y_size as int)
                && *final(rng) == *old(rng),
            Err(GenerationError::InvalidRule) => has_interior(x_size as int, y_size as int)
                && !all_valid(rules@) && *final(rng) == *old(rng),
            Err(GenerationError::RandomSourceExhausted) => false,
        },
{
    if x_size < 3 || y_size < 3 {
        return Err(GenerationError::InvalidDimension);
    }
    if !check_rules(rules) {
        return Err(GenerationError::InvalidRule);
    }
    match initialize_grids(x_size, y_size, fill_percent, rng) {
        Ok((grid_1, grid_2)) => {
            proof {
                lemma_run_keeps_border(grid_1.tiles(), rules@);
            }
            let ghost seeding = grid_1.tiles();
            let result = run_automaton(grid_1, grid_2, rules, x_size, y_size);
            proof {
                if result is Ok {
                    let made = result->Ok_0.tiles();
                    assert(is_seeding(seeding, x_size as int, y_size as int, fill_percent));
                    assert forall|r: int| 0 <= r < y_size implies (#[trigger] made[r]).len()
                        == x_size by {
                        assert(seeding[r].len() == x_size);
                    }
                }
            }
            result
        },
        Err(error) => Err(error),
    }
}

/// Generates a cave map from the outcome of seeding a generator: with the
/// generator where there is one, and with the error of an exhausted source
/// where there is none. Unacceptable sizes and rules are refused first.
pub fn create_cave_map_seeded_by(
    source: Result<StdRng, rand::Error>,
    x_size: i32,
    y_size: i32,
    fill_percent: i32,
    rules: &Vec<GenerationRule>,
) -> (result: Result<Vec<Vec<bool>>, GenerationError>)
    ensures
        match result {
            Ok(grid) => source is Ok && is_generated(
                grid.tiles(),
                x_size as int,
                y_size as int,
                fill_percent,
                rules@,
            ),
            Err(GenerationError::InvalidDimension) => !has_interior(x_size as int, y_size as int),
            Err(GenerationError::InvalidRule) => has_interior(x_size as int, y_size as int)
                && !all_valid(rules@),
            Err(GenerationError::RandomSourceExhausted) => has_interior(
                x_size as int,
                y_size as int,
            ) && all_valid(rules@) && source is Err,
        },
{
    if x_size < 3 || y_size < 3 {
        return Err(GenerationError::InvalidDimension);
    }
    if !check_rules(rules) {
        return Err(GenerationError::InvalidRule);
    }
    match source {
        Ok(mut rng) => create_cave_map_from(x_size, y_size, fill_percent, rules, &mut rng),
        Err(_) => Err(GenerationError::RandomSourceExhausted),
    }
}

/// Generates a random cave map of the stated size: seeds a generator from
/// the operating system, seeds a grid by the fill percentage, and applies
/// the rules in order. Which map comes back is up to the draws; it is
/// always one that the rules make of some seeding.
pub fn create_random_cave_map(
    x_size: i32,
    y_size: i32,
    fill_percent: i32,
    rules: &Vec<GenerationRule>,
) -> (result: Result<Vec<Vec<bool>>, GenerationError>)
    ensures
        match result {
            Ok(grid) => is_generated(
                grid.tiles(),
                x_size as int,
                y_size as int,
                fill_percent,
                rules@,
            ),
            Err(GenerationError::InvalidDimension) => !has_interior(x_size as int, y_size as int),
            Err(GenerationError::InvalidRule) => has_interior(x_size as int, y_size as int)
                && !all_valid(rules@),
            Err(GenerationError::RandomSourceExhausted) => has_interior(
                x_size as int,
                y_size as int,
            ) && all_valid(rules@),
        },
{
    create_cave_map_seeded_by(entropy_generator(), x_size, y_size, fill_percent, rules)
}

} // verus!
