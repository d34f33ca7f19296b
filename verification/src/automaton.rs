use vstd::prelude::*;
use crate::error::GenerationError;
use crate::generation_rule::GenerationRule;
use crate::grid::{check_grid, has_interior, is_grid, is_interior, set_tile, TileGrid};
use crate::grid::{TILE_FLOOR, TILE_WALL};
use crate::neighborhood::{adj_count_r1, adj_count_r2, count_r1, count_r2};

verus! {

/// The next state of one cell: a wall when the near count reaches the first
/// threshold or the far count stays within the second, a floor otherwise.
pub open spec fn next_cell(g: Seq<Seq<bool>>, rule: GenerationRule, r: int, c: int) -> bool {
    if count_r1(g, r, c) >= rule.rule_1 || count_r2(g, r, c) <= rule.rule_2 {
        TILE_WALL
    } else {
        TILE_FLOOR
    }
}

/// One transition: every interior cell takes its next state, computed from
/// the grid as it was before the transition; the border stays as it is.
pub open spec fn next_generation(g: Seq<Seq<bool>>, rule: GenerationRule) -> Seq<Seq<bool>> {
    Seq::new(
        g.len(),
        |r: int|
            Seq::new(
                g[r].len(),
                |c: int|
                    if is_interior(g, r, c) {
                        next_cell(g, rule, r, c)
                    } else {
                        g[r][c]
                    },
            ),
    )
}

/// The grid `base` with its interior replaced by that of `source`.
pub open spec fn with_interior_of(base: Seq<Seq<bool>>, source: Seq<Seq<bool>>) -> Seq<
    Seq<bool>,
> {
    Seq::new(
        base.len(),
        |r: int|
            Seq::new(
                base[r].len(),
                |c: int|
                    if is_interior(base, r, c) {
                        source[r][c]
                    } else {
                        base[r][c]
                    },
            ),
    )
}

/// The position `(r, c)` comes before `(row, column)` when the cells are
/// walked row by row.
pub open spec fn precedes(r: int, c: int, row: int, column: int) -> bool {
    r < row || (r == row && c < column)
}

/// The grid `base` with those interior cells replaced by the cells of
/// `source` that come before `(row, column)`.
pub open spec fn with_interior_up_to(
    base: Seq<Seq<bool>>,
    source: Seq<Seq<bool>>,
    row: int,
    column: int,
) -> Seq<Seq<bool>> {
    Seq::new(
        base.len(),
        |r: int|
            Seq::new(
                base[r].len(),
                |c: int|
                    if is_interior(base, r, c) && precedes(r, c, row, column) {
                        source[r][c]
                    } else {
                        base[r][c]
                    },
            ),
    )
}

/// Once the walk has passed the last interior cell of a row, it stands at
/// the first interior cell of the next row.
proof fn lemma_row_is_done(
    base: Seq<Seq<bool>>,
    source: Seq<Seq<bool>>,
    x_size: int,
    y_size: int,
    row: int,
)
    requires
        is_grid(base, x_size, y_size),
    ensures
        with_interior_up_to(base, source, row, x_size - 1) == with_interior_up_to(
            base,
            source,
            row + 1,
            1,
        ),
{
    assert(with_interior_up_to(base, source, row, x_size - 1) =~~= with_interior_up_to(
        base,
        source,
        row + 1,
        1,
    ));
}

/// `n` transitions of one rule, one after the other.
pub open spec fn repeat_generation(g: Seq<Seq<bool>>, rule: GenerationRule, n: nat) -> Seq<
    Seq<bool>,
>
    decreases n,
{
    if n == 0 {
        g
    } else {
        next_generation(repeat_generation(g, rule, (n - 1) as nat), rule)
    }
}

/// The grid after a sequence of rules, applied in the order given, each as
/// often as it asks.
pub open spec fn run_rules(g: Seq<Seq<bool>>, rules: Seq<GenerationRule>) -> Seq<Seq<bool>>
    decreases rules.len(),
{
    if rules.len() == 0 {
        g
    } else {
        repeat_generation(
            run_rules(g, rules.drop_last()),
            rules.last(),
            rules.last().applications(),
        )
    }
}

/// No rule of the sequence asks for a negative number of applications.
pub open spec fn all_valid(rules: Seq<GenerationRule>) -> bool {
    forall|i: int| 0 <= i < rules.len() ==> (#[trigger] rules[i]).is_valid()
}

/// A transition keeps the size of the grid.
pub proof fn lemma_next_generation_is_grid(
    g: Seq<Seq<bool>>,
    rule: GenerationRule,
    x_size: int,
    y_size: int,
)
    requires
        is_grid(g, x_size, y_size),
    ensures
        is_grid(next_generation(g, rule), x_size, y_size),
{
}

/// Applies one transition of a rule. `grid_1` holds the current state and
/// receives the next one; `grid_2` is the buffer that the next state is
/// written to first, so that every cell is computed from the state before
/// the transition. A grid without an interior is left as it is.
pub fn generation(
    grid_1: &mut Vec<Vec<bool>>,
    grid_2: &mut Vec<Vec<bool>>,
    rule: &GenerationRule,
    x_size: i32,
    y_size: i32,
)
    requires
        has_interior(x_size as int, y_size as int) ==> is_grid(
            old(grid_1).tiles(),
            x_size as int,
            y_size as int,
        ),
        has_interior(x_size as int, y_size as int) ==> is_grid(
            old(grid_2).tiles(),
            x_size as int,
            y_size as int,
        ),
    ensures
        has_interior(x_size as int, y_size as int) ==> final(grid_1).tiles() == next_generation(
            old(grid_1).tiles(),
            *rule,
        ),
        has_interior(x_size as int, y_size as int) ==> final(grid_2).tiles() == with_interior_of(
            old(grid_2).tiles(),
            next_generation(old(grid_1).tiles(), *rule),
        ),
        !has_interior(x_size as int, y_size as int) ==> *final(grid_1) == *old(grid_1),
        !has_interior(x_size as int, y_size as int) ==> *final(grid_2) == *old(grid_2),
{
    if x_size < 3 || y_size < 3 {
        return;
    }
    let ghost before = grid_1.tiles();
    let ghost buffer = grid_2.tiles();
    let ghost next = next_generation(before, *rule);
    assert(buffer =~~= with_interior_up_to(buffer, next, 1, 1));
    let mut yi: i32 = 1;
    while yi < y_size - 1
        invariant
            3 <= x_size,
            3 <= y_size,
            1 <= yi <= y_size - 1,
            is_grid(before, x_size as int, y_size as int),
            is_grid(buffer, x_size as int, y_size as int),
            next == next_generation(before, *rule),
            grid_1.tiles() == before,
            grid_2.tiles() == with_interior_up_to(buffer, next, yi as int, 1),
        decreases y_size - yi,
    {
        let mut xi: i32 = 1;
        while xi < x_size - 1
            invariant
                3 <= x_size,
                3 <= y_size,
                1 <= yi < y_size - 1,
                1 <= xi <= x_size - 1,
                is_grid(before, x_size as int, y_size as int),
                is_grid(buffer, x_size as int, y_size as int),
                next == next_generation(before, *rule),
                grid_1.tiles() == before,
                grid_2.tiles() == with_interior_up_to(buffer, next, yi as int, xi as int),
            decreases x_size - xi,
        {
            let adj_r1 = adj_count_r1(grid_1, yi, xi);
            let adj_r2 = adj_count_r2(grid_1, yi, xi);
            assert(before[yi as int].len() == x_size && buffer[yi as int].len() == x_size);
            if adj_r1 >= rule.rule_1 || adj_r2 <= rule.rule_2 {
                set_tile(grid_2, yi as usize, xi as usize, TILE_WALL);
            } else {
                set_tile(grid_2, yi as usize, xi as usize, TILE_FLOOR);
            }
            assert(grid_2.tiles() =~~= with_interior_up_to(buffer, next, yi as int, xi + 1));
            xi += 1;
        }
        assert(grid_2.tiles() =~~= with_interior_up_to(buffer, next, yi + 1, 1)) by {
            lemma_row_is_done(buffer, next, x_size as int, y_size as int, yi as int);
        }
        yi += 1;
    }
    let ghost after = with_interior_of(buffer, next);
    assert(grid_2.tiles() =~~= after);
    assert(before =~~= with_interior_up_to(before, after, 1, 1));
    let mut yi: i32 = 1;
    while yi < y_size - 1
        invariant
            3 <= x_size,
            3 <= y_size,
            1 <= yi <= y_size - 1,
            is_grid(before, x_size as int, y_size as int),
            is_grid(after, x_size as int, y_size as int),
            grid_2.tiles() == after,
            grid_1.tiles() == with_interior_up_to(before, after, yi as int, 1),
        decreases y_size - yi,
    {
        let mut xi: i32 = 1;
        while xi < x_size - 1
            invariant
                3 <= x_size,
                3 <= y_size,
                1 <= yi < y_size - 1,
                1 <= xi <= x_size - 1,
                is_grid(before, x_size as int, y_size as int),
                is_grid(after, x_size as int, y_size as int),
                grid_2.tiles() == after,
                grid_1.tiles() == with_interior_up_to(before, after, yi as int, xi as int),
            decreases x_size - xi,
        {
            assert(before[yi as int].len() == x_size && after[yi as int].len() == x_size);
            set_tile(grid_1, yi as usize, xi as usize, grid_2[yi as usize][xi as usize]);
            assert(grid_1.tiles() =~~= with_interior_up_to(before, after, yi as int, xi + 1));
            xi += 1;
        }
        assert(grid_1.tiles() =~~= with_interior_up_to(before, after, yi + 1, 1)) by {
            lemma_row_is_done(before, after, x_size as int, y_size as int, yi as int);
        }
        yi += 1;
    }
    assert(grid_1.tiles() =~~= next);
}

/// Tells whether every rule of the sequence can be applied.
pub fn check_rules(rules: &Vec<GenerationRule>) -> (ok: bool)
    ensures
        ok == all_valid(rules@),
{
    let mut i: usize = 0;
    while i < rules.len()
        invariant
            i <= rules.len(),
            all_valid(rules@.take(i as int)),
        decreases rules.len() - i,
    {
        if rules[i].times_to_apply < 0 {
            assert(!rules@[i as int].is_valid());
            return false;
        }
        assert forall|k: int| 0 <= k < i + 1 implies (#[trigger] rules@.take(i + 1)[k]).is_valid() by {
            if k < i {
                assert(rules@.take(i as int)[k].is_valid());
            }
        }
        i += 1;
    }
    assert(rules@.take(i as int) =~= rules@);
    true
}

/// The inputs on which the automaton runs: a grid with an interior, a
/// buffer of the same size, and rules that can all be applied.
pub open spec fn can_run(
    g: Seq<Seq<bool>>,
    buffer: Seq<Seq<bool>>,
    rules: Seq<GenerationRule>,
    x_size: int,
    y_size: int,
) -> bool {
    &&& sizes_agree(g, buffer, x_size, y_size)
    &&& all_valid(rules)
}

/// The grid has an interior, and it and the buffer have the stated size.
pub open spec fn sizes_agree(
    g: Seq<Seq<bool>>,
    buffer: Seq<Seq<bool>>,
    x_size: int,
    y_size: int,
) -> bool {
    &&& has_interior(x_size, y_size)
    &&& is_grid(g, x_size, y_size)
    &&& is_grid(buffer, x_size, y_size)
}

/// Runs the automaton: applies each rule in the order given, each as many
/// times as it asks, and returns the final grid. `grid_1` is the starting
/// state and `grid_2` the buffer. Nothing is computed unless the sizes agree
/// and every rule can be applied.
pub fn run_automaton(
    grid_1: Vec<Vec<bool>>,
    grid_2: Vec<Vec<bool>>,
    rules: &Vec<GenerationRule>,
    x_size: i32,
    y_size: i32,
) -> (result: Result<Vec<Vec<bool>>, GenerationError>)
    ensures
        match result {
            Ok(grid) => can_run(
                grid_1.tiles(),
                grid_2.tiles(),
                rules@,
                x_size as int,
                y_size as int,
            ) && grid.tiles() == run_rules(grid_1.tiles(), rules@),
            Err(GenerationError::InvalidDimension) => !sizes_agree(
                grid_1.tiles(),
                grid_2.tiles(),
                x_size as int,
                y_size as int,
            ),
            Err(GenerationError::InvalidRule) => sizes_agree(
                grid_1.tiles(),
                grid_2.tiles(),
                x_size as int,
                y_size as int,
            ) && !all_valid(rules@),
            Err(GenerationError::RandomSourceExhausted) => false,
        },
{
    if x_size < 3 || y_size < 3 || !check_grid(&grid_1, x_size, y_size) || !check_grid(
        &grid_2,
        x_size,
        y_size,
    ) {
        return Err(GenerationError::InvalidDimension);
    }
    if !check_rules(rules) {
        return Err(GenerationError::InvalidRule);
    }
    let ghost start = grid_1.tiles();
    let mut current = grid_1;
    let mut buffer = grid_2;
    let mut i: usize = 0;
    while i < rules.len()
        invariant
            3 <= x_size,
            3 <= y_size,
            i <= rules.len(),
            all_valid(rules@),
            is_grid(current.tiles(), x_size as int, y_size as int),
            is_grid(buffer.tiles(), x_size as int, y_size as int),
            current.tiles() == run_rules(start, rules@.take(i as int)),
        decreases rules.len() - i,
    {
        let rule = &rules[i];
        let ghost reached = current.tiles();
        assert(rule.is_valid());
        let mut j: i32 = 0;
        while j < rule.times_to_apply
            invariant
                3 <= x_size,
                3 <= y_size,
                0 <= j <= rule.times_to_apply,
                is_grid(current.tiles(), x_size as int, y_size as int),
                is_grid(buffer.tiles(), x_size as int, y_size as int),
                current.tiles() == repeat_generation(reached, *rule, j as nat),
            decreases rule.times_to_apply - j,
        {
            proof {
                lemma_next_generation_is_grid(current.tiles(), *rule, x_size as int, y_size as int);
            }
            generation(&mut current, &mut buffer, rule, x_size, y_size);
            j += 1;
        }
        proof {
            let done = rules@.take(i + 1);
            assert(done.drop_last() =~= rules@.take(i as int));
            assert(done.last() == *rule);
        }
        i += 1;
    }
    assert(rules@.take(i as int) =~= rules@);
    Ok(current)
}

} // verus!
