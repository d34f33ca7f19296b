use vstd::prelude::*;
use crate::automaton::{next_generation, repeat_generation, run_rules};
use crate::generation_rule::GenerationRule;
use crate::grid::{all_wall, border_is_wall, in_bounds, is_border, is_interior, same_shape};
use crate::grid::{interior_is, TILE_FLOOR, TILE_WALL};
use crate::map_generator::{can_seed, is_seeding, seeded_tile};
use crate::neighborhood::{count_r1, count_r2, lemma_count_bounds, wall_at};
use crate::neighborhood::{walls_in_row, walls_in_rows};

verus! {

/// A transition changes neither the shape of a grid nor any cell of its
/// border.
pub proof fn lemma_transition_keeps_border(g: Seq<Seq<bool>>, rule: GenerationRule)
    ensures
        same_shape(g, next_generation(g, rule)),
        forall|r: int, c: int|
            is_border(g, r, c) ==> #[trigger] next_generation(g, rule)[r][c] == g[r][c],
        border_is_wall(g) ==> border_is_wall(next_generation(g, rule)),
{
    let next = next_generation(g, rule);
    assert forall|r: int, c: int| is_border(next, r, c) && border_is_wall(g) implies (
    #[trigger] next[r][c]) == TILE_WALL by {
        assert(is_border(g, r, c));
        assert(next[r][c] == g[r][c]);
    }
}

/// Any number of transitions of one rule changes neither the shape of a
/// grid nor any cell of its border.
pub proof fn lemma_repeat_keeps_border(g: Seq<Seq<bool>>, rule: GenerationRule, n: nat)
    ensures
        same_shape(g, repeat_generation(g, rule, n)),
        forall|r: int, c: int|
            is_border(g, r, c) ==> #[trigger] repeat_generation(g, rule, n)[r][c] == g[r][c],
        border_is_wall(g) ==> border_is_wall(repeat_generation(g, rule, n)),
    decreases n,
{
    if n > 0 {
        let before = repeat_generation(g, rule, (n - 1) as nat);
        let after = repeat_generation(g, rule, n);
        lemma_repeat_keeps_border(g, rule, (n - 1) as nat);
        lemma_transition_keeps_border(before, rule);
        assert forall|r: int| 0 <= r < g.len() implies (#[trigger] g[r]).len()
            == after[r].len() by {
            assert(g[r].len() == before[r].len());
        }
        assert forall|r: int, c: int| is_border(g, r, c) implies (#[trigger] after[r][c])
            == g[r][c] by {
            assert(g[r].len() == before[r].len());
            assert(is_border(before, r, c));
        }
    }
}

/// The border never changes: after any sequence of rules, applied any
/// number of times each, the grid has the shape it had and every border
/// cell the tile it had. A border of walls stays a border of walls.
pub proof fn lemma_run_keeps_border(g: Seq<Seq<bool>>, rules: Seq<GenerationRule>)
    ensures
        same_shape(g, run_rules(g, rules)),
        forall|r: int, c: int| is_border(g, r, c) ==> #[trigger] run_rules(g, rules)[r][c] == g[r][c],
        border_is_wall(g) ==> border_is_wall(run_rules(g, rules)),
    decreases rules.len(),
{
    if rules.len() > 0 {
        let before = run_rules(g, rules.drop_last());
        let after = run_rules(g, rules);
        lemma_run_keeps_border(g, rules.drop_last());
        lemma_repeat_keeps_border(before, rules.last(), rules.last().applications());
        assert forall|r: int| 0 <= r < g.len() implies (#[trigger] g[r]).len()
            == after[r].len() by {
            assert(g[r].len() == before[r].len());
        }
        assert forall|r: int, c: int| is_border(g, r, c) implies (#[trigger] after[r][c])
            == g[r][c] by {
            assert(g[r].len() == before[r].len());
            assert(is_border(before, r, c));
        }
        assert forall|r: int, c: int| is_border(after, r, c) && border_is_wall(g) implies (
        #[trigger] after[r][c]) == TILE_WALL by {
            assert(g[r].len() == after[r].len());
            assert(is_border(g, r, c));
        }
    }
}

/// The near count is the sum over the cell and its eight neighbours.
pub proof fn lemma_count_r1_cells(g: Seq<Seq<bool>>, r: int, c: int)
    ensures
        count_r1(g, r, c) == wall_at(g, r - 1, c - 1) + wall_at(g, r - 1, c) + wall_at(
            g,
            r - 1,
            c + 1,
        ) + wall_at(g, r, c - 1) + wall_at(g, r, c) + wall_at(g, r, c + 1) + wall_at(
            g,
            r + 1,
            c - 1,
        ) + wall_at(g, r + 1, c) + wall_at(g, r + 1, c + 1),
{
    reveal_with_fuel(walls_in_rows, 4);
    reveal_with_fuel(walls_in_row, 4);
}

/// The far count is the sum over the 21 cells within two steps of the cell
/// in each direction, the four corners of that square left out.
pub proof fn lemma_count_r2_cells(g: Seq<Seq<bool>>, r: int, c: int)
    ensures
        count_r2(g, r, c) == wall_at(g, r - 2, c - 1) + wall_at(g, r - 2, c) + wall_at(
            g,
            r - 2,
            c + 1,
        ) + wall_at(g, r - 1, c - 2) + wall_at(g, r - 1, c - 1) + wall_at(g, r - 1, c) + wall_at(
            g,
            r - 1,
            c + 1,
        ) + wall_at(g, r - 1, c + 2) + wall_at(g, r, c - 2) + wall_at(g, r, c - 1) + wall_at(
            g,
            r,
            c,
        ) + wall_at(g, r, c + 1) + wall_at(g, r, c + 2) + wall_at(g, r + 1, c - 2) + wall_at(
            g,
            r + 1,
            c - 1,
        ) + wall_at(g, r + 1, c) + wall_at(g, r + 1, c + 1) + wall_at(g, r + 1, c + 2) + wall_at(
            g,
            r + 2,
            c - 1,
        ) + wall_at(g, r + 2, c) + wall_at(g, r + 2, c + 1),
{
    reveal_with_fuel(walls_in_rows, 6);
    reveal_with_fuel(walls_in_row, 6);
}

/// A rule that is applied zero times leaves the grid unchanged, alone or
/// at the end of any sequence of rules.
pub proof fn lemma_zero_repeat_is_no_op(
    g: Seq<Seq<bool>>,
    rules: Seq<GenerationRule>,
    rule: GenerationRule,
)
    requires
        rule.times_to_apply == 0,
    ensures
        repeat_generation(g, rule, rule.applications()) == g,
        run_rules(g, seq![rule]) == g,
        run_rules(g, rules.push(rule)) == run_rules(g, rules),
{
    let alone = seq![rule];
    assert(alone.drop_last() =~= Seq::<GenerationRule>::empty());
    assert(alone.last() == rule);
    assert(run_rules(g, alone.drop_last()) == g);
    assert(rules.push(rule).drop_last() =~= rules);
}

/// A rule that is applied zero times can be taken out of a sequence of
/// rules, wherever it stands, without changing what the sequence makes of
/// a grid.
pub proof fn lemma_zero_repeat_can_be_dropped(
    g: Seq<Seq<bool>>,
    rules: Seq<GenerationRule>,
    i: int,
)
    requires
        0 <= i < rules.len(),
        rules[i].times_to_apply == 0,
    ensures
        run_rules(g, rules) == run_rules(g, rules.remove(i)),
    decreases rules.len(),
{
    if i == rules.len() - 1 {
        assert(rules.remove(i) =~= rules.drop_last());
    } else {
        lemma_zero_repeat_can_be_dropped(g, rules.drop_last(), i);
        assert(rules.remove(i).drop_last() =~= rules.drop_last().remove(i));
        assert(rules.remove(i).last() == rules.last());
    }
}

/// With a first threshold of zero or less, one transition turns every
/// interior cell into a wall, whatever the grid held: no count is negative.
/// Where the border is all walls, the whole grid is walls afterwards.
pub proof fn lemma_zero_threshold_fills_interior(g: Seq<Seq<bool>>, rule: GenerationRule)
    requires
        rule.rule_1 <= 0,
    ensures
        forall|r: int, c: int|
            is_interior(g, r, c) ==> #[trigger] next_generation(g, rule)[r][c] == TILE_WALL,
        border_is_wall(g) ==> all_wall(next_generation(g, rule)),
{
    let next = next_generation(g, rule);
    assert forall|r: int, c: int| is_interior(g, r, c) implies #[trigger] next[r][c]
        == TILE_WALL by {
        lemma_count_bounds(g, r, c);
    }
    assert forall|r: int, c: int| border_is_wall(g) && in_bounds(next, r, c) implies (
    #[trigger] next[r][c]) == TILE_WALL by {
        if !is_interior(g, r, c) {
            assert(is_border(g, r, c));
            assert(next[r][c] == g[r][c]);
        }
    }
}

/// The automaton is a function of the grid it starts from and of the
/// rules: runs that start from equal grids under equal rules end in equal
/// grids, cell for cell.
pub proof fn lemma_equal_runs_agree(
    first: Seq<Seq<bool>>,
    second: Seq<Seq<bool>>,
    first_rules: Seq<GenerationRule>,
    second_rules: Seq<GenerationRule>,
)
    requires
        first =~~= second,
        first_rules =~= second_rules,
    ensures
        run_rules(first, first_rules) == run_rules(second, second_rules),
{
}

/// Which tiles a fill percentage can give: a wall unless the percentage is
/// zero, a floor only for a percentage from 0 to 99.
pub proof fn lemma_seedable_tiles(fill_percent: i32)
    ensures
        can_seed(fill_percent, TILE_WALL) <==> fill_percent != 0,
        can_seed(fill_percent, TILE_FLOOR) <==> 0 <= fill_percent < 100,
{
    if fill_percent != 0 {
        assert(seeded_tile(0u32, fill_percent) == TILE_WALL);
    }
    if 0 <= fill_percent < 100 {
        assert(seeded_tile(99u32, fill_percent) == TILE_FLOOR);
    }
}

/// Seeding with a fill percentage of 100 or more, or a negative one, gives
/// a grid of walls only; seeding with zero gives an interior of floors only.
pub proof fn lemma_extreme_fills(g: Seq<Seq<bool>>, x_size: int, y_size: int, fill_percent: i32)
    requires
        is_seeding(g, x_size, y_size, fill_percent),
    ensures
        fill_percent >= 100 || fill_percent < 0 ==> all_wall(g),
        fill_percent == 0 ==> interior_is(g, TILE_FLOOR),
{
    lemma_seedable_tiles(fill_percent);
    assert forall|r: int, c: int|
        (fill_percent >= 100 || fill_percent < 0) && in_bounds(g, r, c) implies #[trigger] g[r][c]
        == TILE_WALL by {
        if is_interior(g, r, c) {
            assert(can_seed(fill_percent, g[r][c]));
        } else {
            assert(is_border(g, r, c));
        }
    }
    assert forall|r: int, c: int| fill_percent == 0 && is_interior(g, r, c) implies #[trigger] g[r][c]
        == TILE_FLOOR by {
        assert(can_seed(fill_percent, g[r][c]));
    }
}

} // verus!
