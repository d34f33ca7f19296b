use vstd::prelude::*;
use vstd::string::*;
use crate::decimal::{append_decimal, decimal_text};
use crate::generation_rule::GenerationRule;
use crate::grid::{TileGrid, TILE_WALL};

verus! {

/// The character that shows a tile: `#` for a wall, `.` for a floor.
pub open spec fn tile_char(tile: bool) -> char {
    if tile == TILE_WALL {
        '#'
    } else {
        '.'
    }
}

/// The characters of the first `n` tiles of a row.
pub open spec fn tiles_text(row: Seq<bool>, n: int) -> Seq<char> {
    Seq::new(n as nat, |c: int| tile_char(row[c]))
}

/// One row as a line of text: one character for each tile, then a line
/// feed.
pub open spec fn row_text(row: Seq<bool>) -> Seq<char> {
    tiles_text(row, row.len() as int).push('\n')
}

/// A map as text: one line for each row, from the first row to the last.
pub open spec fn map_text(g: Seq<Seq<bool>>) -> Seq<char>
    decreases g.len(),
{
    if g.len() == 0 {
        Seq::empty()
    } else {
        map_text(g.drop_last()) + row_text(g.last())
    }
}

/// Draws a map as text, one line for each row, `#` for a wall and `.` for a
/// floor.
pub fn render_map(map: &Vec<Vec<bool>>) -> (text: String)
    ensures
        text@ == map_text(map.tiles()),
{
    proof {
        reveal_strlit("#");
        reveal_strlit(".");
        reveal_strlit("\n");
    }
    let mut text = String::new();
    let mut yi: usize = 0;
    while yi < map.len()
        invariant
            yi <= map.len(),
            "#"@ =~= seq!['#'],
            "."@ =~= seq!['.'],
            "\n"@ =~= seq!['\n'],
            text@ == map_text(map.tiles().take(yi as int)),
        decreases map.len() - yi,
    {
        let row = &map[yi];
        let ghost above = text@;
        let mut xi: usize = 0;
        while xi < row.len()
            invariant
                xi <= row.len(),
                "#"@ =~= seq!['#'],
                "."@ =~= seq!['.'],
                text@ == above + tiles_text(row@, xi as int),
            decreases row.len() - xi,
        {
            if row[xi] == TILE_WALL {
                text.append("#");
            } else {
                text.append(".");
            }
            assert(tiles_text(row@, xi + 1) =~= tiles_text(row@, xi as int).push(
                tile_char(row@[xi as int]),
            ));
            assert(text@ =~= above + tiles_text(row@, xi + 1));
            xi += 1;
        }
        text.append("\n");
        proof {
            let shown = map.tiles().take(yi + 1);
            assert(shown.drop_last() =~= map.tiles().take(yi as int));
            assert(shown.last() == row@);
            assert(text@ =~= above + row_text(row@));
        }
        yi += 1;
    }
    assert(map.tiles().take(yi as int) =~= map.tiles());
    text
}

/// The line that states how the grid is seeded.
pub open spec fn seeding_text(fill_percent: i32) -> Seq<char> {
    "W[0](p) = rand[0, 100) < "@ + decimal_text(fill_percent as int) + "\n"@
}

/// The line that states one rule: its repeat count and its first
/// threshold, then its second threshold unless that is negative.
pub open spec fn rule_text(rule: GenerationRule) -> Seq<char> {
    "Repeat "@ + decimal_text(rule.times_to_apply as int) + ": W'(p) = R[1](p) >= "@
        + decimal_text(rule.rule_1 as int) + (if rule.rule_2 >= 0 {
        " || R[2](p) <= "@ + decimal_text(rule.rule_2 as int)
    } else {
        Seq::empty()
    }) + "\n"@
}

/// The lines of a sequence of rules, in order.
pub open spec fn rules_text(rules: Seq<GenerationRule>) -> Seq<char>
    decreases rules.len(),
{
    if rules.len() == 0 {
        Seq::empty()
    } else {
        rules_text(rules.drop_last()) + rule_text(rules.last())
    }
}

/// The description of a generation: the seeding line, an empty line, then
/// the lines of the rules.
pub open spec fn function_text(rules: Seq<GenerationRule>, fill_percent: i32) -> Seq<char> {
    seeding_text(fill_percent) + "\n"@ + rules_text(rules)
}

/// Writes the line of one rule at the end of a text.
fn append_rule(out: &mut String, rule: &GenerationRule)
    ensures
        final(out)@ == old(out)@ + rule_text(*rule),
{
    out.append("Repeat ");
    append_decimal(out, rule.times_to_apply);
    out.append(": W'(p) = R[1](p) >= ");
    append_decimal(out, rule.rule_1);
    if rule.rule_2 >= 0 {
        out.append(" || R[2](p) <= ");
        append_decimal(out, rule.rule_2);
    }
    out.append("\n");
    assert(out@ =~= old(out)@ + rule_text(*rule));
}

/// Describes a generation in the notation of the method: how the grid is
/// seeded, and for each rule how often it is repeated and what makes a cell
/// a wall.
pub fn describe_function(rules: &Vec<GenerationRule>, fill_percent: i32) -> (text: String)
    ensures
        text@ == function_text(rules@, fill_percent),
{
    let mut text = String::from_str("W[0](p) = rand[0, 100) < ");
    append_decimal(&mut text, fill_percent);
    text.append("\n");
    text.append("\n");
    let ghost head = text@;
    assert(head =~= seeding_text(fill_percent) + "\n"@);
    let mut ii: usize = 0;
    while ii < rules.len()
        invariant
            ii <= rules.len(),
            text@ == head + rules_text(rules@.take(ii as int)),
        decreases rules.len() - ii,
    {
        let ghost before = text@;
        append_rule(&mut text, &rules[ii]);
        proof {
            let told = rules@.take(ii + 1);
            assert(told.drop_last() =~= rules@.take(ii as int));
            assert(told.last() == rules@[ii as int]);
            assert(text@ =~= head + rules_text(told));
        }
        ii += 1;
    }
    assert(rules@.take(ii as int) =~= rules@);
    text
}

} // verus!
