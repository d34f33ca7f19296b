//! Cave maps from a cellular automaton.
//!
//! A grid of boolean tiles is seeded at random by a fill percentage and then
//! smoothed by a sequence of generation rules, each of which counts the walls
//! around a cell in two windows and decides the cell's next state.
//!
//! Grids are stored row-major: `grid[row][column]`, with `y_size` rows of
//! `x_size` columns each.

pub mod arguments;
pub mod automaton;
pub mod decimal;
pub mod error;
pub mod generation_rule;
pub mod grid;
pub mod laws;
pub mod map_generator;
pub mod neighborhood;
pub mod random_source;
pub mod render;
pub mod simple_step_range;
