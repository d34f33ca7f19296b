use cave_map::error::GenerationError;
use cave_map::generation_rule::GenerationRule;
use cave_map::grid::{TILE_FLOOR, TILE_WALL};
use cave_map::map_generator::{
    create_cave_map_from, create_cave_map_seeded_by, create_random_cave_map, initialize_grids, random_select,
};
use rand::rngs::StdRng;
use rand::{Rng, SeedableRng};

fn walled(x_size: usize, y_size: usize, interior: bool) -> Vec<Vec<bool>> {
    let mut grid = vec![vec![TILE_WALL; x_size]; y_size];
    for row in 1..y_size - 1 {
        for column in 1..x_size - 1 {
            grid[row][column] = interior;
        }
    }
    grid
}

fn has_wall_border(grid: &Vec<Vec<bool>>) -> bool {
    let rows = grid.len();
    grid.iter().enumerate().all(|(r, row)| {
        row.iter()
            .enumerate()
            .all(|(c, tile)| !(r == 0 || r == rows - 1 || c == 0 || c == row.len() - 1) || *tile == TILE_WALL)
    })
}

fn exhausted() -> rand::Error {
    rand::Error::new(std::io::Error::other("no entropy"))
}

#[test]
fn draw_below_the_percentage_selects_a_wall() {
    assert_eq!(random_select(0, 45), TILE_WALL);
    assert_eq!(random_select(44, 45), TILE_WALL);
    assert_eq!(random_select(45, 45), TILE_FLOOR);
    assert_eq!(random_select(99, 45), TILE_FLOOR);
}

#[test]
fn draw_is_reduced_to_a_hundred_first() {
    assert_eq!(random_select(144, 45), TILE_WALL);
    assert_eq!(random_select(145, 45), TILE_FLOOR);
    assert_eq!(random_select(4_294_967_295, 96), TILE_WALL);
    assert_eq!(random_select(4_294_967_295, 95), TILE_FLOOR);
    assert_eq!(random_select(4_294_967_200, 1), TILE_WALL);
}

#[test]
fn extreme_percentages_select_one_tile_only() {
    for draw in [0, 1, 50, 99, 100, 199, 12_345_678, u32::MAX] {
        assert_eq!(random_select(draw, 0), TILE_FLOOR);
        assert_eq!(random_select(draw, 100), TILE_WALL);
        assert_eq!(random_select(draw, 250), TILE_WALL);
        assert_eq!(random_select(draw, i32::MAX), TILE_WALL);
        assert_eq!(random_select(draw, -1), TILE_WALL);
        assert_eq!(random_select(draw, i32::MIN), TILE_WALL);
    }
}

#[test]
fn seeding_draws_once_for_each_interior_cell_row_by_row() {
    let mut used = StdRng::seed_from_u64(3);
    let (grid_1, grid_2) = initialize_grids(6, 5, 45, &mut used).unwrap();
    let mut fresh = StdRng::seed_from_u64(3);
    let mut expected = vec![vec![TILE_WALL; 6]; 5];
    for row in 1..4 {
        for column in 1..5 {
            expected[row][column] = if fresh.gen::<u32>() % 100 < 45 { TILE_WALL } else { TILE_FLOOR };
        }
    }
    assert_eq!(grid_1, expected);
    assert_eq!(grid_2, vec![vec![TILE_WALL; 6]; 5]);
    assert_eq!(used.gen::<u32>(), fresh.gen::<u32>());
}

#[test]
fn seeding_uses_the_draws_of_the_generator() {
    let mut rng = StdRng::seed_from_u64(1);
    let (grid, _) = initialize_grids(22, 22, 50, &mut rng).unwrap();
    let interior: Vec<bool> = grid[1..21].iter().flat_map(|row| row[1..21].to_vec()).collect();
    assert!(interior.contains(&TILE_WALL));
    assert!(interior.contains(&TILE_FLOOR));
    assert!(has_wall_border(&grid));
}

#[test]
fn seeding_with_extreme_percentages() {
    let mut rng = StdRng::seed_from_u64(9);
    let (full, buffer) = initialize_grids(5, 5, 100, &mut rng).unwrap();
    assert_eq!(full, vec![vec![TILE_WALL; 5]; 5]);
    assert_eq!(buffer, vec![vec![TILE_WALL; 5]; 5]);
    let (open, _) = initialize_grids(7, 4, 0, &mut rng).unwrap();
    assert_eq!(open, walled(7, 4, TILE_FLOOR));
    let (negative, _) = initialize_grids(4, 6, -20, &mut rng).unwrap();
    assert_eq!(negative, vec![vec![TILE_WALL; 4]; 6]);
}

#[test]
fn seeding_the_smallest_grid() {
    let mut rng = StdRng::seed_from_u64(5);
    let (grid, buffer) = initialize_grids(3, 3, 0, &mut rng).unwrap();
    assert_eq!(grid, walled(3, 3, TILE_FLOOR));
    assert_eq!(buffer, vec![vec![TILE_WALL; 3]; 3]);
}

#[test]
fn seeding_refuses_a_size_without_interior_and_draws_nothing() {
    for (x_size, y_size) in [(2, 9), (9, 2), (0, 0), (-1, 5), (5, -1), (i32::MIN, i32::MAX), (2, 2)] {
        let mut rng = StdRng::seed_from_u64(11);
        let result = initialize_grids(x_size, y_size, 45, &mut rng);
        assert_eq!(result, Err(GenerationError::InvalidDimension));
        assert_eq!(rng, StdRng::seed_from_u64(11));
    }
}

#[test]
fn full_fill_and_zero_threshold_give_a_solid_map() {
    let rules = vec![GenerationRule::new(0, 100, 1)];
    let mut rng = StdRng::seed_from_u64(2);
    let (seeded, _) = initialize_grids(5, 5, 100, &mut rng).unwrap();
    for row in 1..4 {
        for column in 1..4 {
            assert_eq!(seeded[row][column], TILE_WALL);
        }
    }
    let mut rng = StdRng::seed_from_u64(2);
    let map = create_cave_map_from(5, 5, 100, &rules, &mut rng).unwrap();
    assert_eq!(map, vec![vec![TILE_WALL; 5]; 5]);
    assert_eq!(create_random_cave_map(5, 5, 100, &rules), Ok(vec![vec![TILE_WALL; 5]; 5]));
}

#[test]
fn zero_fill_and_erosion_rule_leave_the_interior_open() {
    let rules = vec![GenerationRule::new(9, 0, 1)];
    let mut rng = StdRng::seed_from_u64(2);
    let map = create_cave_map_from(5, 5, 0, &rules, &mut rng).unwrap();
    assert_eq!(map, walled(5, 5, TILE_FLOOR));
    assert_eq!(create_random_cave_map(5, 5, 0, &rules), Ok(walled(5, 5, TILE_FLOOR)));
}

#[test]
fn same_seed_gives_the_same_map() {
    let rules = vec![GenerationRule::new(5, 1, 4), GenerationRule::new(5, -1, 3)];
    for seed in [0, 1, 42, u64::MAX] {
        let first = create_cave_map_from(40, 30, 45, &rules, &mut StdRng::seed_from_u64(seed)).unwrap();
        let second = create_cave_map_from(40, 30, 45, &rules, &mut StdRng::seed_from_u64(seed)).unwrap();
        assert_eq!(first, second);
        assert_eq!(first.len(), 30);
        assert!(first.iter().all(|row| row.len() == 40));
        assert!(has_wall_border(&first));
    }
}

#[test]
fn map_is_what_the_rules_make_of_the_seeding() {
    let rules = vec![GenerationRule::new(5, 1, 2)];
    let map = create_cave_map_from(12, 10, 45, &rules, &mut StdRng::seed_from_u64(8)).unwrap();
    let (seeded, buffer) = initialize_grids(12, 10, 45, &mut StdRng::seed_from_u64(8)).unwrap();
    let ran = cave_map::automaton::run_automaton(seeded, buffer, &rules, 12, 10).unwrap();
    assert_eq!(map, ran);
}

#[test]
fn random_map_has_the_size_asked_for_and_a_wall_border() {
    let rules = vec![GenerationRule::new(5, 1, 4), GenerationRule::new(5, -1, 3)];
    let map = create_random_cave_map(45, 20, 45, &rules).unwrap();
    assert_eq!(map.len(), 20);
    assert!(map.iter().all(|row| row.len() == 45));
    assert!(has_wall_border(&map));
}

#[test]
fn generation_refuses_a_size_without_interior() {
    let rules = vec![GenerationRule::new(5, 1, 4)];
    for (x_size, y_size) in [(2, 45), (45, 2), (0, 0), (-45, 45), (45, i32::MIN)] {
        assert_eq!(create_random_cave_map(x_size, y_size, 45, &rules), Err(GenerationError::InvalidDimension));
        let mut rng = StdRng::seed_from_u64(4);
        assert_eq!(
            create_cave_map_from(x_size, y_size, 45, &rules, &mut rng),
            Err(GenerationError::InvalidDimension)
        );
        assert_eq!(rng, StdRng::seed_from_u64(4));
    }
}

#[test]
fn generation_refuses_a_negative_repeat_count() {
    let rules = vec![GenerationRule::new(5, 1, 4), GenerationRule::new(5, 1, -4)];
    assert_eq!(create_random_cave_map(45, 45, 45, &rules), Err(GenerationError::InvalidRule));
    let mut rng = StdRng::seed_from_u64(4);
    assert_eq!(create_cave_map_from(45, 45, 45, &rules, &mut rng), Err(GenerationError::InvalidRule));
    assert_eq!(rng, StdRng::seed_from_u64(4));
    assert_eq!(create_random_cave_map(2, 45, 45, &rules), Err(GenerationError::InvalidDimension));
}

#[test]
fn exhausted_source_is_reported() {
    let rules = vec![GenerationRule::new(5, 1, 4)];
    assert_eq!(
        create_cave_map_seeded_by(Err(exhausted()), 45, 45, 45, &rules),
        Err(GenerationError::RandomSourceExhausted)
    );
    assert_eq!(
        create_cave_map_seeded_by(Err(exhausted()), 2, 45, 45, &rules),
        Err(GenerationError::InvalidDimension)
    );
    let negative = vec![GenerationRule::new(5, 1, -1)];
    assert_eq!(
        create_cave_map_seeded_by(Err(exhausted()), 45, 45, 45, &negative),
        Err(GenerationError::InvalidRule)
    );
}

#[test]
fn seeded_source_gives_the_map_of_its_generator() {
    let rules = vec![GenerationRule::new(5, 1, 4)];
    let from_source = create_cave_map_seeded_by(Ok(StdRng::seed_from_u64(6)), 20, 15, 45, &rules);
    let from_generator = create_cave_map_from(20, 15, 45, &rules, &mut StdRng::seed_from_u64(6));
    assert!(from_source.is_ok());
    assert_eq!(from_source, from_generator);
}

#[test]
fn generation_without_rules_returns_the_seeding() {
    let rules: Vec<GenerationRule> = Vec::new();
    let map = create_cave_map_from(9, 7, 45, &rules, &mut StdRng::seed_from_u64(13)).unwrap();
    let (seeded, _) = initialize_grids(9, 7, 45, &mut StdRng::seed_from_u64(13)).unwrap();
    assert_eq!(map, seeded);
}
