use game_of_life::life::{Grid, GridError};
use game_of_life::seed::{Point, Seed};

fn grid_of(width: usize, height: usize, points: Vec<(usize, usize)>) -> Grid {
    let points = points.into_iter().map(|(x, y)| Point::new(x, y)).collect();
    Grid::new(width, height, vec![Seed::new(points)]).unwrap()
}

fn error_of(width: usize, height: usize, seeds: Vec<Seed>) -> GridError {
    match Grid::new(width, height, seeds) {
        Ok(_) => panic!("a grid was built"),
        Err(error) => error,
    }
}

fn rows(grid: &Grid) -> Vec<String> {
    grid.cells()
        .iter()
        .map(|row| row.iter().map(|alive| if *alive { 'x' } else { '.' }).collect())
        .collect()
}

#[test]
fn empty_seed() {
    let seed = vec![];
    let grid = Grid::new(10, 10, seed).unwrap();

    assert_eq!(0, grid.count_neighbours(0, 0));
}

#[test]
fn glider_one() {
    let seed = Seed::glider_one(1, 1);
    let grid = Grid::new(10, 10, vec![seed]).unwrap();

    assert_eq!(1, grid.count_neighbours(0, 0));
    assert_eq!(1, grid.count_neighbours(1, 0));
    assert_eq!(1, grid.count_neighbours(2, 0));
    assert_eq!(0, grid.count_neighbours(3, 0));

    assert_eq!(1, grid.count_neighbours(0, 1));
    assert_eq!(1, grid.count_neighbours(1, 1));
    assert_eq!(3, grid.count_neighbours(2, 1));
    assert_eq!(2, grid.count_neighbours(3, 1));

    assert_eq!(2, grid.count_neighbours(0, 2));
    assert_eq!(4, grid.count_neighbours(1, 2));
    assert_eq!(4, grid.count_neighbours(2, 2));
    assert_eq!(2, grid.count_neighbours(3, 2));

    assert_eq!(1, grid.count_neighbours(0, 3));
    assert_eq!(2, grid.count_neighbours(1, 3));
    assert_eq!(3, grid.count_neighbours(2, 3));
    assert_eq!(3, grid.count_neighbours(3, 3));
}

#[test]
fn glider_two() {
    let seed = Seed::glider_two(1, 1);
    let grid = Grid::new(10, 10, vec![seed]).unwrap();

    assert_eq!(0, grid.count_neighbours(0, 0));
    assert_eq!(0, grid.count_neighbours(1, 0));
    assert_eq!(1, grid.count_neighbours(2, 0));
    assert_eq!(1, grid.count_neighbours(3, 0));

    assert_eq!(1, grid.count_neighbours(0, 1));
    assert_eq!(1, grid.count_neighbours(1, 1));
    assert_eq!(3, grid.count_neighbours(2, 1));
    assert_eq!(1, grid.count_neighbours(3, 1));

    assert_eq!(1, grid.count_neighbours(0, 2));
    assert_eq!(1, grid.count_neighbours(1, 2));
    assert_eq!(5, grid.count_neighbours(2, 2));
    assert_eq!(3, grid.count_neighbours(3, 2));

    assert_eq!(1, grid.count_neighbours(0, 3));
    assert_eq!(2, grid.count_neighbours(1, 3));
    assert_eq!(3, grid.count_neighbours(2, 3));
    assert_eq!(2, grid.count_neighbours(3, 3));
}

#[test]
fn unseeded_grid_has_no_neighbours_anywhere() {
    for (width, height) in [(1, 1), (1, 4), (3, 2), (10, 10)] {
        let grid = Grid::new(width, height, vec![]).unwrap();
        for y in 0..height {
            for x in 0..width {
                assert_eq!(0, grid.count_neighbours(x, y));
            }
        }
        assert!(!grid.any_alive());
    }
}

#[test]
fn seed_without_points_leaves_the_grid_blank() {
    let grid = Grid::new(2, 2, vec![Seed::new(vec![]), Seed::new(vec![])]).unwrap();
    assert_eq!(rows(&grid), ["..", ".."]);
}

#[test]
fn new_grid_starts_at_step_zero_and_can_continue() {
    let grid = Grid::new(4, 3, vec![]).unwrap();
    assert_eq!(0, grid.steps());
    assert!(grid.can_continue());
    assert_eq!(3, grid.cells().len());
    assert!(grid.cells().iter().all(|row| row.len() == 4));
}

#[test]
fn new_marks_the_points_of_every_seed() {
    let first = Seed::new(vec![Point::new(0, 0), Point::new(3, 1)]);
    let second = Seed::new(vec![Point::new(3, 1), Point::new(1, 2)]);
    let grid = Grid::new(4, 3, vec![first, second]).unwrap();
    assert_eq!(rows(&grid), ["x...", "...x", ".x.."]);
    assert!(grid.any_alive());
}

#[test]
fn new_accepts_points_on_the_last_column_and_row() {
    let grid = grid_of(4, 3, vec![(3, 0), (0, 2), (3, 2)]);
    assert_eq!(rows(&grid), ["...x", "....", "x..x"]);
}

#[test]
fn new_rejects_zero_width() {
    assert_eq!(error_of(0, 10, vec![]), GridError::ZeroWidth);
    assert_eq!(error_of(0, 10, vec![Seed::glider_one(1, 1)]), GridError::ZeroWidth);
}

#[test]
fn new_rejects_zero_height() {
    assert_eq!(error_of(10, 0, vec![]), GridError::ZeroHeight);
    assert_eq!(error_of(10, 0, vec![Seed::glider_two(1, 1)]), GridError::ZeroHeight);
}

#[test]
fn new_looks_at_the_width_before_the_height() {
    assert_eq!(error_of(0, 0, vec![]), GridError::ZeroWidth);
}

#[test]
fn new_rejects_a_point_one_past_the_right_edge() {
    let seed = Seed::new(vec![Point::new(10, 4)]);
    assert_eq!(error_of(10, 10, vec![seed]), GridError::SeedOutsideWidth { x: 10 });
}

#[test]
fn new_rejects_a_point_one_past_the_bottom_edge() {
    let seed = Seed::new(vec![Point::new(4, 10)]);
    assert_eq!(error_of(10, 10, vec![seed]), GridError::SeedOutsideHeight { y: 10 });
}

#[test]
fn new_looks_at_the_column_before_the_row() {
    let seed = Seed::new(vec![Point::new(12, 15)]);
    assert_eq!(error_of(10, 10, vec![seed]), GridError::SeedOutsideWidth { x: 12 });
}

#[test]
fn new_reports_the_first_point_off_the_board() {
    let first = Seed::new(vec![Point::new(1, 1), Point::new(2, 7)]);
    let second = Seed::new(vec![Point::new(9, 0)]);
    assert_eq!(error_of(5, 5, vec![first, second]), GridError::SeedOutsideHeight { y: 7 });

    let first = Seed::new(vec![Point::new(1, 1)]);
    let second = Seed::new(vec![Point::new(4, 4), Point::new(9, 0), Point::new(0, 9)]);
    assert_eq!(error_of(5, 5, vec![first, second]), GridError::SeedOutsideWidth { x: 9 });
}

#[test]
fn new_rejects_a_glider_that_reaches_over_the_edge() {
    assert_eq!(
        error_of(10, 10, vec![Seed::glider_one(8, 1)]),
        GridError::SeedOutsideWidth { x: 10 }
    );
    assert_eq!(
        error_of(10, 10, vec![Seed::glider_one(1, 8)]),
        GridError::SeedOutsideHeight { y: 10 }
    );
    assert!(Grid::new(10, 10, vec![Seed::glider_one(7, 7)]).is_ok());
}

#[test]
fn lone_cell_dies_of_underpopulation() {
    let mut grid = grid_of(5, 5, vec![(2, 2)]);
    assert_eq!(0, grid.count_neighbours(2, 2));
    grid.tick();
    assert!(!grid.cells()[2][2]);
    assert!(!grid.any_alive());
}

#[test]
fn cell_with_one_neighbour_dies_of_underpopulation() {
    let mut grid = grid_of(5, 5, vec![(2, 2), (3, 3)]);
    assert_eq!(1, grid.count_neighbours(2, 2));
    grid.tick();
    assert_eq!(rows(&grid), [".....", ".....", ".....", ".....", "....."]);
}

#[test]
fn single_cell_board_dies_out() {
    let mut grid = grid_of(1, 1, vec![(0, 0)]);
    assert_eq!(0, grid.count_neighbours(0, 0));
    grid.tick();
    assert_eq!(rows(&grid), ["."]);
}

#[test]
fn crowded_cell_dies_and_cell_with_three_neighbours_is_born() {
    let mut grid = grid_of(5, 5, vec![(2, 2), (1, 2), (3, 2), (2, 1), (2, 3)]);
    assert_eq!(4, grid.count_neighbours(2, 2));
    assert_eq!(3, grid.count_neighbours(1, 1));
    assert!(!grid.cells()[1][1]);
    grid.tick();
    assert!(!grid.cells()[2][2]);
    assert!(grid.cells()[1][1]);
    assert_eq!(rows(&grid), [".....", ".xxx.", ".x.x.", ".xxx.", "....."]);
}

#[test]
fn cell_with_eight_neighbours_dies() {
    let all = (0..3).flat_map(|y| (0..3).map(move |x| (x, y))).collect();
    let mut grid = grid_of(3, 3, all);
    assert_eq!(8, grid.count_neighbours(1, 1));
    assert_eq!(5, grid.count_neighbours(1, 0));
    assert_eq!(5, grid.count_neighbours(0, 1));
    assert_eq!(3, grid.count_neighbours(0, 0));
    assert_eq!(3, grid.count_neighbours(2, 2));
    grid.tick();
    assert_eq!(rows(&grid), ["x.x", "...", "x.x"]);
}

#[test]
fn cells_with_two_or_three_neighbours_survive() {
    let mut grid = grid_of(4, 4, vec![(1, 1), (2, 1), (1, 2), (2, 2)]);
    assert_eq!(3, grid.count_neighbours(1, 1));
    grid.tick();
    assert_eq!(rows(&grid), ["....", ".xx.", ".xx.", "...."]);

    let mut grid = grid_of(3, 3, vec![(1, 0), (1, 1), (1, 2)]);
    assert_eq!(2, grid.count_neighbours(1, 1));
    grid.tick();
    assert!(grid.cells()[1][1]);
}

#[test]
fn tick_judges_every_cell_by_the_generation_before() {
    let mut grid = grid_of(3, 3, vec![(1, 0), (1, 1), (1, 2)]);
    grid.tick();
    assert_eq!(rows(&grid), ["...", "xxx", "..."]);
    grid.tick();
    assert_eq!(rows(&grid), [".x.", ".x.", ".x."]);
}

#[test]
fn tick_counts_the_steps() {
    let mut grid = grid_of(3, 3, vec![(1, 0), (1, 1), (1, 2)]);
    for done in 0..12u128 {
        assert_eq!(done, grid.steps());
        grid.tick();
    }
    assert_eq!(12, grid.steps());
}

#[test]
fn game_goes_on_while_cells_change() {
    let mut grid = grid_of(3, 3, vec![(1, 0), (1, 1), (1, 2)]);
    for _ in 0..6 {
        grid.tick();
        assert!(grid.can_continue());
        assert!(grid.any_alive());
    }
}

#[test]
fn game_stops_when_nothing_changes() {
    let mut grid = grid_of(4, 4, vec![(1, 1), (2, 1), (1, 2), (2, 2)]);
    assert!(grid.can_continue());
    grid.tick();
    assert!(!grid.can_continue());
    assert!(grid.any_alive());
    assert_eq!(1, grid.steps());
}

#[test]
fn game_stops_one_tick_after_the_last_cell_died() {
    let mut grid = grid_of(3, 3, vec![(1, 1)]);
    grid.tick();
    assert!(grid.can_continue());
    assert!(!grid.any_alive());
    grid.tick();
    assert!(!grid.can_continue());
    assert_eq!(2, grid.steps());
}

#[test]
fn blank_grid_stops_after_one_tick() {
    let mut grid = Grid::new(3, 3, vec![]).unwrap();
    assert!(grid.can_continue());
    grid.tick();
    assert!(!grid.can_continue());
    assert_eq!(rows(&grid), ["...", "...", "..."]);
}

#[test]
fn glider_travels_one_cell_down_and_right_in_four_ticks() {
    let mut grid = Grid::new(10, 10, vec![Seed::glider_one(1, 1)]).unwrap();
    for _ in 0..4 {
        grid.tick();
    }
    let moved = Grid::new(10, 10, vec![Seed::glider_one(2, 2)]).unwrap();
    assert_eq!(grid.cells(), moved.cells());
    assert_eq!(4, grid.steps());

    let mut grid = Grid::new(10, 10, vec![Seed::glider_two(1, 1)]).unwrap();
    for _ in 0..4 {
        grid.tick();
    }
    let moved = Grid::new(10, 10, vec![Seed::glider_two(2, 2)]).unwrap();
    assert_eq!(grid.cells(), moved.cells());
}

#[test]
fn glider_passes_through_its_phases() {
    let mut grid = Grid::new(6, 6, vec![Seed::glider_one(1, 1)]).unwrap();
    assert_eq!(rows(&grid), ["......", ".x....", "..xx..", ".xx...", "......", "......"]);
    grid.tick();
    assert_eq!(rows(&grid), ["......", "..x...", "...x..", ".xxx..", "......", "......"]);
    grid.tick();
    assert_eq!(rows(&grid), ["......", "......", ".x.x..", "..xx..", "..x...", "......"]);
    grid.tick();
    assert_eq!(rows(&grid), ["......", "......", "...x..", ".x.x..", "..xx..", "......"]);
    let second_phase = Grid::new(6, 6, vec![Seed::glider_two(1, 2)]).unwrap();
    assert_eq!(grid.cells(), second_phase.cells());
    grid.tick();
    assert_eq!(rows(&grid), ["......", "......", "..x...", "...xx.", "..xx..", "......"]);
}

#[test]
fn glider_in_the_corner_of_a_just_large_enough_board_travels() {
    let mut grid = Grid::new(4, 4, vec![Seed::glider_one(0, 0)]).unwrap();
    for _ in 0..4 {
        grid.tick();
    }
    assert_eq!(rows(&grid), ["....", ".x..", "..xx", ".xx."]);
}

#[test]
fn glider_comes_to_rest_as_a_block_in_the_corner() {
    let mut grid = Grid::new(10, 10, vec![Seed::glider_one(1, 1)]).unwrap();
    while grid.can_continue() {
        grid.tick();
    }
    assert_eq!(29, grid.steps());
    assert!(grid.any_alive());
    let block = grid_of(10, 10, vec![(8, 8), (9, 8), (8, 9), (9, 9)]);
    assert_eq!(grid.cells(), block.cells());
}

#[test]
fn four_gliders_on_a_wide_board_come_to_rest() {
    let seeds = vec![
        Seed::glider_one(1, 1),
        Seed::glider_one(10, 10),
        Seed::glider_two(20, 10),
        Seed::glider_two(30, 5),
    ];
    let mut grid = Grid::new(50, 20, seeds).unwrap();
    while grid.can_continue() {
        grid.tick();
    }
    assert_eq!(60, grid.steps());
    let alive = grid.cells().iter().flatten().filter(|alive| **alive).count();
    assert_eq!(8, alive);
}

#[test]
fn lone_cell_in_the_corner_counts_only_for_the_cells_next_to_it() {
    let grid = grid_of(6, 5, vec![(0, 0)]);
    for y in 0..5 {
        for x in 0..6 {
            let next_to_it = (x, y) == (1, 0) || (x, y) == (0, 1) || (x, y) == (1, 1);
            let expected = if next_to_it { 1 } else { 0 };
            assert_eq!(expected, grid.count_neighbours(x, y), "at ({x}, {y})");
        }
    }
    assert_eq!(0, grid.count_neighbours(0, 0));
    assert_eq!(0, grid.count_neighbours(5, 0));
    assert_eq!(0, grid.count_neighbours(0, 4));
    assert_eq!(0, grid.count_neighbours(5, 4));
}

#[test]
fn cells_on_opposite_edges_are_not_neighbours() {
    let grid = grid_of(4, 4, vec![(3, 0), (3, 1), (3, 2), (3, 3), (0, 3), (1, 3), (2, 3)]);
    assert_eq!(0, grid.count_neighbours(0, 0));
    assert_eq!(0, grid.count_neighbours(1, 1));
    assert_eq!(0, grid.count_neighbours(0, 1));
    assert_eq!(0, grid.count_neighbours(1, 0));
    assert_eq!(1, grid.count_neighbours(3, 0));
    assert_eq!(1, grid.count_neighbours(0, 3));
    assert_eq!(5, grid.count_neighbours(2, 2));
}

#[test]
fn own_state_is_not_counted() {
    let with = grid_of(3, 3, vec![(0, 0), (2, 1), (1, 1)]);
    let without = grid_of(3, 3, vec![(0, 0), (2, 1)]);
    assert_eq!(2, with.count_neighbours(1, 1));
    assert_eq!(2, without.count_neighbours(1, 1));
}

#[test]
fn positions_off_the_board_have_only_the_neighbours_on_it() {
    let grid = grid_of(3, 3, vec![(2, 0), (2, 1), (0, 2)]);
    assert_eq!(2, grid.count_neighbours(3, 0));
    assert_eq!(2, grid.count_neighbours(3, 1));
    assert_eq!(1, grid.count_neighbours(3, 2));
    assert_eq!(0, grid.count_neighbours(4, 1));
    assert_eq!(1, grid.count_neighbours(0, 3));
    assert_eq!(1, grid.count_neighbours(1, 3));
    assert_eq!(0, grid.count_neighbours(2, 3));
    assert_eq!(0, grid.count_neighbours(usize::MAX, usize::MAX));
    assert_eq!(0, grid.count_neighbours(usize::MAX, 0));
    assert_eq!(0, grid.count_neighbours(0, usize::MAX));
}

#[test]
fn count_at_the_largest_coordinates_of_a_tall_board() {
    let grid = grid_of(1, 3, vec![(0, 0), (0, 1), (0, 2)]);
    assert_eq!(1, grid.count_neighbours(0, 0));
    assert_eq!(2, grid.count_neighbours(0, 1));
    assert_eq!(1, grid.count_neighbours(0, 2));
    assert_eq!(2, grid.count_neighbours(1, 0));
    assert_eq!(3, grid.count_neighbours(1, 1));
}

#[test]
fn any_alive_finds_a_cell_in_the_last_place() {
    assert!(grid_of(3, 2, vec![(2, 1)]).any_alive());
    assert!(grid_of(3, 2, vec![(0, 0)]).any_alive());
    assert!(!Grid::new(3, 2, vec![]).unwrap().any_alive());
}

#[test]
fn observing_leaves_the_grid_as_it_is() {
    let mut grid = Grid::new(6, 6, vec![Seed::glider_one(1, 1)]).unwrap();
    grid.tick();
    let cells = grid.cells().clone();
    let text = grid.render();
    for _ in 0..3 {
        assert_eq!(text, grid.render());
        assert!(grid.can_continue());
        assert!(grid.any_alive());
        assert_eq!(1, grid.steps());
        assert_eq!(5, grid.count_neighbours(2, 2));
        assert_eq!(&cells, grid.cells());
    }
    let mut twin = Grid::new(6, 6, vec![Seed::glider_one(1, 1)]).unwrap();
    twin.tick();
    twin.tick();
    grid.tick();
    assert_eq!(twin.cells(), grid.cells());
    assert_eq!(twin.render(), grid.render());
}
