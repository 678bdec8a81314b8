use game_of_life::{Cell, Universe, UniverseError};

fn universe_with(width: u32, height: u32, alive: &[(u32, u32)]) -> Universe {
    let mut universe = Universe::with_dimensions(width, height);
    universe.set_cells(alive);
    universe
}

fn cells_with(width: u32, height: u32, alive: &[(u32, u32)]) -> Vec<Cell> {
    let mut cells = vec![Cell::Dead; (width * height) as usize];
    for (row, column) in alive.iter() {
        cells[(row * width + column) as usize] = Cell::Alive;
    }
    cells
}

fn quiet(universe: &Universe) -> Vec<bool> {
    vec![false; universe.get_cells().len()]
}

#[test]
fn cell_count_is_width_times_height_after_each_operation() {
    let mut universe = Universe::with_dimensions(6, 4);
    assert_eq!(universe.get_cells().len(), 24);
    universe.set_width(5);
    assert_eq!(universe.get_cells().len(), 20);
    universe.set_height(7);
    assert_eq!(universe.get_cells().len(), 35);
    universe.toggle_cell(6, 4);
    assert_eq!(universe.get_cells().len(), 35);
    universe.set_cells(&[(0, 0), (3, 3), (6, 4)]);
    assert_eq!(universe.get_cells().len(), 35);
    let flags = quiet(&universe);
    universe.tick_with(&flags);
    assert_eq!(universe.get_cells().len(), 35);
    universe.tick_with(&vec![true; 35]);
    assert_eq!(universe.get_cells().len(), 35);
    assert_eq!(universe.width(), 5);
    assert_eq!(universe.height(), 7);
}

#[test]
fn with_dimensions_holds_only_dead_cells() {
    let universe = Universe::with_dimensions(3, 2);
    assert_eq!(universe.width(), 3);
    assert_eq!(universe.height(), 2);
    assert_eq!(universe.get_cells(), vec![Cell::Dead; 6].as_slice());
}

#[test]
fn universe_without_cells() {
    let mut universe = Universe::with_dimensions(0, 5);
    assert_eq!(universe.get_cells().len(), 0);
    universe.tick_with(&[]);
    universe.tick();
    assert_eq!(universe.get_cells().len(), 0);
    assert_eq!(universe.render_geometry().len(), 0);
    universe.set_width(2);
    universe.set_height(0);
    assert_eq!(universe.get_cells().len(), 0);
    assert_eq!(universe.width(), 2);
    assert_eq!(universe.height(), 0);
}

#[test]
fn index_is_row_times_width_plus_column() {
    let universe = Universe::with_dimensions(7, 3);
    assert_eq!(universe.get_index(0, 0), 0);
    assert_eq!(universe.get_index(0, 6), 6);
    assert_eq!(universe.get_index(1, 0), 7);
    assert_eq!(universe.get_index(2, 5), 19);
    assert_eq!(universe.get_index(2, 6), 20);
}

#[test]
fn neighbors_of_the_origin_wrap_to_the_far_corner() {
    let universe = universe_with(5, 4, &[(3, 4)]);
    assert_eq!(universe.live_neighbor_count(0, 0), 1);
    let square = universe_with(3, 3, &[(2, 2)]);
    assert_eq!(square.live_neighbor_count(0, 0), 1);
}

#[test]
fn neighbors_wrap_along_each_edge() {
    let universe = universe_with(5, 4, &[(3, 0), (3, 1), (0, 4), (1, 4), (1, 1)]);
    assert_eq!(universe.live_neighbor_count(0, 0), 5);
    let far = universe_with(5, 4, &[(0, 0), (0, 3), (2, 0), (3, 3), (2, 4)]);
    assert_eq!(far.live_neighbor_count(3, 4), 5);
}

#[test]
fn neighbor_count_leaves_the_cell_itself_out() {
    let universe = universe_with(5, 5, &[(2, 2)]);
    assert_eq!(universe.live_neighbor_count(2, 2), 0);
    assert_eq!(universe.live_neighbor_count(1, 1), 1);
    assert_eq!(universe.live_neighbor_count(0, 0), 0);
}

#[test]
fn neighbor_count_reaches_eight() {
    let universe = universe_with(
        4,
        4,
        &[(0, 0), (0, 1), (0, 2), (1, 0), (1, 2), (2, 0), (2, 1), (2, 2)],
    );
    assert_eq!(universe.live_neighbor_count(1, 1), 8);
}

#[test]
fn single_cell_is_its_own_eight_neighbors() {
    let mut universe = Universe::with_dimensions(1, 1);
    assert_eq!(universe.live_neighbor_count(0, 0), 0);
    universe.toggle_cell(0, 0);
    assert_eq!(universe.live_neighbor_count(0, 0), 8);
    universe.tick_with(&[false]);
    assert_eq!(universe.get_cells(), &[Cell::Dead]);
}

#[test]
fn single_row_wraps_onto_itself() {
    let universe = universe_with(4, 1, &[(0, 1)]);
    assert_eq!(universe.live_neighbor_count(0, 0), 3);
    assert_eq!(universe.live_neighbor_count(0, 1), 2);
    assert_eq!(universe.live_neighbor_count(0, 2), 3);
    assert_eq!(universe.live_neighbor_count(0, 3), 0);
}

#[test]
fn blinker_in_a_larger_grid_rotates() {
    let mut universe = universe_with(5, 5, &[(1, 2), (2, 2), (3, 2)]);
    let flags = quiet(&universe);
    universe.tick_with(&flags);
    assert_eq!(universe.get_cells(), cells_with(5, 5, &[(2, 1), (2, 2), (2, 3)]).as_slice());
    universe.tick_with(&flags);
    assert_eq!(universe.get_cells(), cells_with(5, 5, &[(1, 2), (2, 2), (3, 2)]).as_slice());
}

#[test]
fn horizontal_blinker_on_four_by_four_becomes_vertical() {
    let mut universe = universe_with(4, 4, &[(1, 1), (1, 2), (1, 3)]);
    universe.tick_with(&[false; 16]);
    assert_eq!(universe.get_cells(), cells_with(4, 4, &[(0, 2), (1, 2), (2, 2)]).as_slice());
}

#[test]
fn block_is_still() {
    let mut universe = universe_with(6, 6, &[(2, 2), (2, 3), (3, 2), (3, 3)]);
    let before = universe.get_cells().to_vec();
    let flags = quiet(&universe);
    universe.tick_with(&flags);
    assert_eq!(universe.get_cells(), before.as_slice());
}

#[test]
fn every_cell_moves_by_the_counts_of_the_generation_before() {
    let mut universe = universe_with(6, 6, &[(0, 1), (1, 2), (2, 0), (2, 1), (2, 2)]);
    let flags = quiet(&universe);
    universe.tick_with(&flags);
    assert_eq!(
        universe.get_cells(),
        cells_with(6, 6, &[(1, 0), (1, 2), (2, 1), (2, 2), (3, 1)]).as_slice()
    );
}

#[test]
fn mutation_flags_force_life_where_more_than_one_neighbor_lives() {
    let mut universe = universe_with(4, 4, &[(1, 1), (1, 2), (1, 3)]);
    universe.tick_with(&[true; 16]);
    let alive = [
        (0, 0),
        (0, 1),
        (0, 2),
        (0, 3),
        (1, 0),
        (1, 2),
        (2, 0),
        (2, 1),
        (2, 2),
        (2, 3),
    ];
    assert_eq!(universe.get_cells(), cells_with(4, 4, &alive).as_slice());
}

#[test]
fn mutation_flag_of_one_cell_moves_only_that_cell() {
    let mut universe = universe_with(4, 4, &[(1, 1), (1, 2), (1, 3)]);
    let mut flags = vec![false; 16];
    flags[4] = true;
    flags[12] = true;
    universe.tick_with(&flags);
    assert_eq!(
        universe.get_cells(),
        cells_with(4, 4, &[(0, 2), (1, 0), (1, 2), (2, 2)]).as_slice()
    );
}

#[test]
fn dead_universe_stays_dead() {
    let mut universe = Universe::with_dimensions(8, 5);
    let flags = quiet(&universe);
    let mut generation: u32 = 0;
    while generation < 10 {
        universe.tick_with(&flags);
        assert_eq!(universe.get_cells(), vec![Cell::Dead; 40].as_slice());
        generation += 1;
    }
    universe.tick_with(&vec![true; 40]);
    assert_eq!(universe.get_cells(), vec![Cell::Dead; 40].as_slice());
}

#[test]
fn dead_universe_stays_dead_under_random_ticks() {
    let mut universe = Universe::with_dimensions(8, 5);
    let mut generation: u32 = 0;
    while generation < 10 {
        universe.tick();
        generation += 1;
    }
    assert_eq!(universe.get_cells(), vec![Cell::Dead; 40].as_slice());
    assert_eq!(universe.width(), 8);
    assert_eq!(universe.height(), 5);
}

#[test]
fn lonely_cells_die_under_random_ticks() {
    let mut universe = universe_with(7, 7, &[(0, 0), (3, 3)]);
    universe.tick();
    assert_eq!(universe.get_cells(), vec![Cell::Dead; 49].as_slice());
}

#[test]
fn set_cells_twice_is_set_cells_once() {
    let list = [(0, 0), (1, 2), (3, 3), (1, 2), (2, 0)];
    let mut once = universe_with(4, 4, &[(3, 0)]);
    once.set_cells(&list);
    let mut twice = universe_with(4, 4, &[(3, 0)]);
    twice.set_cells(&list);
    twice.set_cells(&list);
    assert_eq!(once.get_cells(), twice.get_cells());
    assert_eq!(
        once.get_cells(),
        cells_with(4, 4, &[(0, 0), (1, 2), (2, 0), (3, 0), (3, 3)]).as_slice()
    );
}

#[test]
fn set_cells_keeps_cells_that_are_not_listed() {
    let mut universe = universe_with(3, 3, &[(0, 0), (2, 2)]);
    universe.set_cells(&[(1, 1)]);
    assert_eq!(universe.get_cells(), cells_with(3, 3, &[(0, 0), (1, 1), (2, 2)]).as_slice());
    universe.set_cells(&[]);
    assert_eq!(universe.get_cells(), cells_with(3, 3, &[(0, 0), (1, 1), (2, 2)]).as_slice());
}

#[test]
fn toggle_cell_twice_gives_the_universe_back() {
    let mut universe = universe_with(4, 3, &[(0, 1), (2, 3)]);
    let before = universe.get_cells().to_vec();
    universe.toggle_cell(1, 2);
    assert_eq!(universe.get_cells(), cells_with(4, 3, &[(0, 1), (1, 2), (2, 3)]).as_slice());
    universe.toggle_cell(1, 2);
    assert_eq!(universe.get_cells(), before.as_slice());
    universe.toggle_cell(2, 3);
    assert_eq!(universe.get_cells(), cells_with(4, 3, &[(0, 1)]).as_slice());
    universe.toggle_cell(2, 3);
    assert_eq!(universe.get_cells(), before.as_slice());
}

#[test]
fn set_width_resets_and_keeps_the_height() {
    let mut universe = universe_with(6, 4, &[(0, 0), (1, 5), (3, 3)]);
    universe.set_width(10);
    assert_eq!(universe.width(), 10);
    assert_eq!(universe.height(), 4);
    assert_eq!(universe.get_cells(), vec![Cell::Dead; 40].as_slice());
}

#[test]
fn set_height_resets_and_keeps_the_width() {
    let mut universe = universe_with(6, 4, &[(0, 0), (1, 5), (3, 3)]);
    universe.set_height(3);
    assert_eq!(universe.width(), 6);
    assert_eq!(universe.height(), 3);
    assert_eq!(universe.get_cells(), vec![Cell::Dead; 18].as_slice());
}

#[test]
fn try_toggle_cell_refuses_a_coordinate_off_the_grid() {
    let mut universe = universe_with(4, 3, &[(0, 1)]);
    let before = universe.get_cells().to_vec();
    assert_eq!(
        universe.try_toggle_cell(3, 0),
        Err(UniverseError::InvalidCoordinate { row: 3, column: 0 })
    );
    assert_eq!(
        universe.try_toggle_cell(0, 4),
        Err(UniverseError::InvalidCoordinate { row: 0, column: 4 })
    );
    assert_eq!(
        universe.try_toggle_cell(u32::MAX, u32::MAX),
        Err(UniverseError::InvalidCoordinate { row: u32::MAX, column: u32::MAX })
    );
    assert_eq!(universe.get_cells(), before.as_slice());
    assert_eq!(universe.try_toggle_cell(2, 3), Ok(()));
    assert_eq!(universe.get_cells(), cells_with(4, 3, &[(0, 1), (2, 3)]).as_slice());
}

#[test]
fn try_set_cells_names_the_first_coordinate_off_the_grid() {
    let mut universe = universe_with(4, 3, &[(0, 1)]);
    let before = universe.get_cells().to_vec();
    assert_eq!(
        universe.try_set_cells(&[(1, 1), (1, 4), (2, 2), (9, 9)]),
        Err(UniverseError::InvalidCoordinate { row: 1, column: 4 })
    );
    assert_eq!(universe.get_cells(), before.as_slice());
    assert_eq!(universe.try_set_cells(&[(1, 1), (2, 2)]), Ok(()));
    assert_eq!(universe.get_cells(), cells_with(4, 3, &[(0, 1), (1, 1), (2, 2)]).as_slice());
    assert_eq!(universe.try_set_cells(&[]), Ok(()));
}

#[test]
fn try_set_cells_on_a_universe_without_cells() {
    let mut universe = Universe::with_dimensions(0, 0);
    assert_eq!(
        universe.try_set_cells(&[(0, 0)]),
        Err(UniverseError::InvalidCoordinate { row: 0, column: 0 })
    );
}
