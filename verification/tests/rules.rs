use game_of_life::random::{
    draw_mutates, FILL_THRESHOLD_BITS, MUTATION_THRESHOLD_BITS, UNIT_BITS,
};
use game_of_life::Cell;

#[test]
fn cell_value_is_zero_or_one() {
    assert_eq!(Cell::Dead.value(), 0);
    assert_eq!(Cell::Alive.value(), 1);
}

#[test]
fn toggle_flips_the_cell() {
    let mut cell = Cell::Dead;
    cell.toggle();
    assert_eq!(cell, Cell::Alive);
    cell.toggle();
    assert_eq!(cell, Cell::Dead);
}

#[test]
fn live_cell_with_fewer_than_two_neighbors_dies() {
    assert_eq!(Cell::Alive.next(0, false), Cell::Dead);
    assert_eq!(Cell::Alive.next(1, false), Cell::Dead);
}

#[test]
fn live_cell_with_two_or_three_neighbors_lives_on() {
    assert_eq!(Cell::Alive.next(2, false), Cell::Alive);
    assert_eq!(Cell::Alive.next(3, false), Cell::Alive);
}

#[test]
fn live_cell_with_more_than_three_neighbors_dies() {
    let mut count: u8 = 4;
    while count <= 8 {
        assert_eq!(Cell::Alive.next(count, false), Cell::Dead);
        count += 1;
    }
}

#[test]
fn dead_cell_with_three_neighbors_comes_alive() {
    assert_eq!(Cell::Dead.next(3, false), Cell::Alive);
}

#[test]
fn dead_cell_with_another_count_stays_dead() {
    let mut count: u8 = 0;
    while count <= 8 {
        if count != 3 {
            assert_eq!(Cell::Dead.next(count, false), Cell::Dead);
        }
        count += 1;
    }
}

#[test]
fn mutation_forces_life_above_one_neighbor() {
    let mut count: u8 = 2;
    while count <= 8 {
        assert_eq!(Cell::Dead.next(count, true), Cell::Alive);
        assert_eq!(Cell::Alive.next(count, true), Cell::Alive);
        count += 1;
    }
}

#[test]
fn mutation_needs_more_than_one_neighbor() {
    assert_eq!(Cell::Dead.next(0, true), Cell::Dead);
    assert_eq!(Cell::Dead.next(1, true), Cell::Dead);
    assert_eq!(Cell::Alive.next(0, true), Cell::Dead);
    assert_eq!(Cell::Alive.next(1, true), Cell::Dead);
}

#[test]
fn thresholds_are_the_bit_patterns_of_their_doubles() {
    assert_eq!(UNIT_BITS, 1.0f64.to_bits());
    assert_eq!(FILL_THRESHOLD_BITS, 0.5f64.to_bits());
    assert_eq!(MUTATION_THRESHOLD_BITS, 0.00001f64.to_bits());
}

#[test]
fn bit_patterns_are_ordered_as_the_draws_are() {
    let draws: Vec<f64> = vec![
        0.0,
        f64::MIN_POSITIVE,
        0.000001,
        0.0000099999,
        0.00001,
        0.0000100001,
        0.25,
        0.4999999,
        0.5,
        0.5000001,
        0.75,
        0.9999999999,
    ];
    for draw in draws.iter() {
        assert_eq!(draw_mutates(draw.to_bits()), *draw < 0.00001);
        assert_eq!(Cell::from_draw(draw.to_bits()) == Cell::Alive, *draw > 0.5);
        assert!(draw.to_bits() < UNIT_BITS);
    }
}

#[test]
fn draw_of_one_half_fills_with_a_dead_cell() {
    assert_eq!(Cell::from_draw(0.5f64.to_bits()), Cell::Dead);
    assert_eq!(Cell::from_draw(0.5f64.to_bits() + 1), Cell::Alive);
    assert_eq!(Cell::from_draw(0), Cell::Dead);
}

#[test]
fn draw_at_the_mutation_threshold_does_not_mutate() {
    assert!(!draw_mutates(MUTATION_THRESHOLD_BITS));
    assert!(draw_mutates(MUTATION_THRESHOLD_BITS - 1));
    assert!(draw_mutates(0));
    assert!(!draw_mutates(0.5f64.to_bits()));
}
