use game_of_life::universe::{Universe, DEFAULT_SIZE};

fn empty(width: u32, height: u32) -> Universe {
    let mut universe = Universe::new(Some((width, height)));
    universe.clear();
    universe
}

fn live_cells(universe: &Universe) -> Vec<(u32, u32)> {
    let mut live = Vec::new();
    for row in 0..universe.height() {
        for col in 0..universe.width() {
            if universe.is_alive(row, col) {
                live.push((row, col));
            }
        }
    }
    live
}

#[test]
fn default_size_is_used_when_no_dimensions_are_given() {
    let universe = Universe::new(None);
    assert_eq!(DEFAULT_SIZE, 64);
    assert_eq!(universe.width(), 64);
    assert_eq!(universe.height(), 64);
}

#[test]
fn dimensions_are_width_then_height() {
    let universe = Universe::new(Some((7, 3)));
    assert_eq!(universe.width(), 7);
    assert_eq!(universe.height(), 3);
}

#[test]
fn zero_sides_are_raised_to_one() {
    let universe = Universe::new(Some((0, 0)));
    assert_eq!(universe.width(), 1);
    assert_eq!(universe.height(), 1);
    let universe = Universe::new(Some((0, 5)));
    assert_eq!((universe.width(), universe.height()), (1, 5));
    let universe = Universe::new(Some((5, 0)));
    assert_eq!((universe.width(), universe.height()), (5, 1));
}

#[test]
fn one_cell_per_coordinate_after_every_operation() {
    let mut universe = Universe::new(Some((5, 4)));
    let last = |u: &Universe| u.index_of(u.height() - 1, u.width() - 1);
    assert_eq!(last(&universe), 19);
    universe.advance();
    assert_eq!((universe.width(), universe.height(), last(&universe)), (5, 4, 19));
    universe.toggle(3, 4);
    assert_eq!((universe.width(), universe.height(), last(&universe)), (5, 4, 19));
    universe.set_alive(&[(0, 0), (3, 4)]);
    assert_eq!((universe.width(), universe.height(), last(&universe)), (5, 4, 19));
    universe.clear();
    assert_eq!((universe.width(), universe.height(), last(&universe)), (5, 4, 19));
    universe.reset();
    assert_eq!((universe.width(), universe.height(), last(&universe)), (5, 4, 19));
    for row in 0..4 {
        for col in 0..5 {
            let _ = universe.is_alive(row, col);
        }
    }
}

#[test]
fn index_is_row_major() {
    let universe = Universe::new(Some((5, 4)));
    assert_eq!(universe.index_of(0, 0), 0);
    assert_eq!(universe.index_of(0, 4), 4);
    assert_eq!(universe.index_of(1, 0), 5);
    assert_eq!(universe.index_of(2, 3), 13);
    assert_eq!(universe.index_of(3, 4), 19);
}

#[test]
fn contains_tells_cells_from_other_coordinates() {
    let universe = Universe::new(Some((5, 4)));
    assert!(universe.contains(0, 0));
    assert!(universe.contains(3, 4));
    assert!(!universe.contains(4, 0));
    assert!(!universe.contains(0, 5));
    assert!(!universe.contains(u32::MAX, u32::MAX));
}

#[test]
fn seed_makes_even_positions_and_multiples_of_seven_alive() {
    let universe = Universe::new(Some((5, 4)));
    let expected = vec![
        (0, 0),
        (0, 2),
        (0, 4),
        (1, 1),
        (1, 2),
        (1, 3),
        (2, 0),
        (2, 2),
        (2, 4),
        (3, 1),
        (3, 3),
    ];
    assert_eq!(live_cells(&universe), expected);
}

#[test]
fn seed_of_default_universe() {
    let universe = Universe::new(None);
    for row in 0..64u32 {
        for col in 0..64u32 {
            let i = row * 64 + col;
            assert_eq!(universe.is_alive(row, col), i % 2 == 0 || i % 7 == 0);
        }
    }
}

#[test]
fn reset_restores_the_seed() {
    let mut universe = Universe::new(Some((9, 6)));
    let seeded = live_cells(&universe);
    universe.advance();
    universe.toggle(2, 2);
    assert_ne!(live_cells(&universe), seeded);
    universe.reset();
    assert_eq!(live_cells(&universe), seeded);
    assert_eq!((universe.width(), universe.height()), (9, 6));
    universe.clear();
    universe.reset();
    assert_eq!(live_cells(&universe), seeded);
}

#[test]
fn clear_leaves_no_cell_alive() {
    let mut universe = Universe::new(Some((8, 5)));
    assert!(!live_cells(&universe).is_empty());
    universe.clear();
    for row in 0..5 {
        for col in 0..8 {
            assert!(!universe.is_alive(row, col));
        }
    }
    assert_eq!((universe.width(), universe.height()), (8, 5));
}

#[test]
fn toggle_makes_a_dead_cell_alive() {
    let mut universe = empty(4, 4);
    universe.toggle(2, 1);
    assert_eq!(live_cells(&universe), vec![(2, 1)]);
}

#[test]
fn toggle_twice_gives_the_cell_back() {
    let mut universe = Universe::new(Some((6, 6)));
    let before = live_cells(&universe);
    let was = universe.is_alive(3, 4);
    universe.toggle(3, 4);
    assert_eq!(universe.is_alive(3, 4), !was);
    universe.toggle(3, 4);
    assert_eq!(universe.is_alive(3, 4), was);
    assert_eq!(live_cells(&universe), before);
}

#[test]
fn toggle_is_not_transposed() {
    let mut universe = empty(5, 3);
    universe.toggle(2, 4);
    assert!(universe.is_alive(2, 4));
    assert_eq!(live_cells(&universe), vec![(2, 4)]);
}

#[test]
fn set_alive_keeps_the_other_cells() {
    let mut universe = empty(6, 6);
    universe.toggle(5, 5);
    universe.toggle(1, 2);
    universe.set_alive(&[(1, 2), (2, 3), (3, 1), (3, 2), (3, 3)]);
    assert_eq!(live_cells(&universe), vec![(1, 2), (2, 3), (3, 1), (3, 2), (3, 3), (5, 5)]);
}

#[test]
fn set_alive_with_no_coordinates_changes_nothing() {
    let mut universe = Universe::new(Some((6, 6)));
    let before = live_cells(&universe);
    universe.set_alive(&[]);
    assert_eq!(live_cells(&universe), before);
}

#[test]
fn set_alive_takes_a_coordinate_twice() {
    let mut universe = empty(3, 3);
    universe.set_alive(&[(1, 1), (1, 1), (0, 2)]);
    assert_eq!(live_cells(&universe), vec![(0, 2), (1, 1)]);
}

#[test]
fn lone_cell_dies_and_nothing_is_born() {
    let mut universe = empty(3, 3);
    universe.toggle(1, 1);
    universe.advance();
    assert_eq!(live_cells(&universe), Vec::<(u32, u32)>::new());
}

#[test]
fn block_is_a_still_life() {
    let mut universe = empty(6, 6);
    let block = vec![(2, 2), (2, 3), (3, 2), (3, 3)];
    universe.set_alive(&block);
    for _ in 0..10 {
        universe.advance();
        assert_eq!(live_cells(&universe), block);
    }
}

#[test]
fn block_across_the_edges_is_a_still_life() {
    let mut universe = empty(4, 4);
    let block = vec![(0, 0), (0, 3), (3, 0), (3, 3)];
    universe.set_alive(&block);
    for _ in 0..5 {
        universe.advance();
        assert_eq!(live_cells(&universe), block);
    }
}

#[test]
fn blinker_has_period_two() {
    let mut universe = empty(5, 5);
    let across = vec![(2, 1), (2, 2), (2, 3)];
    let upright = vec![(1, 2), (2, 2), (3, 2)];
    universe.set_alive(&across);
    universe.advance();
    assert_eq!(live_cells(&universe), upright);
    universe.advance();
    assert_eq!(live_cells(&universe), across);
}

#[test]
fn glider_moves_into_its_next_phase() {
    let mut universe = empty(8, 8);
    universe.set_alive(&[(1, 2), (2, 3), (3, 1), (3, 2), (3, 3)]);
    universe.advance();
    assert_eq!(live_cells(&universe), vec![(2, 1), (2, 3), (3, 2), (3, 3), (4, 2)]);
}

#[test]
fn glider_is_one_step_down_and_right_after_four_generations() {
    let mut universe = empty(8, 8);
    universe.set_alive(&[(1, 2), (2, 3), (3, 1), (3, 2), (3, 3)]);
    for _ in 0..4 {
        universe.advance();
    }
    assert_eq!(live_cells(&universe), vec![(2, 3), (3, 4), (4, 2), (4, 3), (4, 4)]);
}

#[test]
fn corner_cells_are_neighbors_across_the_edges() {
    let mut universe = empty(7, 5);
    universe.toggle(4, 6);
    assert_eq!(universe.live_neighbors(0, 0), 1);
    universe.toggle(0, 0);
    assert_eq!(universe.live_neighbors(0, 0), 1);
    assert_eq!(universe.live_neighbors(4, 6), 1);
    assert_eq!(universe.live_neighbors(2, 3), 0);
}

#[test]
fn live_neighbors_counts_all_eight() {
    let mut universe = Universe::new(Some((3, 3)));
    universe.set_alive(&[
        (0, 0),
        (0, 1),
        (0, 2),
        (1, 0),
        (1, 1),
        (1, 2),
        (2, 0),
        (2, 1),
        (2, 2),
    ]);
    assert_eq!(universe.live_neighbors(1, 1), 8);
    assert_eq!(universe.live_neighbors(0, 0), 8);
    universe.toggle(0, 2);
    assert_eq!(universe.live_neighbors(1, 1), 7);
    assert_eq!(universe.live_neighbors(0, 2), 8);
}

#[test]
fn single_cell_universe_counts_itself_eight_times() {
    let mut universe = empty(1, 1);
    assert_eq!(universe.live_neighbors(0, 0), 0);
    universe.toggle(0, 0);
    assert_eq!(universe.live_neighbors(0, 0), 8);
    universe.advance();
    assert!(!universe.is_alive(0, 0));
}

#[test]
fn advance_reads_only_the_current_generation() {
    // Three cells in the top row of a wide grid: were the new states written
    // in place, the middle column would see its upper neighbours already dead.
    let mut universe = empty(5, 5);
    universe.set_alive(&[(0, 1), (0, 2), (0, 3)]);
    universe.advance();
    assert_eq!(live_cells(&universe), vec![(0, 2), (1, 2), (4, 2)]);
}

#[test]
fn three_neighbors_give_birth_and_four_kill() {
    let mut universe = empty(5, 5);
    universe.set_alive(&[(1, 1), (1, 3), (3, 2)]);
    assert_eq!(universe.live_neighbors(2, 2), 3);
    universe.advance();
    assert_eq!(live_cells(&universe), vec![(2, 2)]);

    let mut universe = empty(5, 5);
    universe.set_alive(&[(2, 2), (1, 1), (1, 3), (3, 1), (3, 3)]);
    assert_eq!(universe.live_neighbors(2, 2), 4);
    universe.advance();
    assert!(!universe.is_alive(2, 2));
}
