use game_of_life_rs::game::Grid;
use game_of_life_rs::rules::ConstantFalse;
use game_of_life_rs::rules::DefaultRule;
use game_of_life_rs::rules::default_rule;

#[test]
fn test_flip_flop_wrap_sequential() {
    let (width, height): (usize, usize) = (100, 100);
    let mut game = Grid::new_empty(width, height);
    game.set_cell(0, 0, true);
    game.set_cell(1, 0, true);
    game.set_cell(99, 0, true);
    game.propogate(&DefaultRule);
    assert!(game.get_cell(0, 0) && game.get_cell(0, 1) && game.get_cell(0, 99));
}

#[test]
fn test_flip_flop_wrap_parallel() {
    let (width, height): (usize, usize) = (100, 100);
    let mut game = Grid::new_empty(width, height);
    game.set_cell(0, 0, true);
    game.set_cell(1, 0, true);
    game.set_cell(99, 0, true);
    game.propogate_par(&DefaultRule);
    assert!(game.get_cell(0, 0) && game.get_cell(0, 1) && game.get_cell(0, 99));
}

#[test]
fn test_wrap_at_the_edges() {
    assert_eq!(Grid::increment_wrap(0, 1), 0);
    assert_eq!(Grid::decrement_wrap(0, 1), 0);
    assert_eq!(Grid::increment_wrap(1, 2), 0);
    assert_eq!(Grid::decrement_wrap(0, 2), 1);
    assert_eq!(Grid::increment_wrap(4, 5), 0);
    assert_eq!(Grid::decrement_wrap(0, 5), 4);
}

#[test]
fn test_wrap_in_the_middle() {
    assert_eq!(Grid::increment_wrap(2, 5), 3);
    assert_eq!(Grid::decrement_wrap(2, 5), 1);
    assert_eq!(Grid::increment_wrap(1, 7), 2);
    assert_eq!(Grid::decrement_wrap(5, 7), 4);
}

#[test]
fn test_default_rule_exact() {
    // Birth: exactly three live neighbors.
    assert!(default_rule((false, [true, true, true, false, false, false, false, false])));
    // Survival: live with exactly two live neighbors.
    assert!(default_rule((true, [true, false, false, false, true, false, false, false])));
    // Loneliness: live with fewer than two live neighbors dies.
    assert!(!default_rule((true, [true, false, false, false, false, false, false, false])));
    // Overcrowding: four live neighbors kill a live cell and bar a birth.
    assert!(!default_rule((true, [true, true, true, true, false, false, false, false])));
    assert!(!default_rule((false, [true, true, true, true, false, false, false, false])));
    // A dead cell with two live neighbors stays dead.
    assert!(!default_rule((false, [false, true, true, false, false, false, false, false])));
}

#[test]
fn test_neighbor_order() {
    // Neighbors come row by row, left to right: NW, N, NE, W, E, SW, S, SE.
    let mut game = Grid::new_empty(3, 3);
    game.set_cell(0, 0, true); // NW of (1, 1)
    game.set_cell(2, 1, true); // E of (1, 1)
    game.set_cell(1, 2, true); // S of (1, 1)
    let (cell, arr) = game.self_and_neighbors(1, 1);
    assert!(!cell);
    assert_eq!(arr, [true, false, false, false, true, false, true, false]);
}

#[test]
fn test_corner_observation_wraps_both_axes() {
    let mut game = Grid::new_empty(3, 3);
    game.set_cell(2, 2, true);
    // The NW neighbor of the (0, 0) corner is the opposite corner (2, 2).
    let (cell, arr) = game.self_and_neighbors(0, 0);
    assert!(!cell);
    assert_eq!(arr, [true, false, false, false, false, false, false, false]);
}

#[test]
fn test_new_empty_all_dead() {
    let game = Grid::new_empty(7, 5);
    assert_eq!(game.width, 7);
    assert_eq!(game.height, 5);
    for y in 0..5 {
        for x in 0..7 {
            assert!(!game.get_cell(x, y));
        }
    }
}

#[test]
fn test_constant_false_rule_clears_everything() {
    let mut game = Grid::new_empty(5, 4);
    game.set_cell(2, 1, true);
    game.propogate(&ConstantFalse);
    for y in 0..4 {
        for x in 0..5 {
            assert!(!game.get_cell(x, y));
        }
    }
}

#[test]
fn test_dead_grid_stays_dead() {
    let mut game = Grid::new_empty(8, 6);
    for _ in 0..10 {
        game.propogate(&DefaultRule);
        for y in 0..6 {
            for x in 0..8 {
                assert!(!game.get_cell(x, y));
            }
        }
    }
}

#[test]
fn test_seeded_is_deterministic() {
    let a = Grid::new_seeded(20, 10, 42);
    let b = Grid::new_seeded(20, 10, 42);
    for y in 0..10 {
        for x in 0..20 {
            assert_eq!(a.get_cell(x, y), b.get_cell(x, y));
        }
    }
}

#[test]
fn test_different_seeds_differ() {
    let a = Grid::new_seeded(20, 10, 42);
    let b = Grid::new_seeded(20, 10, 43);
    let mut differing: usize = 0;
    for y in 0..10 {
        for x in 0..20 {
            if a.get_cell(x, y) != b.get_cell(x, y) {
                differing += 1;
            }
        }
    }
    assert!(differing > 0);
}

#[test]
fn test_seeded_not_constant() {
    // A seeded grid actually carries the generator's draws: over a few
    // seeds and a few hundred cells, both live and dead cells must occur.
    let mut lives: usize = 0;
    let mut deads: usize = 0;
    for seed in 0..4u64 {
        let g = Grid::new_seeded(10, 10, seed);
        for y in 0..10 {
            for x in 0..10 {
                if g.get_cell(x, y) {
                    lives += 1;
                } else {
                    deads += 1;
                }
            }
        }
    }
    assert!(lives > 0 && deads > 0);
}

#[test]
fn test_random_dimensions() {
    let game = Grid::new(12, 9);
    assert_eq!(game.width, 12);
    assert_eq!(game.height, 9);
    // Every cell is readable, whatever the entropy source produced.
    for y in 0..9 {
        for x in 0..12 {
            let _ = game.get_cell(x, y);
        }
    }
}

#[test]
fn test_sequential_and_parallel_agree() {
    let mut a = Grid::new_seeded(30, 20, 7);
    let mut b = Grid::new_seeded(30, 20, 7);
    for _ in 0..3 {
        a.propogate(&DefaultRule);
        b.propogate_par(&DefaultRule);
        for y in 0..20 {
            for x in 0..30 {
                assert_eq!(a.get_cell(x, y), b.get_cell(x, y));
            }
        }
    }
}

#[test]
fn test_blinker_oscillates() {
    // A vertical blinker in a 5x5 grid flips to horizontal and back.
    let mut game = Grid::new_empty(5, 5);
    game.set_cell(2, 1, true);
    game.set_cell(2, 2, true);
    game.set_cell(2, 3, true);
    game.propogate(&DefaultRule);
    assert!(game.get_cell(1, 2) && game.get_cell(2, 2) && game.get_cell(3, 2));
    assert!(!game.get_cell(2, 1) && !game.get_cell(2, 3));
    game.propogate(&DefaultRule);
    assert!(game.get_cell(2, 1) && game.get_cell(2, 2) && game.get_cell(2, 3));
    assert!(!game.get_cell(1, 2) && !game.get_cell(3, 2));
}
