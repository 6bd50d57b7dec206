//! Behavioural tests of the evolution kernel.

use life_automata::engine::{count_alive_neighbors, evolve, run_vec_step, vec_lives};

#[test]
fn stasis_empty_grid() {
    for (rows, cols) in [(1usize, 1usize), (1, 7), (4, 5), (6, 6)] {
        let grid = vec![0u8; rows * cols];
        let next = evolve(&grid, rows, cols);
        assert_eq!(next, vec![0u8; rows * cols]);
    }
}

#[test]
fn block_still_life() {
    let grid: Vec<u8> = vec![
        0, 0, 0, 0,
        0, 1, 1, 0,
        0, 1, 1, 0,
        0, 0, 0, 0,
    ];
    let next = evolve(&grid, 4, 4);
    assert_eq!(next, grid);
    let again = evolve(&next, 4, 4);
    assert_eq!(again, grid);
}

#[test]
fn blinker_oscillates() {
    let horizontal: Vec<u8> = vec![
        0, 0, 0, 0, 0,
        0, 0, 0, 0, 0,
        0, 1, 1, 1, 0,
        0, 0, 0, 0, 0,
        0, 0, 0, 0, 0,
    ];
    let vertical: Vec<u8> = vec![
        0, 0, 0, 0, 0,
        0, 0, 1, 0, 0,
        0, 0, 1, 0, 0,
        0, 0, 1, 0, 0,
        0, 0, 0, 0, 0,
    ];
    let tick1 = evolve(&horizontal, 5, 5);
    assert_eq!(tick1, vertical);
    let tick2 = evolve(&tick1, 5, 5);
    assert_eq!(tick2, horizontal);
}

#[test]
fn corner_cell_dies() {
    for (rows, cols) in [(1usize, 1usize), (2, 2), (3, 3), (4, 6)] {
        let mut grid = vec![0u8; rows * cols];
        grid[0] = 1;
        let next = evolve(&grid, rows, cols);
        assert_eq!(next, vec![0u8; rows * cols]);
    }
}

#[test]
fn corner_counts_three_positions() {
    // With every cell alive, the corner still sees only its 3 in-grid
    // neighbour positions, while the centre sees all 8.
    let grid = vec![1u8; 9];
    assert_eq!(count_alive_neighbors(&grid, 3, 3, 0, 0), 3);
    assert_eq!(count_alive_neighbors(&grid, 3, 3, 1, 1), 8);
}

#[test]
fn vec_lives_applies_rule() {
    let grid: Vec<u8> = vec![
        1, 1, 0,
        1, 0, 0,
        0, 0, 1,
    ];
    // (0,0) is alive with 2 live neighbours: survives.
    assert_eq!(vec_lives(&grid, 3, 3, 0), 1);
    // (1,1) is dead with 4 live neighbours: stays dead.
    assert_eq!(vec_lives(&grid, 3, 3, 4), 0);
    // (2,2) is alive with 0 live neighbours: dies.
    assert_eq!(vec_lives(&grid, 3, 3, 8), 0);
    // (1,2) is dead with 2 live neighbours: stays dead.
    assert_eq!(vec_lives(&grid, 3, 3, 5), 0);
}

#[test]
fn parallel_matches_sequential() {
    // A glider plus scattered noise; several ticks must agree bitwise.
    let mut grid = vec![0u8; 8 * 7];
    for idx in [1usize, 9, 15, 16, 17, 30, 31, 38, 45, 46, 52, 53] {
        grid[idx] = 1;
    }
    let mut seq_grid = grid.clone();
    let mut par_grid = grid;
    for _ in 0..6 {
        seq_grid = evolve(&seq_grid, 8, 7);
        par_grid = run_vec_step(&par_grid, 8, 7);
        assert_eq!(seq_grid, par_grid);
    }
}

#[test]
fn parallel_step_changes_grid() {
    // The parallel tick must really evolve the grid, not hand it back.
    let horizontal: Vec<u8> = vec![
        0, 0, 0, 0, 0,
        0, 0, 0, 0, 0,
        0, 1, 1, 1, 0,
        0, 0, 0, 0, 0,
        0, 0, 0, 0, 0,
    ];
    let tick1 = run_vec_step(&horizontal, 5, 5);
    assert_ne!(tick1, horizontal);
    let tick2 = run_vec_step(&tick1, 5, 5);
    assert_eq!(tick2, horizontal);
}

#[test]
fn dimension_invariant() {
    for (rows, cols) in [(1usize, 1usize), (1, 9), (9, 1), (3, 5), (7, 2)] {
        let mut grid = vec![0u8; rows * cols];
        for (idx, cell) in grid.iter_mut().enumerate() {
            if idx % 3 == 0 {
                *cell = 1;
            }
        }
        let next = evolve(&grid, rows, cols);
        assert_eq!(next.len(), rows * cols);
        let par = run_vec_step(&grid, rows, cols);
        assert_eq!(par.len(), rows * cols);
    }
}
