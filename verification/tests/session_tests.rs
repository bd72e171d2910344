use geirtris::color::{Cell, Color};
use geirtris::grid::GridError;
use geirtris::scheduler::Phase;
use geirtris::session::{Match, DEFAULT_TICK_PERIOD_MS};

fn red() -> Cell {
    Cell::Filled(Color { r: 255, g: 0, b: 0, a: 255 })
}

fn taken_cells(game: &Match) -> Vec<(usize, usize)> {
    let (width, height, cells) = game.snapshot();
    let mut found: Vec<(usize, usize)> = Vec::new();
    for row in 0..height {
        for col in 0..width {
            if cells[row * width + col] != Cell::Empty {
                found.push((row, col));
            }
        }
    }
    found
}

fn spawn_row_taken(game: &Match) -> bool {
    let row = game.grid().row_slice(game.spawn_row()).unwrap();
    row.iter().any(|c| *c != Cell::Empty)
}

/// Ticks until the active block locks; returns the number of ticks taken.
fn tick_until_lock(game: &mut Match) -> usize {
    let mut ticks: usize = 0;
    while game.is_active() {
        game.tick();
        ticks += 1;
        assert!(ticks <= 1000);
    }
    ticks
}

#[test]
fn begin_match_refuses_a_grid_without_cells() {
    assert!(matches!(Match::begin_match(0, 40, 100), Err(GridError::InvalidDimension)));
    assert!(matches!(Match::begin_match(10, 0, 100), Err(GridError::InvalidDimension)));
    assert!(matches!(Match::begin_match(0, 0, 100), Err(GridError::InvalidDimension)));
    assert!(matches!(Match::begin_match_at(0, 40, 100, 0), Err(GridError::InvalidDimension)));
    assert!(matches!(Match::begin_match_at(10, 0, 100, 0), Err(GridError::InvalidDimension)));
}

#[test]
fn begin_match_refuses_a_grid_too_small_for_the_spawned_block() {
    assert!(matches!(Match::begin_match(6, 40, 100), Err(GridError::OutOfBounds)));
    assert!(matches!(Match::begin_match(4, 40, 100), Err(GridError::OutOfBounds)));
    assert!(matches!(Match::begin_match(10, 1, 100), Err(GridError::OutOfBounds)));
    assert!(Match::begin_match(7, 2, 100).is_ok());
    assert!(Match::begin_match(8, 40, 100).is_ok());
}

#[test]
fn begin_match_at_refuses_a_spawn_row_outside_the_grid() {
    assert!(matches!(Match::begin_match_at(10, 40, 100, 40), Err(GridError::OutOfBounds)));
    assert!(matches!(Match::begin_match_at(10, 40, 100, usize::MAX), Err(GridError::OutOfBounds)));
    assert!(Match::begin_match_at(10, 40, 100, 39).is_ok());
    assert!(Match::begin_match_at(10, 1, 100, 0).is_ok());
}

#[test]
fn a_match_begins_idle_on_an_empty_grid() {
    let game = Match::begin_match(10, 40, DEFAULT_TICK_PERIOD_MS).unwrap();
    assert_eq!(game.phase(), Phase::Idle);
    assert!(!game.is_active());
    assert!(game.active_block().is_none());
    assert_eq!(game.spawn_row(), 19);
    assert_eq!(game.tick_period_ms(), 100);
    let (width, height, cells) = game.snapshot();
    assert_eq!(width, 10);
    assert_eq!(height, 40);
    assert_eq!(cells.len(), 400);
    assert!(cells.iter().all(|c| *c == Cell::Empty));
    assert_eq!(game.grid().width(), 10);
    assert_eq!(game.grid().height(), 40);
}

#[test]
fn the_first_tick_spawns_a_block_and_leaves_the_grid_alone() {
    let mut game = Match::begin_match(10, 40, 100).unwrap();
    assert_eq!(game.tick(), Phase::Falling);
    assert!(game.is_active());
    let block = game.active_block().unwrap();
    assert_eq!(block.col(), 5);
    assert_eq!(block.row(), 19);
    assert_eq!(block.width(), 4);
    assert_eq!(block.height(), 1);
    assert!(taken_cells(&game).is_empty());
}

#[test]
fn a_block_falls_one_row_per_tick_down_to_the_last_row() {
    let mut game = Match::begin_match(10, 40, 100).unwrap();
    game.tick();
    for step in 1..=18usize {
        assert_eq!(game.tick(), Phase::Falling);
        assert_eq!(game.active_block().unwrap().row(), 19 + step);
        let expected: Vec<(usize, usize)> = (5..9usize).map(|col| (19 + step, col)).collect();
        assert_eq!(taken_cells(&game), expected);
    }
    assert_eq!(game.active_block().unwrap().row(), 37);
    assert_eq!(game.tick(), Phase::Falling);
    assert_eq!(game.tick(), Phase::Falling);
    assert_eq!(game.active_block().unwrap().row(), 39);
    assert_eq!(game.tick(), Phase::Idle);
    assert!(!game.is_active());
    assert_eq!(taken_cells(&game), vec![(39, 5), (39, 6), (39, 7), (39, 8)]);
    for col in 5..9usize {
        assert_eq!(game.grid().get(39, col), Ok(red()));
    }
}

#[test]
fn a_lock_leaves_exactly_the_footprint_and_no_active_block() {
    let mut game = Match::begin_match(10, 40, 100).unwrap();
    game.tick();
    let ticks: usize = tick_until_lock(&mut game);
    assert_eq!(ticks, 21);
    assert_eq!(game.phase(), Phase::Idle);
    assert!(game.active_block().is_none());
    assert_eq!(taken_cells(&game), vec![(39, 5), (39, 6), (39, 7), (39, 8)]);
}

#[test]
fn a_new_block_is_spawned_on_the_tick_after_a_lock() {
    let mut game = Match::begin_match(10, 40, 100).unwrap();
    game.tick();
    tick_until_lock(&mut game);
    assert_eq!(game.phase(), Phase::Idle);
    let before: Vec<(usize, usize)> = taken_cells(&game);
    assert_eq!(game.tick(), Phase::Falling);
    assert!(game.is_active());
    assert_eq!(game.active_block().unwrap().row(), 19);
    assert_eq!(game.active_block().unwrap().col(), 5);
    assert_eq!(taken_cells(&game), before);
}

#[test]
fn the_second_block_locks_on_top_of_the_first() {
    let mut game = Match::begin_match(10, 40, 100).unwrap();
    game.tick();
    tick_until_lock(&mut game);
    game.tick();
    let ticks: usize = tick_until_lock(&mut game);
    assert_eq!(ticks, 20);
    let mut expected: Vec<(usize, usize)> = Vec::new();
    for row in 38..40usize {
        for col in 5..9usize {
            expected.push((row, col));
        }
    }
    assert_eq!(taken_cells(&game), expected);
}

#[test]
fn locked_cells_stay_while_later_blocks_fall() {
    let mut game = Match::begin_match(10, 40, 100).unwrap();
    game.tick();
    tick_until_lock(&mut game);
    game.tick();
    while game.is_active() {
        for col in 5..9usize {
            assert_eq!(game.grid().get(39, col), Ok(red()));
        }
        game.tick();
    }
}

#[test]
fn the_match_is_over_exactly_when_the_spawn_row_is_taken() {
    let mut game = Match::begin_match(10, 40, 100).unwrap();
    let mut ticks: usize = 0;
    while game.phase() != Phase::GameOver {
        let phase: Phase = game.tick();
        ticks += 1;
        assert_eq!(phase == Phase::GameOver, spawn_row_taken(&game));
        assert_eq!(phase == Phase::Falling, game.is_active());
        assert!(ticks <= 10000);
    }
    // Blocks lock in rows 39 down to 19: the last one cannot move at all.
    let mut expected: Vec<(usize, usize)> = Vec::new();
    for row in 19..40usize {
        for col in 5..9usize {
            expected.push((row, col));
        }
    }
    assert_eq!(taken_cells(&game), expected);
    assert!(!game.is_active());
    // Block k (k = 0..=20) takes one tick to spawn, 20 - k to fall, one to lock.
    let mut total: usize = 0;
    for k in 0..21usize {
        total += 1 + (20 - k) + 1;
    }
    assert_eq!(ticks, total);
}

#[test]
fn a_match_that_is_over_ignores_ticks() {
    let mut game = Match::begin_match(8, 4, 100).unwrap();
    let mut ticks: usize = 0;
    while game.tick() != Phase::GameOver {
        ticks += 1;
        assert!(ticks <= 100);
    }
    let (_, _, cells) = game.snapshot();
    let before: Vec<Cell> = cells.to_vec();
    for _ in 0..5 {
        assert_eq!(game.tick(), Phase::GameOver);
        assert!(!game.is_active());
    }
    let (_, _, after) = game.snapshot();
    assert_eq!(after, &before[..]);
}

#[test]
fn the_signal_is_raised_once() {
    let mut game = Match::begin_match(8, 4, 100).unwrap();
    assert!(!game.game_over_signal());
    let mut ticks: usize = 0;
    while game.tick() != Phase::GameOver {
        assert!(!game.game_over_signal());
        ticks += 1;
        assert!(ticks <= 100);
    }
    assert!(game.game_over_signal());
    assert!(!game.game_over_signal());
    game.tick();
    assert!(!game.game_over_signal());
    assert_eq!(game.phase(), Phase::GameOver);
}

#[test]
fn the_spawn_row_can_be_the_top_row() {
    let mut game = Match::begin_match_at(10, 40, 250, 0).unwrap();
    assert_eq!(game.spawn_row(), 0);
    assert_eq!(game.tick_period_ms(), 250);
    game.tick();
    assert_eq!(game.active_block().unwrap().row(), 0);
    let ticks: usize = tick_until_lock(&mut game);
    assert_eq!(ticks, 40);
    assert_eq!(taken_cells(&game), vec![(39, 5), (39, 6), (39, 7), (39, 8)]);
}

#[test]
fn a_block_that_spawns_on_the_last_row_ends_the_match_at_once() {
    let mut game = Match::begin_match_at(10, 40, 100, 39).unwrap();
    assert_eq!(game.tick(), Phase::Falling);
    assert_eq!(game.tick(), Phase::GameOver);
    assert!(!game.is_active());
    assert_eq!(taken_cells(&game), vec![(39, 5), (39, 6), (39, 7), (39, 8)]);
    assert!(game.game_over_signal());
}

#[test]
fn a_match_can_be_ended_at_any_time() {
    let mut game = Match::begin_match(10, 40, 100).unwrap();
    game.tick();
    game.tick();
    game.end_match();
    let fresh = Match::begin_match(10, 40, 100).unwrap();
    assert_eq!(fresh.phase(), Phase::Idle);
    fresh.end_match();
}
