use geirtris::block::Block;
use geirtris::color::{Cell, Color};
use geirtris::grid::Grid;
use geirtris::placement::{clear, commit, overlaps};

fn green() -> Color {
    Color { r: 0, g: 255, b: 0, a: 255 }
}

fn grey() -> Cell {
    Cell::Filled(Color { r: 128, g: 128, b: 128, a: 255 })
}

/// An L: the left column of three rows, and the bottom row's second cell.
fn ell_at(col: usize, row: usize) -> Block {
    let shape: Vec<bool> = vec![true, false, true, false, true, true];
    Block::new(2, 3, shape, col, row, green()).unwrap()
}

fn taken(grid: &Grid) -> Vec<(usize, usize)> {
    let mut found: Vec<(usize, usize)> = Vec::new();
    for row in 0..grid.height() {
        for col in 0..grid.width() {
            if grid.get(row, col).unwrap() != Cell::Empty {
                found.push((row, col));
            }
        }
    }
    found
}

#[test]
fn commit_writes_the_colour_under_the_filled_cells_only() {
    let mut grid = Grid::create(5, 6).unwrap();
    let block = ell_at(2, 1);
    commit(&block, &mut grid);
    assert_eq!(taken(&grid), vec![(1, 2), (2, 2), (3, 2), (3, 3)]);
    for (row, col) in taken(&grid) {
        assert_eq!(grid.get(row, col), Ok(Cell::Filled(green())));
    }
}

#[test]
fn commit_overwrites_what_was_there() {
    let mut grid = Grid::create(5, 6).unwrap();
    grid.set(2, 2, grey()).unwrap();
    grid.set(2, 3, grey()).unwrap();
    commit(&ell_at(2, 1), &mut grid);
    assert_eq!(grid.get(2, 2), Ok(Cell::Filled(green())));
    assert_eq!(grid.get(2, 3), Ok(grey()));
}

#[test]
fn commit_twice_is_commit_once() {
    let mut once = Grid::create(5, 6).unwrap();
    let mut twice = Grid::create(5, 6).unwrap();
    once.set(0, 0, grey()).unwrap();
    twice.set(0, 0, grey()).unwrap();
    let block = ell_at(2, 1);
    commit(&block, &mut once);
    commit(&block, &mut twice);
    commit(&block, &mut twice);
    assert_eq!(once.cells(), twice.cells());
}

#[test]
fn clear_empties_the_filled_cells_only() {
    let mut grid = Grid::create(5, 6).unwrap();
    for row in 0..6usize {
        for col in 0..5usize {
            grid.set(row, col, grey()).unwrap();
        }
    }
    clear(&ell_at(2, 1), &mut grid);
    for row in 0..6usize {
        for col in 0..5usize {
            let under = (col == 2 && (1..=3).contains(&row)) || (row == 3 && col == 3);
            let expected = if under { Cell::Empty } else { grey() };
            assert_eq!(grid.get(row, col), Ok(expected));
        }
    }
}

#[test]
fn commit_then_clear_restores_the_grid() {
    let mut grid = Grid::create(5, 6).unwrap();
    grid.set(0, 0, grey()).unwrap();
    grid.set(2, 3, grey()).unwrap();
    grid.set(5, 4, grey()).unwrap();
    let before: Vec<Cell> = grid.cells().to_vec();
    let block = ell_at(2, 1);
    commit(&block, &mut grid);
    assert_ne!(grid.cells(), &before[..]);
    clear(&block, &mut grid);
    assert_eq!(grid.cells(), &before[..]);
}

#[test]
fn commit_then_clear_loses_a_cell_that_was_taken_under_the_block() {
    let mut grid = Grid::create(5, 6).unwrap();
    grid.set(2, 2, grey()).unwrap();
    let before: Vec<Cell> = grid.cells().to_vec();
    let block = ell_at(2, 1);
    commit(&block, &mut grid);
    clear(&block, &mut grid);
    assert_ne!(grid.cells(), &before[..]);
    assert_eq!(grid.get(2, 2), Ok(Cell::Empty));
}

#[test]
fn a_block_does_not_collide_with_itself_once_cleared() {
    let mut grid = Grid::create(5, 6).unwrap();
    grid.set(5, 0, grey()).unwrap();
    let block = ell_at(2, 1);
    commit(&block, &mut grid);
    assert!(overlaps(&block, &grid));
    clear(&block, &mut grid);
    assert!(!overlaps(&block, &grid));
}

#[test]
fn a_block_below_the_floor_collides_whatever_its_mask() {
    let grid = Grid::create(5, 6).unwrap();
    assert!(overlaps(&ell_at(0, 4), &grid));
    assert!(!overlaps(&ell_at(0, 3), &grid));
    let hollow = Block::new(2, 3, vec![false; 6], 0, 4, green()).unwrap();
    assert!(overlaps(&hollow, &grid));
    let far = Block::new(1, 1, vec![false; 1], 0, usize::MAX, green()).unwrap();
    assert!(overlaps(&far, &grid));
    let tall = Block::new(1, 7, vec![false; 7], 0, 0, green()).unwrap();
    assert!(overlaps(&tall, &grid));
}

#[test]
fn a_block_collides_with_a_taken_cell_under_a_filled_cell() {
    let mut grid = Grid::create(5, 6).unwrap();
    grid.set(3, 3, grey()).unwrap();
    assert!(overlaps(&ell_at(2, 1), &grid));
    assert!(!overlaps(&ell_at(2, 2), &grid));
    assert!(!overlaps(&ell_at(0, 1), &grid));
}

#[test]
fn a_taken_cell_under_a_hole_of_the_mask_is_no_collision() {
    let mut grid = Grid::create(5, 6).unwrap();
    grid.set(1, 3, grey()).unwrap();
    grid.set(2, 3, grey()).unwrap();
    assert!(!overlaps(&ell_at(2, 1), &grid));
}

#[test]
fn a_block_on_the_last_row_does_not_collide() {
    let grid = Grid::create(10, 40).unwrap();
    let flat = Block::new(4, 1, vec![true; 4], 5, 39, green()).unwrap();
    assert!(!overlaps(&flat, &grid));
    let lower = Block::new(4, 1, vec![true; 4], 5, 40, green()).unwrap();
    assert!(overlaps(&lower, &grid));
}
