//! The fall scheduler: what one tick does to the active block and the grid,
//! and when the match is over.
//!
//! A block only ever falls straight down. Moving it sideways, dropping it
//! and pausing are not part of the scheduler.

use crate::block::{Block, BlockView};
use crate::color::Cell;
use crate::grid::{Grid, GridView};
use crate::placement::{clear, commit, overlaps};
use vstd::prelude::*;

verus! {

/// Where the scheduler stands between two ticks.
#[derive(Clone, Copy, Debug, PartialEq, Eq, Structural)]
pub enum Phase {
    /// No block is active; the next tick spawns one.
    Idle,
    /// A block is active and falls one row per tick.
    Falling,
    /// The spawn row is taken. Nothing moves any more.
    GameOver,
}

/// Whether the block that a spawn produces fills only cells of a grid of the
/// given size.
pub open spec fn spawn_fits(width: nat, height: nat, spawn_row: nat) -> bool {
    spawn_row < height && width / 2 + 4 <= width
}

/// `spawn_fits` says of the spawned block what `fits` says of any block.
pub proof fn lemma_spawn_fits(width: nat, height: nat, spawn_row: nat)
    ensures
        spawn_fits(width, height, spawn_row) <==> BlockView::spawned(width, spawn_row).fits(
            width,
            height,
        ),
{
    let b = BlockView::spawned(width, spawn_row);
    assert forall|row: int, col: int|
        b.covers(row, col) <==> (row == spawn_row && width / 2 <= col < width / 2 + 4) by {
        BlockView::lemma_spawned_covers(width, spawn_row, row, col);
    }
    if b.fits(width, height) {
        assert(b.covers(spawn_row as int, (width / 2 + 3) as int));
    }
}

impl BlockView {
    /// Whether the block cannot move down one row: seen without the block's
    /// own cells, the grid has no room for it there.
    pub open spec fn blocked_below(self, grid: GridView) -> bool {
        self.moved_down().overlaps(grid.stamped(self, Cell::Empty))
    }

    /// The block after one fall step: where it was if it is blocked, one row
    /// further down if it is not.
    pub open spec fn after_fall(self, grid: GridView) -> BlockView {
        if self.blocked_below(grid) {
            self
        } else {
            self.moved_down()
        }
    }
}

impl GridView {
    /// The grid after the block's fall step: the block's old cells emptied,
    /// and its colour written where it comes to stand.
    pub open spec fn after_fall(self, block: BlockView) -> GridView {
        self.stamped(block, Cell::Empty).stamped(
            block.after_fall(self),
            Cell::Filled(block.color),
        )
    }
}

/// Whether the match is over: the spawn row is a row of the grid and one of
/// its cells is not empty.
pub fn is_over(grid: &Grid, spawn_row: usize) -> (over: bool)
    requires
        grid.wf(),
    ensures
        over == (spawn_row < grid@.height && grid@.row_occupied(spawn_row as int)),
{
    match grid.row_slice(spawn_row) {
        Ok(cells) => {
            proof {
                grid@.lemma_row_cells(spawn_row as int);
            }
            let n: usize = cells.len();
            for col in 0..n
                invariant
                    n == grid@.width,
                    n == cells@.len(),
                    spawn_row < grid@.height,
                    forall|c: int|
                        0 <= c < grid@.width ==> cells@[c] == #[trigger] grid@.at(
                            spawn_row as int,
                            c,
                        ),
                    forall|c: int|
                        0 <= c < col ==> #[trigger] grid@.at(spawn_row as int, c) == Cell::Empty,
            {
                assert(cells@[col as int] == grid@.at(spawn_row as int, col as int));
                if !cells[col].is_empty() {
                    return true;
                }
            }
            false
        },
        Err(_) => false,
    }
}

/// One fall step of the active block: its cells leave the grid, it moves
/// down one row unless it would collide there, and its cells enter the grid
/// where it then stands. Returns whether the block was blocked, which is
/// when it locks.
pub fn fall(block: &mut Block, grid: &mut Grid) -> (locked: bool)
    requires
        old(block).wf(),
        old(grid).wf(),
        old(block)@.fits(old(grid)@.width, old(grid)@.height),
    ensures
        final(block).wf(),
        final(grid).wf(),
        locked == old(block)@.blocked_below(old(grid)@),
        final(block)@ == old(block)@.after_fall(old(grid)@),
        final(grid)@ == old(grid)@.after_fall(old(block)@),
        final(block)@.fits(final(grid)@.width, final(grid)@.height),
{
    let ghost b = block@;
    let ghost g = grid@;
    clear(block, grid);
    let row: usize = block.row();
    let locked = match row.checked_add(1) {
        Some(next) => {
            block.set_row(next);
            assert forall|grid_row: int, grid_col: int| #[trigger]
                block@.covers(grid_row, grid_col) && block@.row + block@.height
                    <= g.height implies 0 <= grid_row < g.height && 0 <= grid_col < g.width by {
                assert(b.covers(grid_row - 1, grid_col));
            }
            let hit = overlaps(block, grid);
            if hit {
                block.set_row(row);
            }
            hit
        },
        None => true,
    };
    commit(block, grid);
    locked
}

/// The mathematical match: the grid, the active block if there is one, and
/// the scheduler's bookkeeping.
pub struct MatchView {
    pub grid: GridView,
    pub block: Option<BlockView>,
    pub phase: Phase,
    /// The row in which blocks appear and which decides when the match is over.
    pub spawn_row: nat,
    /// The time between two ticks, in milliseconds.
    pub tick_period_ms: nat,
    /// Whether the end of the match was detected and the host has not been told yet.
    pub signal: bool,
}

impl MatchView {
    /// A match that has just begun: an empty grid and no block.
    pub open spec fn begun(
        width: nat,
        height: nat,
        tick_period_ms: nat,
        spawn_row: nat,
    ) -> MatchView {
        MatchView {
            grid: GridView::empty(width, height),
            block: None,
            phase: Phase::Idle,
            spawn_row,
            tick_period_ms,
            signal: false,
        }
    }

    /// Whether the grid holds exactly what the active block should have left
    /// in it: nothing while the block still stands in the spawn row, where it
    /// has not been written yet, and its colour in every cell it fills once
    /// it has moved.
    pub open spec fn reflects(self, b: BlockView) -> bool {
        forall|row: int, col: int| #[trigger]
            b.covers(row, col) ==> self.grid.at(row, col) == if b.row == self.spawn_row {
                Cell::Empty
            } else {
                Cell::Filled(b.color)
            }
    }

    /// What holds of a match between any two ticks.
    pub open spec fn wf(self) -> bool {
        &&& self.grid.wf()
        &&& spawn_fits(self.grid.width, self.grid.height, self.spawn_row)
        &&& (self.phase is Falling) == (self.block is Some)
        &&& (self.phase is GameOver) == self.grid.row_occupied(self.spawn_row as int)
        &&& self.signal ==> self.phase is GameOver
        &&& self.block matches Some(b) ==> {
            &&& b.wf()
            &&& b.fits(self.grid.width, self.grid.height)
            &&& self.spawn_row <= b.row
            &&& b.row + b.height <= self.grid.height
            &&& self.reflects(b)
        }
    }

    /// The grid after the scheduler's step: unchanged by a spawn, and after
    /// the fall step of the active block otherwise.
    pub open spec fn stepped_grid(self) -> GridView {
        match self.block {
            Some(b) => self.grid.after_fall(b),
            None => self.grid,
        }
    }

    /// The active block after the scheduler's step: a freshly spawned one if
    /// there was none, none if the block locked, the moved block otherwise.
    pub open spec fn stepped_block(self) -> Option<BlockView> {
        match self.block {
            Some(b) => if b.blocked_below(self.grid) {
                None
            } else {
                Some(b.moved_down())
            },
            None => Some(BlockView::spawned(self.grid.width, self.spawn_row)),
        }
    }

    /// The match after one tick. A match that is over stays as it is.
    /// Otherwise the scheduler's step is taken, and then the spawn row
    /// decides: if it holds a cell that is not empty the match is over and
    /// the signal is raised.
    pub open spec fn tick(self) -> MatchView {
        if self.phase is GameOver {
            self
        } else {
            let grid = self.stepped_grid();
            let block = self.stepped_block();
            let over = grid.row_occupied(self.spawn_row as int);
            MatchView {
                grid,
                block,
                phase: if over {
                    Phase::GameOver
                } else if block is Some {
                    Phase::Falling
                } else {
                    Phase::Idle
                },
                spawn_row: self.spawn_row,
                tick_period_ms: self.tick_period_ms,
                signal: over,
            }
        }
    }

    /// A match that has just begun is well formed, if the spawned block has
    /// room in the grid.
    pub proof fn lemma_begun_wf(width: nat, height: nat, tick_period_ms: nat, spawn_row: nat)
        requires
            width > 0,
            height > 0,
            spawn_fits(width, height, spawn_row),
        ensures
            MatchView::begun(width, height, tick_period_ms, spawn_row).wf(),
    {
        let m = MatchView::begun(width, height, tick_period_ms, spawn_row);
        assert forall|col: int| 0 <= col < width implies m.grid.at(spawn_row as int, col)
            == Cell::Empty by {
            m.grid.lemma_index_in_range(spawn_row as int, col);
        }
    }

    /// A tick takes a well-formed match to a well-formed match.
    pub proof fn lemma_tick_wf(self)
        requires
            self.wf(),
        ensures
            self.tick().wf(),
    {
        let next = self.tick();
        let g = self.grid;
        let spawn_row: int = self.spawn_row as int;
        if self.phase is GameOver {
        } else {
            match self.block {
                None => {
                    let b = BlockView::spawned(g.width, self.spawn_row);
                    lemma_spawn_fits(g.width, g.height, self.spawn_row);
                    assert forall|row: int, col: int| #[trigger] b.covers(row, col) implies g.at(
                        row,
                        col,
                    ) == Cell::Empty by {
                        BlockView::lemma_spawned_covers(g.width, self.spawn_row, row, col);
                    }
                },
                Some(b) => {
                    let cleared = g.stamped(b, Cell::Empty);
                    let moved = b.moved_down();
                    let painted = Cell::Filled(b.color);
                    if b.blocked_below(g) {
                    } else {
                        assert forall|row: int, col: int| #[trigger]
                            moved.covers(row, col) implies 0 <= row < g.height && 0 <= col
                            < g.width && next.grid.at(row, col) == painted by {
                            assert(b.covers(row - 1, col));
                            cleared.lemma_stamped_at(moved, painted, row, col);
                        }
                        assert forall|col: int| 0 <= col < g.width implies next.grid.at(
                            spawn_row,
                            col,
                        ) == Cell::Empty by {
                            g.lemma_stamped_at(b, Cell::Empty, spawn_row, col);
                            cleared.lemma_stamped_at(moved, painted, spawn_row, col);
                        }
                    }
                },
            }
        }
    }

    /// When the active block locks, its colour stands in exactly the cells
    /// it fills where it stood before the tick, every other cell is as it
    /// was, and no block is active any more. A block that had moved before
    /// was already in the grid, so its lock leaves the grid as it is.
    pub proof fn lemma_lock(self, b: BlockView, row: int, col: int)
        requires
            self.wf(),
            self.block == Some(b),
            b.blocked_below(self.grid),
            self.grid.contains(row, col),
        ensures
            self.tick().block is None,
            !(self.tick().phase is Falling),
            self.tick().grid == self.grid.stamped(b, Cell::Filled(b.color)),
            self.tick().grid.at(row, col) == if b.covers(row, col) {
                Cell::Filled(b.color)
            } else {
                self.grid.at(row, col)
            },
            self.spawn_row < b.row ==> self.tick().grid == self.grid,
    {
        let g = self.grid;
        let painted = Cell::Filled(b.color);
        assert(g.stamped(b, Cell::Empty).stamped(b, painted).cells =~= g.stamped(
            b,
            painted,
        ).cells);
        g.lemma_stamped_at(b, painted, row, col);
        if self.spawn_row < b.row {
            assert forall|i: int| 0 <= i < g.cells.len() implies g.stamped(b, painted).cells[i]
                == g.cells[i] by {
                g.lemma_coords_of_index(i);
            }
            assert(g.stamped(b, painted).cells =~= g.cells);
        }
    }

    /// After a tick the match is over exactly when the spawn row holds a
    /// cell that is not empty.
    pub proof fn lemma_game_over_iff(self)
        requires
            self.wf(),
        ensures
            (self.tick().phase is GameOver) == self.tick().grid.row_occupied(
                self.spawn_row as int,
            ),
    {
    }

    /// A tick never changes a taken cell that the active block does not fill:
    /// what has locked stays.
    pub proof fn lemma_locked_cells_stay(self, row: int, col: int)
        requires
            self.wf(),
            self.grid.contains(row, col),
            self.grid.at(row, col) != Cell::Empty,
            self.block matches Some(b) ==> !b.covers(row, col),
        ensures
            self.tick().grid.at(row, col) == self.grid.at(row, col),
    {
        let g = self.grid;
        if !(self.phase is GameOver) {
            if let Some(b) = self.block {
                let cleared = g.stamped(b, Cell::Empty);
                let landed = b.after_fall(g);
                g.lemma_stamped_at(b, Cell::Empty, row, col);
                cleared.lemma_stamped_at(landed, Cell::Filled(b.color), row, col);
            }
        }
    }

    /// The signal is raised by the tick that ends the match and by no other.
    pub proof fn lemma_signal_once(self)
        requires
            self.wf(),
        ensures
            self.phase is GameOver ==> self.tick() == self,
            !(self.phase is GameOver) ==> (self.tick().signal == (self.tick().phase is GameOver)),
    {
    }
}

} // verus!
