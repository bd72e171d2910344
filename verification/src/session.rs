//! A match: one grid, at most one active block, and the scheduler state,
//! driven by a host that calls `tick` once per period.

use crate::block::Block;
use crate::color::Cell;
use crate::grid::{Grid, GridError};
use crate::scheduler::{fall, is_over, spawn_fits, MatchView, Phase};
use vstd::prelude::*;

verus! {

/// The time between two ticks that a host uses when it has no other wish,
/// in milliseconds.
pub const DEFAULT_TICK_PERIOD_MS: u64 = 100;

/// One match, from `begin_match` to `end_match`.
#[derive(Debug)]
pub struct Match {
    grid: Grid,
    block: Option<Block>,
    phase: Phase,
    spawn_row: usize,
    tick_period_ms: u64,
    signal: bool,
}

impl View for Match {
    type V = MatchView;

    closed spec fn view(&self) -> MatchView {
        MatchView {
            grid: self.grid@,
            block: match self.block {
                Some(b) => Some(b@),
                None => None,
            },
            phase: self.phase,
            spawn_row: self.spawn_row as nat,
            tick_period_ms: self.tick_period_ms as nat,
            signal: self.signal,
        }
    }
}

impl Match {
    /// The invariant of every match: its model is well formed and the
    /// dimensions of its grid are machine integers.
    pub open spec fn wf(&self) -> bool {
        &&& self@.wf()
        &&& self@.grid.width <= usize::MAX
        &&& self@.grid.height <= usize::MAX
    }

    /// Begins a match on an empty grid, with blocks entering at `spawn_row`.
    /// A grid without cells is refused, and so is one in which the spawned
    /// block would not lie.
    pub fn begin_match_at(
        width: usize,
        height: usize,
        tick_period_ms: u64,
        spawn_row: usize,
    ) -> (res: Result<Match, GridError>)
        requires
            width * height <= usize::MAX,
        ensures
            (width == 0 || height == 0) ==> res == Err::<Match, GridError>(
                GridError::InvalidDimension,
            ),
            (width > 0 && height > 0 && !spawn_fits(width as nat, height as nat, spawn_row as nat))
                ==> res == Err::<Match, GridError>(GridError::OutOfBounds),
            (width > 0 && height > 0 && spawn_fits(width as nat, height as nat, spawn_row as nat))
                ==> (res matches Ok(m) && m.wf() && m@ == MatchView::begun(
                width as nat,
                height as nat,
                tick_period_ms as nat,
                spawn_row as nat,
            )),
    {
        match Grid::create(width, height) {
            Err(e) => Err(e),
            Ok(grid) => {
                if spawn_row >= height || width - width / 2 < 4 {
                    return Err(GridError::OutOfBounds);
                }
                proof {
                    MatchView::lemma_begun_wf(
                        width as nat,
                        height as nat,
                        tick_period_ms as nat,
                        spawn_row as nat,
                    );
                }
                Ok(
                    Match {
                        grid,
                        block: None,
                        phase: Phase::Idle,
                        spawn_row,
                        tick_period_ms,
                        signal: false,
                    },
                )
            },
        }
    }

    /// Begins a match on an empty grid, with blocks entering at the row just
    /// above the vertical middle. A grid of a single row has no such row.
    pub fn begin_match(width: usize, height: usize, tick_period_ms: u64) -> (res: Result<
        Match,
        GridError,
    >)
        requires
            width * height <= usize::MAX,
        ensures
            (width == 0 || height == 0) ==> res == Err::<Match, GridError>(
                GridError::InvalidDimension,
            ),
            (width > 0 && height > 0 && (height < 2 || !spawn_fits(
                width as nat,
                height as nat,
                (height / 2 - 1) as nat,
            ))) ==> res == Err::<Match, GridError>(GridError::OutOfBounds),
            (width > 0 && height >= 2 && spawn_fits(
                width as nat,
                height as nat,
                (height / 2 - 1) as nat,
            )) ==> (res matches Ok(m) && m.wf() && m@ == MatchView::begun(
                width as nat,
                height as nat,
                tick_period_ms as nat,
                (height / 2 - 1) as nat,
            )),
    {
        if width == 0 || height == 0 {
            Err(GridError::InvalidDimension)
        } else if height < 2 {
            Err(GridError::OutOfBounds)
        } else {
            Match::begin_match_at(width, height, tick_period_ms, height / 2 - 1)
        }
    }

    /// One tick of the scheduler. Returns the phase the match is in afterwards.
    pub fn tick(&mut self) -> (phase: Phase)
        requires
            old(self).wf(),
        ensures
            final(self).wf(),
            final(self)@ == old(self)@.tick(),
            phase == final(self)@.phase,
    {
        proof {
            self@.lemma_tick_wf();
        }
        if self.phase == Phase::GameOver {
            return Phase::GameOver;
        }
        match self.block.take() {
            Some(mut block) => {
                let locked = fall(&mut block, &mut self.grid);
                if !locked {
                    self.block = Some(block);
                }
            },
            None => {
                self.block = Some(Block::spawn_at(self.grid.width(), self.spawn_row));
            },
        }
        if is_over(&self.grid, self.spawn_row) {
            self.phase = Phase::GameOver;
            self.signal = true;
        } else if self.block.is_some() {
            self.phase = Phase::Falling;
        } else {
            self.phase = Phase::Idle;
        }
        self.phase
    }

    /// Whether a block is active.
    pub fn is_active(&self) -> (active: bool)
        ensures
            active == (self@.block is Some),
    {
        self.block.is_some()
    }

    /// The phase the match is in.
    pub fn phase(&self) -> (phase: Phase)
        ensures
            phase == self@.phase,
    {
        self.phase
    }

    /// The active block, if there is one.
    pub fn active_block(&self) -> (block: Option<&Block>)
        ensures
            match block {
                Some(b) => self@.block == Some(b@),
                None => self@.block is None,
            },
    {
        self.block.as_ref()
    }

    /// The grid as it stands.
    pub fn grid(&self) -> (grid: &Grid)
        ensures
            grid@ == self@.grid,
    {
        &self.grid
    }

    /// The row in which blocks appear.
    pub fn spawn_row(&self) -> (row: usize)
        ensures
            row == self@.spawn_row,
    {
        self.spawn_row
    }

    /// The time between two ticks, in milliseconds.
    pub fn tick_period_ms(&self) -> (period: u64)
        ensures
            period == self@.tick_period_ms,
    {
        self.tick_period_ms
    }

    /// What a renderer needs: the width, the height, and every cell, row
    /// after row.
    pub fn snapshot(&self) -> (snap: (usize, usize, &[Cell]))
        ensures
            snap.0 == self@.grid.width,
            snap.1 == self@.grid.height,
            snap.2@ == self@.grid.cells,
            self.wf() ==> snap.2@.len() == snap.0 * snap.1,
    {
        (self.grid.width(), self.grid.height(), self.grid.cells())
    }

    /// Reports the end of the match, once: true on the first call after the
    /// tick that ended the match, false on every other call.
    pub fn game_over_signal(&mut self) -> (raised: bool)
        requires
            old(self).wf(),
        ensures
            final(self).wf(),
            raised == old(self)@.signal,
            final(self)@ == (MatchView {
                grid: old(self)@.grid,
                block: old(self)@.block,
                phase: old(self)@.phase,
                spawn_row: old(self)@.spawn_row,
                tick_period_ms: old(self)@.tick_period_ms,
                signal: false,
            }),
    {
        let raised = self.signal;
        self.signal = false;
        raised
    }

    /// Ends the match. The grid and the block are given up with it.
    pub fn end_match(self) {
    }
}

} // verus!
