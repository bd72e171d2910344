//! Collision and placement: testing a block against the grid, and writing
//! its cells into the grid or taking them out again.

use crate::block::{Block, BlockView};
use crate::color::Cell;
use crate::grid::{Grid, GridView};
use vstd::prelude::*;

verus! {

impl GridView {
    /// Whether the buffer index `i` belongs to a position that the block fills.
    pub open spec fn covered(self, block: BlockView, i: int) -> bool {
        block.covers(i / (self.width as int), i % (self.width as int))
    }

    /// The grid with `value` written to every cell that the block fills.
    pub open spec fn stamped(self, block: BlockView, value: Cell) -> GridView {
        GridView {
            width: self.width,
            height: self.height,
            cells: Seq::new(
                self.cells.len(),
                |i: int|
                    if self.covered(block, i) {
                        value
                    } else {
                        self.cells[i]
                    },
            ),
        }
    }

    /// The grid in which only the part of the mask before column `x`, and
    /// before row `y` of column `x`, has been written.
    spec fn stamped_upto(self, block: BlockView, value: Cell, x: int, y: int) -> GridView {
        GridView {
            width: self.width,
            height: self.height,
            cells: Seq::new(
                self.cells.len(),
                |i: int|
                    if self.covered(block, i) && before(
                        i / (self.width as int) - block.row,
                        i % (self.width as int) - block.col,
                        x,
                        y,
                    ) {
                        value
                    } else {
                        self.cells[i]
                    },
            ),
        }
    }

    /// Cell by cell, a stamped grid holds `value` where the block fills a
    /// position and the old cell elsewhere.
    pub proof fn lemma_stamped_at(self, block: BlockView, value: Cell, row: int, col: int)
        requires
            self.wf(),
            self.contains(row, col),
        ensures
            self.stamped(block, value).wf(),
            self.stamped(block, value).at(row, col) == if block.covers(row, col) {
                value
            } else {
                self.at(row, col)
            },
    {
        self.lemma_index_in_range(row, col);
        self.lemma_index_coords(row, col);
    }
}

/// Whether mask position `(r, c)` comes before `(y, x)` when the mask is
/// walked column by column, each column from the top.
spec fn before(r: int, c: int, x: int, y: int) -> bool {
    c < x || (c == x && r < y)
}

impl BlockView {
    /// Whether some cell of the grid that the block fills is not empty.
    pub open spec fn occupied_under(self, grid: GridView) -> bool {
        exists|row: int, col: int|
            grid.contains(row, col) && #[trigger] self.covers(row, col) && grid.at(row, col)
                != Cell::Empty
    }

    /// Whether the block cannot stand where it is: its bounding box reaches
    /// below the last row, or it fills a position whose cell is taken.
    pub open spec fn overlaps(self, grid: GridView) -> bool {
        self.row + self.height > grid.height || self.occupied_under(grid)
    }
}

/// Writing a block's colour and then emptying the same cells gives the grid
/// back exactly when every cell under the block was empty to begin with.
pub proof fn lemma_commit_then_clear(grid: GridView, block: BlockView)
    requires
        grid.wf(),
    ensures
        grid.stamped(block, Cell::Filled(block.color)).stamped(block, Cell::Empty) == grid
            <==> !block.occupied_under(grid),
{
    let back = grid.stamped(block, Cell::Filled(block.color)).stamped(block, Cell::Empty);
    if !block.occupied_under(grid) {
        assert forall|i: int| 0 <= i < grid.cells.len() implies back.cells[i] == grid.cells[i] by {
            grid.lemma_coords_of_index(i);
        }
        assert(back.cells =~= grid.cells);
    } else {
        let (row, col) = choose|row: int, col: int|
            grid.contains(row, col) && #[trigger] block.covers(row, col) && grid.at(row, col)
                != Cell::Empty;
        grid.lemma_index_in_range(row, col);
        grid.lemma_index_coords(row, col);
    }
}

/// Once a block's cells are emptied, the block no longer collides where it
/// stands, provided its bounding box ends at or above the last row.
pub proof fn lemma_no_self_collision(grid: GridView, block: BlockView)
    requires
        grid.wf(),
        block.row + block.height <= grid.height,
    ensures
        !block.overlaps(grid.stamped(block, Cell::Empty)),
{
    let cleared = grid.stamped(block, Cell::Empty);
    assert forall|row: int, col: int|
        cleared.contains(row, col) && #[trigger] block.covers(row, col) implies cleared.at(
        row,
        col,
    ) == Cell::Empty by {
        grid.lemma_stamped_at(block, Cell::Empty, row, col);
    }
}

/// A block whose bounding box reaches below the last row collides, whatever
/// its mask and whatever the grid holds.
pub proof fn lemma_below_floor_overlaps(grid: GridView, block: BlockView)
    requires
        block.row + block.height > grid.height,
    ensures
        block.overlaps(grid),
{
}

/// Writing the same value under the same block a second time changes nothing.
pub proof fn lemma_stamp_idempotent(grid: GridView, block: BlockView, value: Cell)
    ensures
        grid.stamped(block, value).stamped(block, value) == grid.stamped(block, value),
{
    assert(grid.stamped(block, value).stamped(block, value).cells =~= grid.stamped(
        block,
        value,
    ).cells);
}

/// Tests the block, where it stands, against the floor and the cells of the
/// grid. The grid must not hold the block's own cells.
pub fn overlaps(block: &Block, grid: &Grid) -> (hit: bool)
    requires
        block.wf(),
        grid.wf(),
        block@.row + block@.height <= grid@.height ==> block@.fits(grid@.width, grid@.height),
    ensures
        hit == block@.overlaps(grid@),
        block@.row + block@.height > grid@.height ==> hit,
{
    if block.height() > grid.height() || block.row() > grid.height() - block.height() {
        return true;
    }
    let ghost b = block@;
    let ghost g = grid@;
    let width: usize = block.width();
    let height: usize = block.height();
    for x in 0..width
        invariant
            block.wf(),
            grid.wf(),
            b == block@,
            g == grid@,
            width == b.width,
            height == b.height,
            b.fits(g.width, g.height),
            forall|row: int, col: int| #[trigger]
                b.covers(row, col) && col - b.col < x ==> g.at(row, col) == Cell::Empty,
    {
        for y in 0..height
            invariant
                block.wf(),
                grid.wf(),
                b == block@,
                g == grid@,
                width == b.width,
                height == b.height,
                b.fits(g.width, g.height),
                x < width,
                forall|row: int, col: int| #[trigger]
                    b.covers(row, col) && before(row - b.row, col - b.col, x as int, y as int)
                        ==> g.at(row, col) == Cell::Empty,
        {
            if block.is_filled(y, x) {
                assert(b.covers(b.row + y, b.col + x));
                if !grid.cell(block.row() + y, block.col() + x).is_empty() {
                    return true;
                }
            }
        }
    }
    false
}

/// Writes `value` to every cell that the block fills.
fn stamp(block: &Block, grid: &mut Grid, value: Cell)
    requires
        block.wf(),
        old(grid).wf(),
        block@.fits(old(grid)@.width, old(grid)@.height),
    ensures
        final(grid).wf(),
        final(grid)@ == old(grid)@.stamped(block@, value),
{
    let ghost b = block@;
    let ghost g = grid@;
    let width: usize = block.width();
    let height: usize = block.height();
    assert(grid@.cells =~= g.stamped_upto(b, value, 0, 0).cells);
    for x in 0..width
        invariant
            block.wf(),
            grid.wf(),
            g.wf(),
            b == block@,
            width == b.width,
            height == b.height,
            b.fits(g.width, g.height),
            grid@ == g.stamped_upto(b, value, x as int, 0),
    {
        for y in 0..height
            invariant
                block.wf(),
                grid.wf(),
                g.wf(),
                b == block@,
                width == b.width,
                height == b.height,
                b.fits(g.width, g.height),
                x < width,
                grid@ == g.stamped_upto(b, value, x as int, y as int),
        {
            if block.is_filled(y, x) {
                assert(b.covers(b.row + y, b.col + x));
                let ghost row = b.row + y;
                let ghost col = b.col + x;
                grid.put(block.row() + y, block.col() + x, value);
                proof {
                    g.lemma_index_coords(row, col);
                    g.lemma_index_in_range(row, col);
                    assert forall|i: int| 0 <= i < g.cells.len() implies grid@.cells[i]
                        == g.stamped_upto(b, value, x as int, y + 1).cells[i] by {
                        g.lemma_coords_of_index(i);
                    }
                    assert(grid@.cells =~= g.stamped_upto(b, value, x as int, y + 1).cells);
                }
            } else {
                assert(grid@.cells =~= g.stamped_upto(b, value, x as int, y + 1).cells);
            }
        }
        assert(grid@.cells =~= g.stamped_upto(b, value, x + 1, 0).cells);
    }
    assert(grid@.cells =~= g.stamped(b, value).cells);
}

/// Writes the block's colour into every cell that the block fills.
pub fn commit(block: &Block, grid: &mut Grid)
    requires
        block.wf(),
        old(grid).wf(),
        block@.fits(old(grid)@.width, old(grid)@.height),
    ensures
        final(grid).wf(),
        final(grid)@ == old(grid)@.stamped(block@, Cell::Filled(block@.color)),
{
    stamp(block, grid, Cell::Filled(block.color()))
}

/// Empties every cell that the block fills. A block whose bounding box
/// ends at or above the last row does not collide with what is left.
pub fn clear(block: &Block, grid: &mut Grid)
    requires
        block.wf(),
        old(grid).wf(),
        block@.fits(old(grid)@.width, old(grid)@.height),
    ensures
        final(grid).wf(),
        final(grid)@ == old(grid)@.stamped(block@, Cell::Empty),
        block@.row + block@.height <= old(grid)@.height ==> !block@.overlaps(final(grid)@),
{
    proof {
        if block@.row + block@.height <= grid@.height {
            lemma_no_self_collision(grid@, block@);
        }
    }
    stamp(block, grid, Cell::Empty)
}

} // verus!
