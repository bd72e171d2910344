//! The occupancy grid: a fixed-size, row-major buffer of cells.

use crate::color::Cell;
use vstd::arithmetic::div_mod::{lemma_fundamental_div_mod, lemma_fundamental_div_mod_converse};
use vstd::arithmetic::mul::{lemma_mul_inequality, lemma_mul_is_commutative};
use vstd::prelude::*;
use vstd::slice::slice_subrange;

verus! {

/// Why a grid operation was refused.
#[derive(Clone, Copy, Debug, PartialEq, Eq, Structural)]
pub enum GridError {
    /// A grid was asked for with no columns or no rows.
    InvalidDimension,
    /// A cell outside the grid was addressed.
    OutOfBounds,
}

/// The mathematical grid: its dimensions and its cells, row after row.
pub struct GridView {
    pub width: nat,
    pub height: nat,
    pub cells: Seq<Cell>,
}

impl GridView {
    /// Both dimensions are positive and the buffer holds one cell per position.
    pub open spec fn wf(self) -> bool {
        &&& self.width > 0
        &&& self.height > 0
        &&& self.cells.len() == self.width * self.height
    }

    /// The grid of the given size in which every cell is empty.
    pub open spec fn empty(width: nat, height: nat) -> GridView {
        GridView { width, height, cells: Seq::new(width * height, |i: int| Cell::Empty) }
    }

    /// Whether `(row, col)` names a cell of the grid.
    pub open spec fn contains(self, row: int, col: int) -> bool {
        0 <= row < self.height && 0 <= col < self.width
    }

    /// Where the cell `(row, col)` lies in the buffer.
    pub open spec fn index_of(self, row: int, col: int) -> int {
        row * self.width + col
    }

    /// The cell at `(row, col)`.
    pub open spec fn at(self, row: int, col: int) -> Cell {
        self.cells[self.index_of(row, col)]
    }

    /// The grid with the cell at `(row, col)` overwritten.
    pub open spec fn with_cell(self, row: int, col: int, value: Cell) -> GridView {
        GridView {
            width: self.width,
            height: self.height,
            cells: self.cells.update(self.index_of(row, col), value),
        }
    }

    /// The cells of one row, left to right.
    pub open spec fn row_cells(self, row: int) -> Seq<Cell> {
        self.cells.subrange(row * self.width, row * self.width + self.width)
    }

    /// Whether some cell of the row is not empty.
    pub open spec fn row_occupied(self, row: int) -> bool {
        exists|col: int| 0 <= col < self.width && #[trigger] self.at(row, col) != Cell::Empty
    }

    /// A cell of the grid lies inside the buffer.
    pub proof fn lemma_index_in_range(self, row: int, col: int)
        requires
            self.wf(),
            self.contains(row, col),
        ensures
            0 <= row * self.width,
            0 <= self.index_of(row, col) < self.cells.len(),
            row * self.width + self.width <= self.cells.len(),
    {
        let w: int = self.width as int;
        let h: int = self.height as int;
        lemma_mul_inequality(0, row, w);
        lemma_mul_inequality(row + 1, h, w);
        lemma_mul_is_commutative(w, h);
        assert((row + 1) * w == row * w + w) by (nonlinear_arith);
    }

    /// The row and the column of a cell are the quotient and the remainder of
    /// its index by the width.
    pub proof fn lemma_index_coords(self, row: int, col: int)
        requires
            self.width > 0,
            0 <= col < self.width,
        ensures
            self.index_of(row, col) / (self.width as int) == row,
            self.index_of(row, col) % (self.width as int) == col,
    {
        lemma_fundamental_div_mod_converse(
            self.index_of(row, col),
            self.width as int,
            row,
            col,
        );
    }

    /// Every index of the buffer is the index of exactly one cell of the grid.
    pub proof fn lemma_coords_of_index(self, i: int)
        requires
            self.wf(),
            0 <= i < self.cells.len(),
        ensures
            self.contains(i / (self.width as int), i % (self.width as int)),
            self.index_of(i / (self.width as int), i % (self.width as int)) == i,
    {
        let w: int = self.width as int;
        let h: int = self.height as int;
        lemma_fundamental_div_mod(i, w);
        lemma_mul_is_commutative(w, i / w);
        if i / w >= h {
            lemma_mul_inequality(h, i / w, w);
            lemma_mul_is_commutative(w, h);
        }
        if i / w < 0 {
            lemma_mul_inequality(i / w, -1, w);
        }
    }

    /// Two cells of the grid with the same index are the same cell.
    pub proof fn lemma_index_injective(self, r1: int, c1: int, r2: int, c2: int)
        requires
            self.width > 0,
            0 <= c1 < self.width,
            0 <= c2 < self.width,
            self.index_of(r1, c1) == self.index_of(r2, c2),
        ensures
            r1 == r2,
            c1 == c2,
    {
        self.lemma_index_coords(r1, c1);
        self.lemma_index_coords(r2, c2);
    }

    /// A row of the grid holds one cell per column, in column order.
    pub proof fn lemma_row_cells(self, row: int)
        requires
            self.wf(),
            0 <= row < self.height,
        ensures
            self.row_cells(row).len() == self.width,
            forall|col: int|
                0 <= col < self.width ==> self.row_cells(row)[col] == #[trigger] self.at(row, col),
    {
        self.lemma_index_in_range(row, 0);
    }

    /// A cell that was just written reads back as the written value, and the
    /// grid keeps its shape.
    pub proof fn lemma_set_then_get(self, row: int, col: int, value: Cell)
        requires
            self.wf(),
            self.contains(row, col),
        ensures
            self.with_cell(row, col, value).wf(),
            self.with_cell(row, col, value).at(row, col) == value,
    {
        self.lemma_index_in_range(row, col);
    }

    /// Writing one cell leaves every other cell of the grid as it was.
    pub proof fn lemma_set_keeps_others(self, row: int, col: int, value: Cell, r: int, c: int)
        requires
            self.wf(),
            self.contains(row, col),
            self.contains(r, c),
            r != row || c != col,
        ensures
            self.with_cell(row, col, value).at(r, c) == self.at(r, c),
    {
        self.lemma_index_in_range(row, col);
        self.lemma_index_in_range(r, c);
        if self.index_of(r, c) == self.index_of(row, col) {
            self.lemma_index_injective(r, c, row, col);
        }
    }
}

/// The playing field. Its cells are indexed `row * width + col`.
#[derive(Debug)]
pub struct Grid {
    width: usize,
    height: usize,
    cells: Vec<Cell>,
}

impl View for Grid {
    type V = GridView;

    closed spec fn view(&self) -> GridView {
        GridView { width: self.width as nat, height: self.height as nat, cells: self.cells@ }
    }
}

impl Grid {
    /// The invariant of every grid that `create` hands out: its model is
    /// well formed and its dimensions are machine integers.
    pub open spec fn wf(&self) -> bool {
        &&& self@.wf()
        &&& self@.width <= usize::MAX
        &&& self@.height <= usize::MAX
    }

    /// The index of a cell of the grid, and the end of its row, fit in `usize`.
    proof fn lemma_index_fits(&self, row: usize, col: usize)
        requires
            self.wf(),
            self@.contains(row as int, col as int),
        ensures
            0 <= row * self.width,
            row * self.width + col < self.cells.len(),
            row * self.width + self.width <= self.cells.len(),
    {
        self@.lemma_index_in_range(row as int, col as int);
    }

    /// A grid of the given size with every cell empty.
    pub fn create(width: usize, height: usize) -> (res: Result<Grid, GridError>)
        requires
            width * height <= usize::MAX,
        ensures
            (width == 0 || height == 0) ==> res == Err::<Grid, GridError>(
                GridError::InvalidDimension,
            ),
            (width > 0 && height > 0) ==> (res matches Ok(g) && g.wf() && g@ == GridView::empty(
                width as nat,
                height as nat,
            )),
    {
        if width == 0 || height == 0 {
            return Err(GridError::InvalidDimension);
        }
        let cells = vec![Cell::Empty; width * height];
        let grid = Grid { width, height, cells };
        assert(grid@.cells =~= GridView::empty(width as nat, height as nat).cells);
        Ok(grid)
    }

    pub fn width(&self) -> (w: usize)
        ensures
            w == self@.width,
    {
        self.width
    }

    pub fn height(&self) -> (h: usize)
        ensures
            h == self@.height,
    {
        self.height
    }

    /// The whole buffer, row after row.
    pub fn cells(&self) -> (s: &[Cell])
        ensures
            s@ == self@.cells,
    {
        self.cells.as_slice()
    }

    /// The cell at a position that is known to lie inside the grid.
    pub(crate) fn cell(&self, row: usize, col: usize) -> (value: Cell)
        requires
            self.wf(),
            self@.contains(row as int, col as int),
        ensures
            value == self@.at(row as int, col as int),
    {
        proof {
            self.lemma_index_fits(row, col);
        }
        self.cells[row * self.width + col]
    }

    /// Overwrites the cell at a position that is known to lie inside the grid.
    pub(crate) fn put(&mut self, row: usize, col: usize, value: Cell)
        requires
            old(self).wf(),
            old(self)@.contains(row as int, col as int),
        ensures
            final(self).wf(),
            final(self)@ == old(self)@.with_cell(row as int, col as int, value),
    {
        proof {
            self.lemma_index_fits(row, col);
        }
        let i: usize = row * self.width + col;
        self.cells[i] = value;
    }

    /// Reads one cell.
    pub fn get(&self, row: usize, col: usize) -> (res: Result<Cell, GridError>)
        requires
            self.wf(),
        ensures
            res == if self@.contains(row as int, col as int) {
                Ok::<Cell, GridError>(self@.at(row as int, col as int))
            } else {
                Err::<Cell, GridError>(GridError::OutOfBounds)
            },
    {
        if row < self.height && col < self.width {
            Ok(self.cell(row, col))
        } else {
            Err(GridError::OutOfBounds)
        }
    }

    /// Overwrites one cell; a position outside the grid changes nothing.
    pub fn set(&mut self, row: usize, col: usize, value: Cell) -> (res: Result<(), GridError>)
        requires
            old(self).wf(),
        ensures
            final(self).wf(),
            old(self)@.contains(row as int, col as int) ==> res == Ok::<(), GridError>(())
                && final(self)@ == old(self)@.with_cell(row as int, col as int, value)
                && final(self)@.at(row as int, col as int) == value,
            !old(self)@.contains(row as int, col as int) ==> res == Err::<(), GridError>(
                GridError::OutOfBounds,
            ) && final(self)@ == old(self)@,
    {
        if row < self.height && col < self.width {
            proof {
                self@.lemma_set_then_get(row as int, col as int, value);
            }
            self.put(row, col, value);
            Ok(())
        } else {
            Err(GridError::OutOfBounds)
        }
    }

    /// One full row, left to right.
    pub fn row_slice(&self, row: usize) -> (res: Result<&[Cell], GridError>)
        requires
            self.wf(),
        ensures
            row < self@.height ==> (res matches Ok(s) && s@ == self@.row_cells(row as int)),
            row >= self@.height ==> res == Err::<&[Cell], GridError>(GridError::OutOfBounds),
    {
        if row < self.height {
            proof {
                self.lemma_index_fits(row, 0);
            }
            let start: usize = row * self.width;
            Ok(slice_subrange(self.cells.as_slice(), start, start + self.width))
        } else {
            Err(GridError::OutOfBounds)
        }
    }
}

} // verus!
