//! The falling block: a boolean shape mask, a position and a colour.

use crate::color::Color;
use vstd::arithmetic::mul::{lemma_mul_inequality, lemma_mul_is_commutative};
use vstd::prelude::*;

verus! {

/// The mathematical block. `shape` holds the mask row after row, and
/// `(row, col)` is the grid position of the mask's top-left corner.
pub struct BlockView {
    pub width: nat,
    pub height: nat,
    pub shape: Seq<bool>,
    pub col: nat,
    pub row: nat,
    pub color: Color,
}

impl BlockView {
    /// The bounding box is not empty and the mask has one entry per position.
    pub open spec fn wf(self) -> bool {
        &&& self.width > 0
        &&& self.height > 0
        &&& self.shape.len() == self.width * self.height
    }

    /// Whether the mask is set at row `r` and column `c` of the bounding box.
    pub open spec fn filled(self, r: int, c: int) -> bool {
        &&& 0 <= r < self.height
        &&& 0 <= c < self.width
        &&& self.shape[r * self.width + c]
    }

    /// Whether the block, where it stands, fills the grid position
    /// `(grid_row, grid_col)`.
    pub open spec fn covers(self, grid_row: int, grid_col: int) -> bool {
        self.filled(grid_row - self.row, grid_col - self.col)
    }

    /// Whether every position the block fills is a cell of a grid of the
    /// given size.
    pub open spec fn fits(self, grid_width: nat, grid_height: nat) -> bool {
        forall|grid_row: int, grid_col: int| #[trigger]
            self.covers(grid_row, grid_col) ==> 0 <= grid_row < grid_height && 0 <= grid_col
                < grid_width
    }

    /// The same block one row further down.
    pub open spec fn moved_down(self) -> BlockView {
        BlockView {
            width: self.width,
            height: self.height,
            shape: self.shape,
            col: self.col,
            row: self.row + 1,
            color: self.color,
        }
    }

    /// The block every spawn produces: four cells in a row, all filled, red,
    /// its left end at the middle column of the grid.
    pub open spec fn spawned(grid_width: nat, spawn_row: nat) -> BlockView {
        BlockView {
            width: 4,
            height: 1,
            shape: Seq::new(4, |i: int| true),
            col: grid_width / 2,
            row: spawn_row,
            color: Color::opaque(255, 0, 0),
        }
    }

    /// A mask position of the bounding box lies inside the mask.
    pub proof fn lemma_mask_index(self, r: int, c: int)
        requires
            self.wf(),
            0 <= r < self.height,
            0 <= c < self.width,
        ensures
            0 <= r * self.width,
            0 <= r * self.width + c < self.shape.len(),
    {
        let w: int = self.width as int;
        let h: int = self.height as int;
        lemma_mul_inequality(0, r, w);
        lemma_mul_inequality(r + 1, h, w);
        lemma_mul_is_commutative(w, h);
        assert((r + 1) * w == r * w + w) by (nonlinear_arith);
    }

    /// The spawned block fills exactly the four positions from the middle
    /// column on, in the spawn row.
    pub proof fn lemma_spawned_covers(grid_width: nat, spawn_row: nat, grid_row: int, grid_col: int)
        ensures
            BlockView::spawned(grid_width, spawn_row).wf(),
            BlockView::spawned(grid_width, spawn_row).covers(grid_row, grid_col) <==> (grid_row
                == spawn_row && grid_width / 2 <= grid_col < grid_width / 2 + 4),
    {
    }
}

/// The single controlled piece.
#[derive(Debug)]
pub struct Block {
    width: usize,
    height: usize,
    shape: Vec<bool>,
    col: usize,
    row: usize,
    color: Color,
}

impl View for Block {
    type V = BlockView;

    closed spec fn view(&self) -> BlockView {
        BlockView {
            width: self.width as nat,
            height: self.height as nat,
            shape: self.shape@,
            col: self.col as nat,
            row: self.row as nat,
            color: self.color,
        }
    }
}

impl Block {
    /// The invariant of every block that a constructor hands out.
    pub open spec fn wf(&self) -> bool {
        self@.wf()
    }

    /// A block with the given mask, or nothing where the bounding box is
    /// empty or the mask does not have `width * height` entries.
    pub fn new(
        width: usize,
        height: usize,
        shape: Vec<bool>,
        col: usize,
        row: usize,
        color: Color,
    ) -> (res: Option<Block>)
        ensures
            res is Some <==> (width > 0 && height > 0 && shape@.len() == width * height),
            res matches Some(b) ==> b.wf() && b@ == (BlockView {
                width: width as nat,
                height: height as nat,
                shape: shape@,
                col: col as nat,
                row: row as nat,
                color,
            }),
    {
        if width == 0 || height == 0 {
            return None;
        }
        let len: usize = shape.len();
        match width.checked_mul(height) {
            Some(n) => {
                if len == n {
                    Some(Block { width, height, shape, col, row, color })
                } else {
                    None
                }
            },
            None => None,
        }
    }

    /// The block that enters the field at the given row.
    pub fn spawn_at(grid_width: usize, spawn_row: usize) -> (b: Block)
        ensures
            b.wf(),
            b@ == BlockView::spawned(grid_width as nat, spawn_row as nat),
    {
        let b = Block {
            width: 4,
            height: 1,
            shape: vec![true; 4],
            col: grid_width / 2,
            row: spawn_row,
            color: Color::red(),
        };
        assert(b@.shape =~= BlockView::spawned(grid_width as nat, spawn_row as nat).shape);
        b
    }

    /// The block that enters a field of the given size: at the row just
    /// above the vertical middle.
    pub fn spawn(grid_width: usize, grid_height: usize) -> (b: Block)
        requires
            grid_height >= 2,
        ensures
            b.wf(),
            b@ == BlockView::spawned(grid_width as nat, (grid_height / 2 - 1) as nat),
    {
        Block::spawn_at(grid_width, grid_height / 2 - 1)
    }

    pub fn width(&self) -> (w: usize)
        ensures
            w == self@.width,
    {
        self.width
    }

    pub fn height(&self) -> (h: usize)
        ensures
            h == self@.height,
    {
        self.height
    }

    pub fn col(&self) -> (c: usize)
        ensures
            c == self@.col,
    {
        self.col
    }

    pub fn row(&self) -> (r: usize)
        ensures
            r == self@.row,
    {
        self.row
    }

    pub fn color(&self) -> (c: Color)
        ensures
            c == self@.color,
    {
        self.color
    }

    /// Whether the mask is set at row `r` and column `c` of the bounding box.
    pub fn is_filled(&self, r: usize, c: usize) -> (b: bool)
        requires
            self.wf(),
        ensures
            b == self@.filled(r as int, c as int),
    {
        if r < self.height && c < self.width {
            proof {
                self@.lemma_mask_index(r as int, c as int);
                assert(self@.shape.len() == self.shape.len());
            }
            self.shape[r * self.width + c]
        } else {
            false
        }
    }

    /// Puts the block at another row; nothing else changes.
    pub(crate) fn set_row(&mut self, row: usize)
        ensures
            final(self)@ == (BlockView {
                width: old(self)@.width,
                height: old(self)@.height,
                shape: old(self)@.shape,
                col: old(self)@.col,
                row: row as nat,
                color: old(self)@.color,
            }),
    {
        self.row = row;
    }

    /// Whether every position the block fills is a cell of a grid of the
    /// given size.
    pub fn fits(&self, grid_width: usize, grid_height: usize) -> (b: bool)
        requires
            self.wf(),
        ensures
            b == self@.fits(grid_width as nat, grid_height as nat),
    {
        let ghost view = self@;
        for r in 0..self.height
            invariant
                self.wf(),
                view == self@,
                forall|grid_row: int, grid_col: int| #[trigger]
                    view.covers(grid_row, grid_col) && grid_row - view.row < r ==> 0 <= grid_row
                        < grid_height && 0 <= grid_col < grid_width,
        {
            for c in 0..self.width
                invariant
                    self.wf(),
                    view == self@,
                    r < self.height,
                    forall|grid_row: int, grid_col: int| #[trigger]
                        view.covers(grid_row, grid_col) && (grid_row - view.row < r || (grid_row
                            - view.row == r && grid_col - view.col < c)) ==> 0 <= grid_row
                            < grid_height && 0 <= grid_col < grid_width,
            {
                if self.is_filled(r, c) {
                    let inside = r < grid_height && self.row < grid_height - r && c < grid_width
                        && self.col < grid_width - c;
                    if !inside {
                        assert(view.covers(view.row + r, view.col + c));
                        return false;
                    }
                }
            }
        }
        true
    }
}

} // verus!
