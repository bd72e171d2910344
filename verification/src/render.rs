//! Copying the grid into an RGBA pixel buffer, one pixel per cell.

use crate::color::{Cell, Color};
use crate::grid::Grid;
use vstd::prelude::*;

verus! {

/// The red, green or blue channel of a colour, by its place in a pixel.
pub open spec fn channel(c: Color, k: int) -> u8 {
    if k == 0 {
        c.r
    } else if k == 1 {
        c.g
    } else {
        c.b
    }
}

/// The pixel buffer after the first `n` cells have been copied into it: the
/// colour channels of their pixels are those of the cells, an empty cell
/// being black; the alpha channels and all later bytes are as they were.
pub open spec fn blitted_upto(cells: Seq<Cell>, pixels: Seq<u8>, n: int) -> Seq<u8> {
    Seq::new(
        pixels.len(),
        |k: int|
            if k < 4 * n && k % 4 != 3 {
                channel(cells[k / 4].shade(), k % 4)
            } else {
                pixels[k]
            },
    )
}

/// The pixel buffer after every cell has been copied into it.
pub open spec fn blitted(cells: Seq<Cell>, pixels: Seq<u8>) -> Seq<u8> {
    blitted_upto(cells, pixels, cells.len() as int)
}

/// Copies the colour of every cell into the pixel buffer, four bytes per
/// pixel, leaving each alpha byte alone.
pub fn blit(grid: &Grid, data: &mut Vec<u8>)
    requires
        old(data)@.len() >= 4 * grid@.cells.len(),
    ensures
        final(data)@ == blitted(grid@.cells, old(data)@),
{
    let cells = grid.cells();
    let n: usize = cells.len();
    let ghost before = data@;
    assert(before.len() == data.len());
    for i in 0..n
        invariant
            n == cells@.len(),
            4 * n <= before.len() <= usize::MAX,
            data@ == blitted_upto(cells@, before, i as int),
    {
        let c = cells[i].color();
        data[4 * i] = c.r;
        data[4 * i + 1] = c.g;
        data[4 * i + 2] = c.b;
    }
}

} // verus!
