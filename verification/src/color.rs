//! Colours and grid cells.

use hex_color::HexColor;
use vstd::prelude::*;

verus! {

/// An RGBA colour, one byte per channel.
#[derive(Clone, Copy, Debug, PartialEq, Eq, Structural)]
pub struct Color {
    pub r: u8,
    pub g: u8,
    pub b: u8,
    pub a: u8,
}

/// What one grid cell holds: nothing, or the colour of the block that fills it.
#[derive(Clone, Copy, Debug, PartialEq, Eq, Structural)]
pub enum Cell {
    Empty,
    Filled(Color),
}

/// `hex_color::HexColor::RED`: the crate defines it as `rgb(255, 0, 0)`, and
/// `rgb` sets the alpha channel to 255.
#[verifier::external_body]
fn palette_red() -> (c: Color)
    ensures
        c == Color::opaque(255, 0, 0),
{
    let h = HexColor::RED;
    Color { r: h.r, g: h.g, b: h.b, a: h.a }
}

/// `hex_color::HexColor::BLACK`: the crate defines it as `rgb(0, 0, 0)`, and
/// `rgb` sets the alpha channel to 255.
#[verifier::external_body]
fn palette_black() -> (c: Color)
    ensures
        c == Color::opaque(0, 0, 0),
{
    let h = HexColor::BLACK;
    Color { r: h.r, g: h.g, b: h.b, a: h.a }
}

impl Color {
    /// The fully opaque colour with the given channels.
    pub open spec fn opaque(r: u8, g: u8, b: u8) -> Color {
        Color { r, g, b, a: 255 }
    }

    /// The colour of every block.
    pub fn red() -> (c: Color)
        ensures
            c == Color::opaque(255, 0, 0),
    {
        palette_red()
    }

    /// The colour an empty cell is drawn in.
    pub fn black() -> (c: Color)
        ensures
            c == Color::opaque(0, 0, 0),
    {
        palette_black()
    }
}

impl Cell {
    /// The colour this cell is drawn in.
    pub open spec fn shade(self) -> Color {
        match self {
            Cell::Empty => Color::opaque(0, 0, 0),
            Cell::Filled(c) => c,
        }
    }

    pub fn is_empty(&self) -> (b: bool)
        ensures
            b == (*self is Empty),
    {
        match self {
            Cell::Empty => true,
            Cell::Filled(_) => false,
        }
    }

    pub fn color(&self) -> (c: Color)
        ensures
            c == self.shade(),
    {
        match self {
            Cell::Empty => Color::black(),
            Cell::Filled(c) => *c,
        }
    }
}

} // verus!
