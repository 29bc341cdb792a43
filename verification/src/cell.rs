//! The value types stored in a frame buffer: colours and cells.

use vstd::prelude::*;

verus! {

/// A 24-bit colour: red, green and blue components.
#[derive(Debug, Clone, Copy, PartialEq, Eq, Structural)]
pub struct Color(pub u8, pub u8, pub u8);

impl Color {
    /// Black, the colour of both layers of a freshly built buffer.
    pub open spec fn black() -> Color {
        Color(0, 0, 0)
    }
}

/// The visual state of one grid position: a glyph and its two colour layers.
#[derive(Debug, Clone, Copy, PartialEq, Eq, Structural)]
pub struct Cell {
    pub glyph: char,
    pub fg: Color,
    pub bg: Color,
}

impl Cell {
    /// The blank cell: a space drawn with the given colours.
    pub open spec fn blank_spec(fg: Color, bg: Color) -> Cell {
        Cell { glyph: ' ', fg, bg }
    }

    /// Builds the blank cell with the given colours.
    #[verifier::when_used_as_spec(blank_spec)]
    pub fn blank(fg: Color, bg: Color) -> (c: Cell)
        ensures
            c == Cell::blank_spec(fg, bg),
    {
        Cell { glyph: ' ', fg, bg }
    }
}

} // verus!
