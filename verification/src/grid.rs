//! The mathematical model of a frame buffer.
//!
//! A [`Grid`] is what a buffer *is*, independent of how it is stored: a
//! width, a height, and one row of cells per line, addressed by column `x`
//! and row `y`. Every contract of the executable buffer is stated over it.

use vstd::prelude::*;
use crate::cell::{Cell, Color};

verus! {

/// A rectangular arrangement of cells, `rows[y][x]` being column `x` of row `y`.
pub struct Grid {
    pub width: nat,
    pub height: nat,
    pub rows: Seq<Seq<Cell>>,
}

impl Grid {
    /// There are `height` rows and each holds `width` cells.
    pub open spec fn wf(self) -> bool {
        &&& self.rows.len() == self.height
        &&& forall|y: int| 0 <= y < self.height ==> (#[trigger] self.rows[y]).len() == self.width
    }

    /// `(x, y)` addresses a cell: `0 <= x < width` and `0 <= y < height`.
    pub open spec fn in_bounds(self, x: int, y: int) -> bool {
        0 <= x < self.width && 0 <= y < self.height
    }

    /// The cell at column `x` of row `y`.
    pub open spec fn cell(self, x: int, y: int) -> Cell
        recommends
            self.in_bounds(x, y),
    {
        self.rows[y][x]
    }

    /// The grid with the cell at `(x, y)` replaced by `c`; the grid itself
    /// when `(x, y)` addresses no cell.
    pub open spec fn put(self, x: int, y: int, c: Cell) -> Grid {
        if self.in_bounds(x, y) {
            Grid { rows: self.rows.update(y, self.rows[y].update(x, c)), ..self }
        } else {
            self
        }
    }

    /// The grid with only the glyph at `(x, y)` replaced.
    pub open spec fn with_glyph(self, x: int, y: int, glyph: char) -> Grid {
        self.put(x, y, Cell { glyph, ..self.cell(x, y) })
    }

    /// The grid with only the foreground colour at `(x, y)` replaced.
    pub open spec fn with_fg(self, x: int, y: int, fg: Color) -> Grid {
        self.put(x, y, Cell { fg, ..self.cell(x, y) })
    }

    /// The grid with only the background colour at `(x, y)` replaced.
    pub open spec fn with_bg(self, x: int, y: int, bg: Color) -> Grid {
        self.put(x, y, Cell { bg, ..self.cell(x, y) })
    }

    /// The grid of the given size in which every cell is blank with the
    /// given colours.
    pub open spec fn blank(width: nat, height: nat, fg: Color, bg: Color) -> Grid {
        Grid {
            width,
            height,
            rows: Seq::new(height, |y: int| Seq::new(width, |x: int| Cell::blank_spec(fg, bg))),
        }
    }

    /// The grid of the same size with every cell reset to blank.
    pub open spec fn cleared(self, fg: Color, bg: Color) -> Grid {
        Grid::blank(self.width, self.height, fg, bg)
    }
}

} // verus!
