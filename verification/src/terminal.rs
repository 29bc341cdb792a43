//! The executable frame buffer.

use vstd::prelude::*;
use crate::cell::{Cell, Color};
use crate::grid::Grid;

verus! {

/// A frame buffer of fixed size.
///
/// The cells are stored row by row in one vector; the cell at column `x` of
/// row `y` lives at offset `y * width + x`.
pub struct Terminal {
    width: usize,
    height: usize,
    cells: Vec<Cell>,
}

impl View for Terminal {
    type V = Grid;

    closed spec fn view(&self) -> Grid {
        Grid {
            width: self.width as nat,
            height: self.height as nat,
            rows: Seq::new(
                self.height as nat,
                |y: int| Seq::new(self.width as nat, |x: int| self.cells@[y * self.width + x]),
            ),
        }
    }
}

/// Offsets of a `w`-wide row-major layout stay inside `w * h` for every
/// position inside the rectangle.
proof fn lemma_offset_in_range(x: int, y: int, w: int, h: int)
    requires
        0 <= x < w,
        0 <= y < h,
    ensures
        0 <= y * w + x < w * h,
{
    assert(y * w + w <= h * w) by (nonlinear_arith)
        requires
            0 <= y < h,
            0 <= w,
    ;
    assert(0 <= y * w) by (nonlinear_arith)
        requires
            0 <= y,
            0 <= w,
    ;
    assert(h * w == w * h) by (nonlinear_arith);
}

/// Two positions of a `w`-wide row-major layout share an offset only when
/// they are the same position.
proof fn lemma_offset_injective(x: int, y: int, i: int, j: int, w: int)
    requires
        0 <= x < w,
        0 <= i < w,
        y * w + x == j * w + i,
    ensures
        x == i,
        y == j,
{
    if y < j {
        assert(y * w + w <= j * w) by (nonlinear_arith)
            requires
                y < j,
                0 <= w,
        ;
    } else if j < y {
        assert(j * w + w <= y * w) by (nonlinear_arith)
            requires
                j < y,
                0 <= w,
        ;
    }
}

impl Terminal {
    /// The storage holds exactly one cell per position.
    #[verifier::type_invariant]
    spec fn inv(&self) -> bool {
        self.cells.len() == self.width * self.height
    }

    /// The view of a buffer is always a well-formed grid.
    pub proof fn lemma_view_wf(&self)
        ensures
            self@.wf(),
    {
    }

    /// Builds a buffer of `columns` by `rows` cells, every one of them a
    /// space drawn black on black.
    ///
    /// The two counts are what the terminal reports as its size. A count of
    /// zero is accepted and gives a buffer without any cell.
    pub fn new(columns: u16, rows: u16) -> (t: Terminal)
        ensures
            t@ == Grid::blank(columns as nat, rows as nat, Color::black(), Color::black()),
    {
        let width: usize = columns as usize;
        let height: usize = rows as usize;
        assert(width * height <= 0xFFFF * 0xFFFF) by (nonlinear_arith)
            requires
                0 <= width <= 0xFFFF,
                0 <= height <= 0xFFFF,
        ;
        let total: usize = width * height;
        let blank = Cell::blank(Color(0, 0, 0), Color(0, 0, 0));
        let mut cells: Vec<Cell> = Vec::with_capacity(total);
        let mut i: usize = 0;
        while i < total
            invariant
                i <= total,
                cells@.len() == i,
                forall|k: int| 0 <= k < i ==> cells@[k] == blank,
            decreases total - i,
        {
            cells.push(blank);
            i = i + 1;
        }
        let t = Terminal { width, height, cells };
        proof {
            let g = Grid::blank(columns as nat, rows as nat, Color::black(), Color::black());
            assert forall|y: int| 0 <= y < height implies #[trigger] t@.rows[y] == g.rows[y] by {
                assert forall|x: int| 0 <= x < width implies t@.rows[y][x] == #[trigger] g.rows[y][x] by {
                    lemma_offset_in_range(x, y, width as int, height as int);
                }
                assert(t@.rows[y] =~= g.rows[y]);
            }
            assert(t@.rows =~= g.rows);
        }
        t
    }

    /// Number of columns.
    pub fn width(&self) -> (w: usize)
        ensures
            w == self@.width,
    {
        self.width
    }

    /// Number of rows.
    pub fn height(&self) -> (h: usize)
        ensures
            h == self@.height,
    {
        self.height
    }

    /// Whether `(x, y)` addresses a cell of this buffer.
    pub fn is_valid_coords(&self, x: usize, y: usize) -> (valid: bool)
        ensures
            valid == self@.in_bounds(x as int, y as int),
    {
        x < self.width && y < self.height
    }

    /// Replaces the cell at `(x, y)`, which must address one.
    fn store(&mut self, x: usize, y: usize, c: Cell)
        requires
            old(self)@.in_bounds(x as int, y as int),
        ensures
            final(self)@ == old(self)@.put(x as int, y as int, c),
    {
        let i: usize = self.offset(x, y);
        proof {
            use_type_invariant(&*self);
        }
        self.cells[i] = c;
        proof {
            let w = self.width as int;
            let before = old(self)@;
            let after = before.put(x as int, y as int, c);
            assert forall|j: int| 0 <= j < self.height implies #[trigger] self@.rows[j] == after.rows[j] by {
                assert forall|k: int| 0 <= k < w implies self@.rows[j][k] == #[trigger] after.rows[j][k] by {
                    lemma_offset_in_range(k, j, w, self.height as int);
                    if j * w + k == i {
                        lemma_offset_injective(x as int, y as int, k, j, w);
                    }
                }
                assert(self@.rows[j] =~= after.rows[j]);
            }
            assert(self@.rows =~= after.rows);
        }
    }

    /// Sets the glyph at `(x, y)` and leaves both colours as they are.
    ///
    /// A position outside the buffer is ignored: the buffer stays unchanged.
    pub fn set_char(&mut self, x: usize, y: usize, ch: char)
        ensures
            final(self)@ == old(self)@.with_glyph(x as int, y as int, ch),
            !old(self)@.in_bounds(x as int, y as int) ==> *final(self) == *old(self),
    {
        if !self.is_valid_coords(x, y) {
            return ;
        }
        let cur = self.cell_at(x, y);
        self.store(x, y, Cell { glyph: ch, fg: cur.fg, bg: cur.bg });
    }

    /// Sets the glyph and both colours at `(x, y)` in one step.
    ///
    /// A position outside the buffer is ignored: the buffer stays unchanged.
    pub fn set_color_char(&mut self, x: usize, y: usize, ch: char, fg: Color, bg: Color)
        ensures
            final(self)@ == old(self)@.put(x as int, y as int, (Cell { glyph: ch, fg, bg })),
            !old(self)@.in_bounds(x as int, y as int) ==> *final(self) == *old(self),
    {
        if !self.is_valid_coords(x, y) {
            return ;
        }
        self.store(x, y, Cell { glyph: ch, fg, bg });
    }

    /// Sets the foreground colour at `(x, y)` and leaves the rest of the
    /// cell as it is.
    ///
    /// A position outside the buffer is ignored: the buffer stays unchanged.
    pub fn set_fg(&mut self, x: usize, y: usize, color: Color)
        ensures
            final(self)@ == old(self)@.with_fg(x as int, y as int, color),
            !old(self)@.in_bounds(x as int, y as int) ==> *final(self) == *old(self),
    {
        if !self.is_valid_coords(x, y) {
            return ;
        }
        let cur = self.cell_at(x, y);
        self.store(x, y, Cell { glyph: cur.glyph, fg: color, bg: cur.bg });
    }

    /// Sets the background colour at `(x, y)` and leaves the rest of the
    /// cell as it is.
    ///
    /// A position outside the buffer is ignored: the buffer stays unchanged.
    pub fn set_bg(&mut self, x: usize, y: usize, color: Color)
        ensures
            final(self)@ == old(self)@.with_bg(x as int, y as int, color),
            !old(self)@.in_bounds(x as int, y as int) ==> *final(self) == *old(self),
    {
        if !self.is_valid_coords(x, y) {
            return ;
        }
        let cur = self.cell_at(x, y);
        self.store(x, y, Cell { glyph: cur.glyph, fg: cur.fg, bg: color });
    }

    /// Sets the glyph at `(x, y)`, treating the buffer as a plain grid of
    /// glyphs: the same operation as [`Terminal::set_char`].
    ///
    /// A position outside the buffer is ignored: the buffer stays unchanged.
    pub fn set_pixel(&mut self, x: usize, y: usize, ch: char)
        ensures
            final(self)@ == old(self)@.with_glyph(x as int, y as int, ch),
            !old(self)@.in_bounds(x as int, y as int) ==> *final(self) == *old(self),
    {
        self.set_char(x, y, ch);
    }

    /// Resets every cell to a space drawn with the colours `fg` and `bg`.
    pub fn clear_with(&mut self, fg: Color, bg: Color)
        ensures
            final(self)@ == old(self)@.cleared(fg, bg),
    {
        let blank = Cell::blank(fg, bg);
        proof {
            use_type_invariant(&*self);
        }
        let total: usize = self.cells.len();
        let mut i: usize = 0;
        while i < total
            invariant
                i <= total,
                total == self.cells.len(),
                self.width == old(self).width,
                self.height == old(self).height,
                self.cells.len() == self.width * self.height,
                forall|k: int| 0 <= k < i ==> self.cells@[k] == blank,
            decreases total - i,
        {
            self.cells[i] = blank;
            i = i + 1;
        }
        proof {
            let g = old(self)@.cleared(fg, bg);
            assert forall|y: int| 0 <= y < self.height implies #[trigger] self@.rows[y] == g.rows[y] by {
                assert forall|x: int| 0 <= x < self.width implies self@.rows[y][x] == #[trigger] g.rows[y][x] by {
                    lemma_offset_in_range(x, y, self.width as int, self.height as int);
                }
                assert(self@.rows[y] =~= g.rows[y]);
            }
            assert(self@.rows =~= g.rows);
        }
    }

    /// Resets every cell to a space drawn black on black, the state of a
    /// freshly built buffer.
    pub fn clear(&mut self)
        ensures
            final(self)@ == old(self)@.cleared(Color::black(), Color::black()),
    {
        self.clear_with(Color(0, 0, 0), Color(0, 0, 0));
    }

    /// Reads the cell at `(x, y)`; `None` says that the position lies
    /// outside the buffer.
    pub fn get(&self, x: usize, y: usize) -> (cell: Option<Cell>)
        ensures
            self@.in_bounds(x as int, y as int) ==> cell == Some(self@.cell(x as int, y as int)),
            !self@.in_bounds(x as int, y as int) ==> cell.is_none(),
    {
        if self.is_valid_coords(x, y) {
            Some(self.cell_at(x, y))
        } else {
            None
        }
    }

    /// The cell at `(x, y)`, which must address one.
    pub(crate) fn cell_at(&self, x: usize, y: usize) -> (c: Cell)
        requires
            self@.in_bounds(x as int, y as int),
        ensures
            c == self@.cell(x as int, y as int),
    {
        let i: usize = self.offset(x, y);
        self.cells[i]
    }

    /// The storage offset of the cell at `(x, y)`.
    fn offset(&self, x: usize, y: usize) -> (i: usize)
        requires
            self@.in_bounds(x as int, y as int),
        ensures
            i == y * self.width + x,
            i < self.cells.len(),
    {
        proof {
            use_type_invariant(self);
            lemma_offset_in_range(x as int, y as int, self.width as int, self.height as int);
        }
        y * self.width + x
    }
}

} // verus!
