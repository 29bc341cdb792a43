//! Serialising a grid into the text that paints it on a terminal.

use vstd::prelude::*;
use vstd::string::*;
use crate::cell::{Cell, Color};
use crate::grid::Grid;
use crate::terminal::Terminal;

verus! {

/// The character that writes the decimal digit `d`.
pub open spec fn digit(d: nat) -> char
    recommends
        d < 10,
{
    ('0' as nat + d) as char
}

/// The decimal numeral of `n`, without sign or leading zeros.
pub open spec fn decimal(n: nat) -> Seq<char>
    decreases n,
{
    if n < 10 {
        seq![digit(n)]
    } else {
        decimal(n / 10).push(digit(n % 10))
    }
}

/// The three components of a colour as they appear inside a directive:
/// `r ; g ; b`.
pub open spec fn rgb_params(c: Color) -> Seq<char> {
    decimal(c.0 as nat) + ";"@ + decimal(c.1 as nat) + ";"@ + decimal(c.2 as nat)
}

/// The directive that selects `c` as foreground: `ESC [ 38 ; 2 ; r ; g ; b m`.
pub open spec fn fg_directive(c: Color) -> Seq<char> {
    "\x1b[38;2;"@ + rgb_params(c) + "m"@
}

/// The directive that selects `c` as background: `ESC [ 48 ; 2 ; r ; g ; b m`.
pub open spec fn bg_directive(c: Color) -> Seq<char> {
    "\x1b[48;2;"@ + rgb_params(c) + "m"@
}

/// The directive that restores the terminal's default attributes: `ESC [ m`.
pub open spec fn reset_directive() -> Seq<char> {
    "\x1b[m"@
}

/// The separator written between two consecutive rows.
pub open spec fn row_separator() -> Seq<char> {
    seq!['\n']
}

/// One cell on the wire: its foreground directive, its background
/// directive, then its glyph.
pub open spec fn render_cell(c: Cell) -> Seq<char> {
    fg_directive(c.fg) + bg_directive(c.bg) + seq![c.glyph]
}

/// One row on the wire: its cells from left to right.
pub open spec fn render_row(row: Seq<Cell>) -> Seq<char>
    decreases row.len(),
{
    if row.len() == 0 {
        Seq::empty()
    } else {
        render_row(row.drop_last()) + render_cell(row.last())
    }
}

/// The rows from top to bottom, with one separator between each two
/// neighbours and none after the last.
pub open spec fn render_rows(rows: Seq<Seq<Cell>>) -> Seq<char>
    decreases rows.len(),
{
    if rows.len() == 0 {
        Seq::empty()
    } else if rows.len() == 1 {
        render_row(rows[0])
    } else {
        render_rows(rows.drop_last()) + row_separator() + render_row(rows.last())
    }
}

impl Grid {
    /// The complete frame: every row, then the reset directive. A grid
    /// without columns has nothing to paint, so its frame is the reset
    /// directive alone, however many rows it counts.
    pub open spec fn render(self) -> Seq<char> {
        if self.width == 0 {
            reset_directive()
        } else {
            render_rows(self.rows) + reset_directive()
        }
    }

    /// How many row separators the frame holds: one between each two
    /// neighbouring rows, and none where the grid has no cell at all.
    pub open spec fn separators(self) -> nat {
        if self.width == 0 || self.height == 0 {
            0
        } else {
            (self.height - 1) as nat
        }
    }
}

/// The character for the digit `d`.
fn digit_char(d: u8) -> (c: char)
    requires
        d < 10,
    ensures
        c == digit(d as nat),
{
    (48u8 + d) as char
}

/// `String::push` of the standard library appends the given character to
/// the end of the string: the characters held before stay in place and the
/// new one follows them.
pub assume_specification[ String::push ](s: &mut String, ch: char)
    ensures
        final(s)@ == old(s)@.push(ch),
;

/// Appends the decimal numeral of `n`.
fn push_decimal(out: &mut String, n: u8)
    ensures
        final(out)@ == old(out)@ + decimal(n as nat),
{
    if n >= 100 {
        out.push(digit_char(n / 100));
    }
    if n >= 10 {
        out.push(digit_char((n / 10) % 10));
    }
    out.push(digit_char(n % 10));
    proof {
        reveal_with_fuel(decimal, 3);
        assert(out@ =~= old(out)@ + decimal(n as nat));
    }
}

/// Appends `r;g;b` for the colour `c`.
fn push_rgb(out: &mut String, c: Color)
    ensures
        final(out)@ == old(out)@ + rgb_params(c),
{
    push_decimal(out, c.0);
    out.append(";");
    push_decimal(out, c.1);
    out.append(";");
    push_decimal(out, c.2);
    assert(out@ =~= old(out)@ + rgb_params(c));
}

/// Appends the wire form of one cell.
fn push_cell(out: &mut String, c: Cell)
    ensures
        final(out)@ == old(out)@ + render_cell(c),
{
    out.append("\x1b[38;2;");
    push_rgb(out, c.fg);
    out.append("m");
    out.append("\x1b[48;2;");
    push_rgb(out, c.bg);
    out.append("m");
    out.push(c.glyph);
    assert(out@ =~= old(out)@ + render_cell(c));
}

impl Terminal {
    /// Serialises the whole buffer into one frame.
    ///
    /// Rows are written top to bottom and the cells of a row left to right.
    /// Each cell contributes its foreground directive, its background
    /// directive and its glyph. Rows are separated by a line break, and the
    /// frame ends with the reset directive so that no colour outlives it.
    /// A buffer without cells gives the reset directive alone. The buffer
    /// is only read.
    pub fn render(&self) -> (frame: String)
        ensures
            frame@ == self@.render(),
    {
        let width: usize = self.width();
        let height: usize = self.height();
        proof {
            self.lemma_view_wf();
        }
        let mut out = String::new();
        if width == 0 {
            out.append("\x1b[m");
            return out;
        }
        let mut y: usize = 0;
        while y < height
            invariant
                y <= height,
                width == self@.width,
                height == self@.height,
                self@.wf(),
                out@ == render_rows(self@.rows.take(y as int)),
            decreases height - y,
        {
            if y > 0 {
                out.push('\n');
            }
            let ghost before = out@;
            let ghost row = self@.rows[y as int];
            let mut x: usize = 0;
            while x < width
                invariant
                    x <= width,
                    y < height,
                    width == self@.width,
                    height == self@.height,
                    self@.wf(),
                    row == self@.rows[y as int],
                    out@ == before + render_row(row.take(x as int)),
                decreases width - x,
            {
                let c = self.cell_at(x, y);
                push_cell(&mut out, c);
                proof {
                    assert(row.take(x + 1).drop_last() =~= row.take(x as int));
                }
                x = x + 1;
            }
            proof {
                let rows = self@.rows;
                assert(row.take(width as int) =~= row);
                assert(rows.take(y + 1).drop_last() =~= rows.take(y as int));
            }
            y = y + 1;
        }
        assert(self@.rows.take(height as int) =~= self@.rows);
        out.append("\x1b[m");
        out
    }
}

} // verus!
