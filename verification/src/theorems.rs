//! What holds of every grid, proved once over the model.
//!
//! The executable operations promise results in terms of [`Grid`]; the
//! theorems here spell out what those results mean cell by cell.

use vstd::prelude::*;
use crate::cell::{Cell, Color};
use crate::grid::Grid;
use crate::render::{
    bg_directive, decimal, fg_directive, render_cell, render_row, render_rows, reset_directive,
    rgb_params, row_separator,
};

verus! {

/// Replacing the cell at a position inside the grid puts exactly that cell
/// there, keeps the grid's size and shape, and leaves every other position
/// as it was.
pub proof fn theorem_put_inside(g: Grid, x: int, y: int, c: Cell)
    requires
        g.wf(),
        g.in_bounds(x, y),
    ensures
        g.put(x, y, c).wf(),
        g.put(x, y, c).width == g.width,
        g.put(x, y, c).height == g.height,
        g.put(x, y, c).cell(x, y) == c,
        forall|i: int, j: int|
            g.in_bounds(i, j) && (i != x || j != y) ==> #[trigger] g.put(x, y, c).cell(i, j)
                == g.cell(i, j),
{
    let p = g.put(x, y, c);
    assert forall|j: int| 0 <= j < p.height implies (#[trigger] p.rows[j]).len() == p.width by {
        assert(g.rows[j].len() == g.width);
    }
}

/// Writing a glyph at a position inside the grid gives that cell the new
/// glyph, keeps both of its colours, and leaves every other position as it
/// was.
pub proof fn theorem_glyph_write(g: Grid, x: int, y: int, glyph: char)
    requires
        g.wf(),
        g.in_bounds(x, y),
    ensures
        g.with_glyph(x, y, glyph).wf(),
        g.with_glyph(x, y, glyph).width == g.width,
        g.with_glyph(x, y, glyph).height == g.height,
        g.with_glyph(x, y, glyph).cell(x, y).glyph == glyph,
        g.with_glyph(x, y, glyph).cell(x, y).fg == g.cell(x, y).fg,
        g.with_glyph(x, y, glyph).cell(x, y).bg == g.cell(x, y).bg,
        forall|i: int, j: int|
            g.in_bounds(i, j) && (i != x || j != y) ==> #[trigger] g.with_glyph(x, y, glyph).cell(
                i,
                j,
            ) == g.cell(i, j),
{
    theorem_put_inside(g, x, y, Cell { glyph, ..g.cell(x, y) });
}

/// Writing a glyph together with both colours at a position inside the
/// grid replaces all three fields of that cell at once and leaves every
/// other position as it was.
pub proof fn theorem_color_glyph_write(g: Grid, x: int, y: int, glyph: char, fg: Color, bg: Color)
    requires
        g.wf(),
        g.in_bounds(x, y),
    ensures
        g.put(x, y, (Cell { glyph, fg, bg })).wf(),
        g.put(x, y, (Cell { glyph, fg, bg })).width == g.width,
        g.put(x, y, (Cell { glyph, fg, bg })).height == g.height,
        g.put(x, y, (Cell { glyph, fg, bg })).cell(x, y).glyph == glyph,
        g.put(x, y, (Cell { glyph, fg, bg })).cell(x, y).fg == fg,
        g.put(x, y, (Cell { glyph, fg, bg })).cell(x, y).bg == bg,
        forall|i: int, j: int|
            g.in_bounds(i, j) && (i != x || j != y) ==> #[trigger] g.put(
                x,
                y,
                (Cell { glyph, fg, bg }),
            ).cell(i, j) == g.cell(i, j),
{
    theorem_put_inside(g, x, y, Cell { glyph, fg, bg });
}

/// Writing one colour layer at a position inside the grid changes that
/// layer of that cell only.
pub proof fn theorem_color_write(g: Grid, x: int, y: int, color: Color)
    requires
        g.wf(),
        g.in_bounds(x, y),
    ensures
        g.with_fg(x, y, color).wf(),
        g.with_fg(x, y, color).cell(x, y) == (Cell { fg: color, ..g.cell(x, y) }),
        forall|i: int, j: int|
            g.in_bounds(i, j) && (i != x || j != y) ==> #[trigger] g.with_fg(x, y, color).cell(i, j)
                == g.cell(i, j),
        g.with_bg(x, y, color).wf(),
        g.with_bg(x, y, color).cell(x, y) == (Cell { bg: color, ..g.cell(x, y) }),
        forall|i: int, j: int|
            g.in_bounds(i, j) && (i != x || j != y) ==> #[trigger] g.with_bg(x, y, color).cell(i, j)
                == g.cell(i, j),
{
    theorem_put_inside(g, x, y, Cell { fg: color, ..g.cell(x, y) });
    theorem_put_inside(g, x, y, Cell { bg: color, ..g.cell(x, y) });
}

/// A write aimed at a position outside the grid changes nothing, whichever
/// of the write operations it is and whatever it carries.
pub proof fn theorem_write_outside(g: Grid, x: int, y: int, c: Cell)
    requires
        !g.in_bounds(x, y),
    ensures
        g.put(x, y, c) == g,
        g.with_glyph(x, y, c.glyph) == g,
        g.with_fg(x, y, c.fg) == g,
        g.with_bg(x, y, c.bg) == g,
{
}

/// A blank grid has the size it was asked for and holds the blank cell of
/// the given colours at every position.
pub proof fn theorem_blank(width: nat, height: nat, fg: Color, bg: Color)
    ensures
        Grid::blank(width, height, fg, bg).wf(),
        Grid::blank(width, height, fg, bg).width == width,
        Grid::blank(width, height, fg, bg).height == height,
        forall|x: int, y: int| #[trigger]
            Grid::blank(width, height, fg, bg).in_bounds(x, y) ==> Grid::blank(
                width,
                height,
                fg,
                bg,
            ).cell(x, y) == Cell::blank_spec(fg, bg),
{
}

/// Clearing keeps the size of the grid and leaves the blank cell of the
/// given colours at every position; clearing a second time with the same
/// colours changes nothing more.
pub proof fn theorem_clear(g: Grid, fg: Color, bg: Color)
    ensures
        g.cleared(fg, bg).wf(),
        g.cleared(fg, bg).width == g.width,
        g.cleared(fg, bg).height == g.height,
        forall|x: int, y: int| #[trigger]
            g.in_bounds(x, y) ==> g.cleared(fg, bg).cell(x, y) == Cell::blank_spec(fg, bg),
        g.cleared(fg, bg).cleared(fg, bg) == g.cleared(fg, bg),
{
    theorem_blank(g.width, g.height, fg, bg);
}

/// A grid without columns or without rows has no position at all, so every
/// write to it is ignored.
pub proof fn theorem_empty_grid(g: Grid)
    requires
        g.width == 0 || g.height == 0,
    ensures
        forall|x: int, y: int| !#[trigger] g.in_bounds(x, y),
        forall|x: int, y: int, c: Cell| #[trigger] g.put(x, y, c) == g,
        forall|x: int, y: int, glyph: char| #[trigger] g.with_glyph(x, y, glyph) == g,
        forall|x: int, y: int, color: Color| #[trigger] g.with_fg(x, y, color) == g,
        forall|x: int, y: int, color: Color| #[trigger] g.with_bg(x, y, color) == g,
{
}

/// Two grids of the same size that hold the same cell at every position
/// render to the same frame.
pub proof fn theorem_same_cells_same_frame(a: Grid, b: Grid)
    requires
        a.wf(),
        b.wf(),
        a.width == b.width,
        a.height == b.height,
        forall|x: int, y: int| #[trigger] a.in_bounds(x, y) ==> a.cell(x, y) == b.cell(x, y),
    ensures
        a.render() == b.render(),
{
    assert forall|y: int| 0 <= y < a.height implies #[trigger] a.rows[y] == b.rows[y] by {
        assert forall|x: int| 0 <= x < a.width implies a.rows[y][x] == #[trigger] b.rows[y][x] by {
            assert(a.in_bounds(x, y));
        }
        assert(a.rows[y] =~= b.rows[y]);
    }
    assert(a.rows =~= b.rows);
}

/// How many times the character `c` occurs in `s`.
pub open spec fn occurrences(s: Seq<char>, c: char) -> nat
    decreases s.len(),
{
    if s.len() == 0 {
        0
    } else {
        occurrences(s.drop_last(), c) + if s.last() == c {
            1nat
        } else {
            0nat
        }
    }
}

/// The glyphs of a row, from left to right.
pub open spec fn glyphs(row: Seq<Cell>) -> Seq<char> {
    Seq::new(row.len(), |x: int| row[x].glyph)
}

/// How many cells of the given rows hold a line break as their glyph.
pub open spec fn line_break_glyphs(rows: Seq<Seq<Cell>>) -> nat
    decreases rows.len(),
{
    if rows.len() == 0 {
        0
    } else {
        line_break_glyphs(rows.drop_last()) + occurrences(glyphs(rows.last()), '\n')
    }
}

/// A grid without columns or without rows renders to the reset directive
/// alone: its frame holds no cell and no row separator.
pub proof fn theorem_empty_frame(g: Grid)
    requires
        g.wf(),
        g.width == 0 || g.height == 0,
    ensures
        g.render() == reset_directive(),
{
    if g.width != 0 {
        assert(g.render() =~= reset_directive());
    }
}

proof fn lemma_occurrences_concat(a: Seq<char>, b: Seq<char>, c: char)
    ensures
        occurrences(a + b, c) == occurrences(a, c) + occurrences(b, c),
    decreases b.len(),
{
    if b.len() == 0 {
        assert(a + b =~= a);
    } else {
        assert((a + b).drop_last() =~= a + b.drop_last());
        lemma_occurrences_concat(a, b.drop_last(), c);
    }
}

proof fn lemma_occurrences_absent(s: Seq<char>, c: char)
    requires
        forall|i: int| 0 <= i < s.len() ==> s[i] != c,
    ensures
        occurrences(s, c) == 0,
    decreases s.len(),
{
    if s.len() > 0 {
        lemma_occurrences_absent(s.drop_last(), c);
    }
}

proof fn lemma_decimal_has_no_line_break(n: nat)
    ensures
        occurrences(decimal(n), '\n') == 0,
    decreases n,
{
    if n < 10 {
        lemma_occurrences_absent(decimal(n), '\n');
    } else {
        lemma_decimal_has_no_line_break(n / 10);
        assert(decimal(n).drop_last() =~= decimal(n / 10));
    }
}

proof fn lemma_directives_have_no_line_break(c: Color)
    ensures
        occurrences(fg_directive(c), '\n') == 0,
        occurrences(bg_directive(c), '\n') == 0,
{
    reveal_strlit("\x1b[38;2;");
    reveal_strlit("\x1b[48;2;");
    reveal_strlit(";");
    reveal_strlit("m");
    let nl = '\n';
    lemma_occurrences_absent("\x1b[38;2;"@, nl);
    lemma_occurrences_absent("\x1b[48;2;"@, nl);
    lemma_occurrences_absent(";"@, nl);
    lemma_occurrences_absent("m"@, nl);
    lemma_decimal_has_no_line_break(c.0 as nat);
    lemma_decimal_has_no_line_break(c.1 as nat);
    lemma_decimal_has_no_line_break(c.2 as nat);
    let r = decimal(c.0 as nat);
    let g = decimal(c.1 as nat);
    let b = decimal(c.2 as nat);
    lemma_occurrences_concat(r, ";"@, nl);
    lemma_occurrences_concat(r + ";"@, g, nl);
    lemma_occurrences_concat(r + ";"@ + g, ";"@, nl);
    lemma_occurrences_concat(r + ";"@ + g + ";"@, b, nl);
    lemma_occurrences_concat("\x1b[38;2;"@, rgb_params(c), nl);
    lemma_occurrences_concat("\x1b[38;2;"@ + rgb_params(c), "m"@, nl);
    lemma_occurrences_concat("\x1b[48;2;"@, rgb_params(c), nl);
    lemma_occurrences_concat("\x1b[48;2;"@ + rgb_params(c), "m"@, nl);
}

proof fn lemma_row_line_breaks(row: Seq<Cell>)
    ensures
        occurrences(render_row(row), '\n') == occurrences(glyphs(row), '\n'),
    decreases row.len(),
{
    if row.len() > 0 {
        let nl = '\n';
        let c = row.last();
        lemma_row_line_breaks(row.drop_last());
        assert(glyphs(row).drop_last() =~= glyphs(row.drop_last()));
        lemma_directives_have_no_line_break(c.fg);
        lemma_directives_have_no_line_break(c.bg);
        assert(occurrences(seq![c.glyph], nl) == if c.glyph == nl {
            1nat
        } else {
            0nat
        }) by {
            reveal_with_fuel(occurrences, 2);
        }
        lemma_occurrences_concat(fg_directive(c.fg), bg_directive(c.bg), nl);
        lemma_occurrences_concat(fg_directive(c.fg) + bg_directive(c.bg), seq![c.glyph], nl);
        lemma_occurrences_concat(render_row(row.drop_last()), render_cell(c), nl);
    }
}

proof fn lemma_rows_line_breaks(rows: Seq<Seq<Cell>>)
    ensures
        occurrences(render_rows(rows), '\n') == (if rows.len() == 0 {
            0
        } else {
            rows.len() - 1
        }) + line_break_glyphs(rows),
    decreases rows.len(),
{
    let nl = '\n';
    if rows.len() == 1 {
        lemma_row_line_breaks(rows[0]);
        assert(line_break_glyphs(rows.drop_last()) == 0);
    } else if rows.len() > 1 {
        lemma_rows_line_breaks(rows.drop_last());
        lemma_row_line_breaks(rows.last());
        assert(occurrences(row_separator(), nl) == 1) by {
            reveal_with_fuel(occurrences, 2);
        }
        lemma_occurrences_concat(render_rows(rows.drop_last()), row_separator(), nl);
        lemma_occurrences_concat(
            render_rows(rows.drop_last()) + row_separator(),
            render_row(rows.last()),
            nl,
        );
    }
}

proof fn lemma_no_line_break_glyphs(rows: Seq<Seq<Cell>>)
    requires
        forall|y: int, x: int|
            0 <= y < rows.len() && 0 <= x < rows[y].len() ==> (#[trigger] rows[y][x]).glyph != '\n',
    ensures
        line_break_glyphs(rows) == 0,
    decreases rows.len(),
{
    if rows.len() > 0 {
        let upper = rows.drop_last();
        assert forall|y: int, x: int| 0 <= y < upper.len() && 0 <= x < upper[y].len() implies (
        #[trigger] upper[y][x]).glyph != '\n' by {
            assert(upper[y] == rows[y]);
        }
        lemma_no_line_break_glyphs(upper);
        let last = rows.last();
        assert forall|x: int| 0 <= x < glyphs(last).len() implies glyphs(last)[x] != '\n' by {
            assert(last[x] == rows[rows.len() - 1][x]);
        }
        lemma_occurrences_absent(glyphs(last), '\n');
    }
}

/// The line breaks of a frame are its row separators and the glyphs that
/// are themselves line breaks. A grid with cells has one separator less
/// than it has rows; a grid without cells has none. So where no glyph is a
/// line break, the frame holds exactly as many line breaks as it has row
/// separators.
pub proof fn theorem_separator_count(g: Grid)
    requires
        g.wf(),
    ensures
        g.width >= 1 && g.height >= 1 ==> g.separators() == g.height - 1,
        g.width == 0 || g.height == 0 ==> g.separators() == 0,
        occurrences(g.render(), '\n') == g.separators() + line_break_glyphs(g.rows),
        (forall|x: int, y: int| #[trigger] g.in_bounds(x, y) ==> g.cell(x, y).glyph != '\n')
            ==> occurrences(g.render(), '\n') == g.separators(),
{
    let nl = '\n';
    reveal_strlit("\x1b[m");
    lemma_occurrences_absent(reset_directive(), nl);
    if g.width == 0 {
        lemma_no_line_break_glyphs(g.rows);
    } else {
        lemma_rows_line_breaks(g.rows);
        lemma_occurrences_concat(render_rows(g.rows), reset_directive(), nl);
        if forall|x: int, y: int| #[trigger] g.in_bounds(x, y) ==> g.cell(x, y).glyph != '\n' {
            assert forall|y: int, x: int|
                0 <= y < g.rows.len() && 0 <= x < g.rows[y].len() implies (
            #[trigger] g.rows[y][x]).glyph != '\n' by {
                assert(g.in_bounds(x, y));
            }
            lemma_no_line_break_glyphs(g.rows);
        }
    }
}

} // verus!
