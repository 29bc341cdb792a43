use screen_buffer::{Cell, Color, Terminal};

const BLACK: Color = Color(0, 0, 0);
const RED: Color = Color(255, 0, 0);
const BLUE: Color = Color(0, 0, 255);

fn blank() -> Cell {
    Cell { glyph: ' ', fg: BLACK, bg: BLACK }
}

fn snapshot(t: &Terminal) -> Vec<Option<Cell>> {
    let mut cells = Vec::new();
    for y in 0..t.height() {
        for x in 0..t.width() {
            cells.push(t.get(x, y));
        }
    }
    cells
}

#[test]
fn new_buffer_has_reported_size() {
    let t = Terminal::new(80, 24);
    assert_eq!(t.width(), 80);
    assert_eq!(t.height(), 24);
}

#[test]
fn new_buffer_is_blank_black_on_black() {
    let t = Terminal::new(4, 3);
    for y in 0..3 {
        for x in 0..4 {
            assert_eq!(t.get(x, y), Some(blank()));
        }
    }
}

#[test]
fn blank_cell_is_a_space_with_given_colors() {
    assert_eq!(Cell::blank(RED, BLUE), Cell { glyph: ' ', fg: RED, bg: BLUE });
}

#[test]
fn largest_reported_width_is_accepted() {
    let t = Terminal::new(65535, 1);
    assert_eq!(t.width(), 65535);
    assert_eq!(t.height(), 1);
    assert_eq!(t.get(65534, 0), Some(blank()));
    assert_eq!(t.get(65535, 0), None);
}

#[test]
fn is_valid_coords_matches_the_rectangle() {
    let t = Terminal::new(3, 2);
    assert!(t.is_valid_coords(0, 0));
    assert!(t.is_valid_coords(2, 1));
    assert!(!t.is_valid_coords(3, 0));
    assert!(!t.is_valid_coords(0, 2));
    assert!(!t.is_valid_coords(3, 2));
    assert!(!t.is_valid_coords(usize::MAX, usize::MAX));
}

#[test]
fn get_outside_is_none() {
    let t = Terminal::new(3, 2);
    assert_eq!(t.get(3, 0), None);
    assert_eq!(t.get(0, 2), None);
    assert_eq!(t.get(usize::MAX, 0), None);
}

#[test]
fn set_char_changes_glyph_and_keeps_colors() {
    let mut t = Terminal::new(3, 2);
    t.set_color_char(2, 1, 'a', RED, BLUE);
    t.set_char(2, 1, 'b');
    assert_eq!(t.get(2, 1), Some(Cell { glyph: 'b', fg: RED, bg: BLUE }));
}

#[test]
fn set_char_leaves_other_cells_alone() {
    let mut t = Terminal::new(3, 2);
    t.set_char(1, 1, 'q');
    for y in 0..2 {
        for x in 0..3 {
            let expected = if (x, y) == (1, 1) { Cell { glyph: 'q', fg: BLACK, bg: BLACK } } else { blank() };
            assert_eq!(t.get(x, y), Some(expected));
        }
    }
}

#[test]
fn set_pixel_behaves_as_set_char() {
    let mut a = Terminal::new(3, 2);
    let mut b = Terminal::new(3, 2);
    a.set_fg(0, 1, RED);
    b.set_fg(0, 1, RED);
    a.set_pixel(0, 1, '#');
    b.set_char(0, 1, '#');
    assert_eq!(snapshot(&a), snapshot(&b));
    assert_eq!(a.get(0, 1), Some(Cell { glyph: '#', fg: RED, bg: BLACK }));
}

#[test]
fn set_color_char_updates_all_three_fields() {
    let mut t = Terminal::new(3, 2);
    t.set_color_char(0, 1, 'Z', Color(1, 2, 3), Color(4, 5, 6));
    assert_eq!(t.get(0, 1), Some(Cell { glyph: 'Z', fg: Color(1, 2, 3), bg: Color(4, 5, 6) }));
}

#[test]
fn set_color_char_leaves_other_cells_alone() {
    let mut t = Terminal::new(3, 2);
    t.set_color_char(1, 0, 'X', RED, BLUE);
    for y in 0..2 {
        for x in 0..3 {
            if (x, y) != (1, 0) {
                assert_eq!(t.get(x, y), Some(blank()));
            }
        }
    }
}

#[test]
fn rows_and_columns_are_not_swapped() {
    let mut t = Terminal::new(4, 2);
    t.set_char(3, 0, 'r');
    t.set_char(0, 1, 'l');
    assert_eq!(t.get(3, 0).map(|c| c.glyph), Some('r'));
    assert_eq!(t.get(0, 1).map(|c| c.glyph), Some('l'));
    assert_eq!(t.get(1, 0).map(|c| c.glyph), Some(' '));
    assert_eq!(t.get(3, 1).map(|c| c.glyph), Some(' '));
}

#[test]
fn set_fg_changes_only_the_foreground() {
    let mut t = Terminal::new(2, 2);
    t.set_color_char(1, 1, 'k', RED, BLUE);
    t.set_fg(1, 1, Color(9, 8, 7));
    assert_eq!(t.get(1, 1), Some(Cell { glyph: 'k', fg: Color(9, 8, 7), bg: BLUE }));
    assert_eq!(t.get(0, 0), Some(blank()));
}

#[test]
fn set_bg_changes_only_the_background() {
    let mut t = Terminal::new(2, 2);
    t.set_color_char(1, 1, 'k', RED, BLUE);
    t.set_bg(1, 1, Color(9, 8, 7));
    assert_eq!(t.get(1, 1), Some(Cell { glyph: 'k', fg: RED, bg: Color(9, 8, 7) }));
    assert_eq!(t.get(0, 0), Some(blank()));
}

#[test]
fn writes_outside_leave_the_buffer_unchanged() {
    let mut t = Terminal::new(3, 2);
    t.set_color_char(1, 0, 'X', RED, BLUE);
    t.set_color_char(2, 1, 'Y', BLUE, RED);
    let cells = snapshot(&t);
    let frame = t.render();
    for &(x, y) in &[(3, 0), (0, 2), (3, 2), (1, 2), (3, 1), (usize::MAX, 0), (0, usize::MAX), (usize::MAX, usize::MAX)] {
        t.set_char(x, y, '!');
        t.set_pixel(x, y, '!');
        t.set_color_char(x, y, '!', Color(7, 7, 7), Color(8, 8, 8));
        t.set_fg(x, y, Color(7, 7, 7));
        t.set_bg(x, y, Color(8, 8, 8));
        assert_eq!(snapshot(&t), cells);
        assert_eq!(t.render(), frame);
    }
}

#[test]
fn clear_with_resets_every_cell_to_the_given_colors() {
    let mut t = Terminal::new(3, 2);
    t.set_color_char(1, 0, 'X', RED, BLUE);
    t.set_char(2, 1, 'y');
    t.clear_with(Color(10, 20, 30), Color(40, 50, 60));
    assert_eq!(t.width(), 3);
    assert_eq!(t.height(), 2);
    for y in 0..2 {
        for x in 0..3 {
            assert_eq!(t.get(x, y), Some(Cell { glyph: ' ', fg: Color(10, 20, 30), bg: Color(40, 50, 60) }));
        }
    }
}

#[test]
fn clear_with_twice_is_the_same_as_once() {
    let mut t = Terminal::new(3, 2);
    t.set_color_char(1, 0, 'X', RED, BLUE);
    t.clear_with(RED, BLUE);
    let once = snapshot(&t);
    let frame = t.render();
    t.clear_with(RED, BLUE);
    assert_eq!(snapshot(&t), once);
    assert_eq!(t.render(), frame);
}

#[test]
fn clear_resets_to_black() {
    let mut t = Terminal::new(3, 2);
    t.set_color_char(1, 0, 'X', RED, BLUE);
    t.set_bg(0, 0, RED);
    t.clear();
    assert_eq!(snapshot(&t), snapshot(&Terminal::new(3, 2)));
    assert_eq!(t.get(1, 0), Some(blank()));
}

#[test]
fn buffer_without_columns_or_rows_has_no_cells() {
    for &(columns, rows) in &[(0u16, 0u16), (0, 4), (5, 0)] {
        let mut t = Terminal::new(columns, rows);
        assert_eq!(t.width(), columns as usize);
        assert_eq!(t.height(), rows as usize);
        assert_eq!(t.get(0, 0), None);
        assert!(!t.is_valid_coords(0, 0));
        let frame = t.render();
        t.set_char(0, 0, 'a');
        t.set_pixel(0, 0, 'a');
        t.set_color_char(0, 0, 'a', RED, BLUE);
        t.set_fg(0, 0, RED);
        t.set_bg(0, 0, BLUE);
        t.clear();
        t.clear_with(RED, BLUE);
        assert_eq!(t.get(0, 0), None);
        assert_eq!(t.render(), frame);
    }
}
