use ratatui::buffer::{glyph_columns, str_width, Buffer, Cell};
use ratatui::geometry::Rect;
use ratatui::style::{Color, Style, BOLD, ITALIC};

#[test]
fn set_string_stops_at_the_edge() {
    let mut b = Buffer::empty(Rect::new(0, 0, 4, 1));
    b.set_string(2, 0, "abc", Style::new());
    assert_eq!(b, Buffer::with_lines(vec!["  ab"]));
}

#[test]
fn set_string_outside_the_buffer_does_nothing() {
    let mut b = Buffer::empty(Rect::new(2, 2, 4, 1));
    b.set_string(0, 2, "abc", Style::new());
    b.set_string(2, 3, "abc", Style::new());
    assert_eq!(b, Buffer::empty(Rect::new(2, 2, 4, 1)));
}

#[test]
fn set_stringn_limits_the_width() {
    let mut b = Buffer::empty(Rect::new(0, 0, 5, 1));
    b.set_stringn(0, 0, "abcdef", 2, Style::new());
    assert_eq!(b, Buffer::with_lines(vec!["ab   "]));
}

#[test]
fn a_wide_glyph_that_does_not_fit_is_not_written() {
    let mut b = Buffer::empty(Rect::new(0, 0, 3, 1));
    b.set_string(0, 0, "a世世", Style::new());
    assert_eq!(b.get(1, 0).symbol, "世");
    assert_eq!(b.get(2, 0).symbol, "");
    let mut c = Buffer::empty(Rect::new(0, 0, 2, 1));
    c.set_string(1, 0, "世", Style::new());
    assert_eq!(c, Buffer::empty(Rect::new(0, 0, 2, 1)));
}

#[test]
fn control_characters_are_skipped() {
    let mut b = Buffer::empty(Rect::new(0, 0, 3, 1));
    b.set_string(0, 0, "a\tb\u{7f}c", Style::new());
    assert_eq!(b, Buffer::with_lines(vec!["abc"]));
}

#[test]
fn glyph_widths() {
    assert_eq!(glyph_columns('a'), 1);
    assert_eq!(glyph_columns('\n'), 0);
    assert_eq!(glyph_columns('世'), 2);
    assert_eq!(glyph_columns('\u{301}'), 0);
    assert_eq!(str_width("a世b"), 4);
}

#[test]
fn styles_patch_cells() {
    let mut b = Buffer::empty(Rect::new(0, 0, 2, 1));
    b.set_string(0, 0, "x", Style::new().fg(Color::Red).add_modifier(BOLD | ITALIC));
    b.set_string(0, 0, "y", Style::new().bg(Color::Blue).remove_modifier(ITALIC));
    let c = b.get(0, 0);
    assert_eq!(c.symbol, "y");
    assert_eq!(c.fg, Color::Red);
    assert_eq!(c.bg, Color::Blue);
    assert_eq!(c.modifier, BOLD);
}

#[test]
fn with_lines_takes_the_widest_line() {
    let b = Buffer::with_lines(vec!["a", "世界", ""]);
    assert_eq!(b.area, Rect::new(0, 0, 4, 3));
    assert_eq!(b.content.len(), 12);
    assert_eq!(b.get(0, 2).symbol, " ");
}

#[test]
fn reset_blanks_every_cell() {
    let mut b = Buffer::with_lines(vec!["ab", "cd"]);
    b.reset();
    assert_eq!(b, Buffer::empty(Rect::new(0, 0, 2, 2)));
    assert_eq!(Cell::blank().symbol, " ");
}

#[test]
fn resize_keeps_overlapping_cells() {
    let mut b = Buffer::with_lines(vec!["abc", "def"]);
    b.resize(Rect::new(1, 1, 3, 2));
    assert_eq!(b.area, Rect::new(1, 1, 3, 2));
    assert_eq!(b.get(1, 1).symbol, "e");
    assert_eq!(b.get(2, 1).symbol, "f");
    assert_eq!(b.get(3, 1).symbol, " ");
    assert_eq!(b.get(1, 2).symbol, " ");
    assert_eq!(b.content.len(), 6);
}

#[test]
fn merge_copies_cells_of_the_overlap() {
    let mut b = Buffer::with_lines(vec!["....", "...."]);
    let mut top = Buffer::empty(Rect::new(2, 1, 5, 1));
    top.set_string(2, 1, "xyzuv", Style::new());
    b.merge(&top);
    assert_eq!(b, Buffer::with_lines(vec!["....", "..xy"]));
}

#[test]
fn set_style_touches_only_the_area() {
    let mut b = Buffer::with_lines(vec!["ab", "cd"]);
    b.set_style(Rect::new(1, 0, 5, 5), Style::new().fg(Color::Yellow));
    assert_eq!(b.get(0, 0).fg, Color::Reset);
    assert_eq!(b.get(1, 0).fg, Color::Yellow);
    assert_eq!(b.get(1, 1).fg, Color::Yellow);
    assert_eq!(b.get(0, 1).fg, Color::Reset);
    assert_eq!(b.get(1, 1).symbol, "d");
}
