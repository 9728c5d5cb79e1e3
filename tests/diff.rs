use ratatui::backend::TestBackend;
use ratatui::buffer::Buffer;
use ratatui::diff::DrawInstruction;
use ratatui::geometry::Rect;
use ratatui::style::{Color, Style};

fn instr(x: u16, y: u16, fg: Color, content: &str) -> DrawInstruction {
    DrawInstruction { x, y, fg, bg: Color::Reset, modifier: 0, content: content.to_string() }
}

#[test]
fn identical_buffers_give_no_instruction() {
    let a = Buffer::with_lines(vec!["hello", "world"]);
    let b = a.clone();
    let d = a.diff(&b);
    assert!(d.instructions.is_empty());
    assert!(!d.resized);
}

#[test]
fn one_changed_cell_gives_one_instruction() {
    let a = Buffer::empty(Rect::new(0, 0, 6, 3));
    let mut b = a.clone();
    b.set_string(4, 1, "x", Style::new());
    let d = a.diff(&b);
    assert_eq!(d.instructions, vec![instr(4, 1, Color::Reset, "x")]);
}

#[test]
fn adjacent_changes_in_one_style_form_a_run() {
    let a = Buffer::empty(Rect::new(0, 0, 8, 2));
    let mut b = a.clone();
    b.set_string(1, 0, "abc", Style::new());
    b.set_string(5, 0, "de", Style::new().fg(Color::Red));
    b.set_string(7, 0, "f", Style::new().fg(Color::Red));
    let d = a.diff(&b);
    assert_eq!(
        d.instructions,
        vec![instr(1, 0, Color::Reset, "abc"), instr(5, 0, Color::Red, "def")]
    );
}

#[test]
fn a_style_change_starts_a_new_run() {
    let a = Buffer::empty(Rect::new(0, 0, 4, 1));
    let mut b = a.clone();
    b.set_string(0, 0, "ab", Style::new());
    b.set_string(2, 0, "cd", Style::new().bg(Color::Blue));
    let d = a.diff(&b);
    assert_eq!(d.instructions.len(), 2);
    assert_eq!(d.instructions[1].bg, Color::Blue);
    assert_eq!(d.instructions[1].content, "cd");
}

#[test]
fn runs_stop_at_the_end_of_a_row() {
    let a = Buffer::empty(Rect::new(0, 0, 3, 2));
    let b = Buffer::with_lines(vec!["xyz", "uvw"]);
    let d = a.diff(&b);
    assert_eq!(
        d.instructions,
        vec![instr(0, 0, Color::Reset, "xyz"), instr(0, 1, Color::Reset, "uvw")]
    );
}

#[test]
fn a_changed_area_repaints_everything() {
    let a = Buffer::with_lines(vec!["ab"]);
    let b = Buffer::with_lines(vec!["ab", "cd"]);
    let d = a.diff(&b);
    assert!(d.resized);
    assert_eq!(
        d.instructions,
        vec![instr(0, 0, Color::Reset, "ab"), instr(0, 1, Color::Reset, "cd")]
    );
}

#[test]
fn wide_glyphs_carry_their_continuation() {
    let a = Buffer::empty(Rect::new(0, 0, 5, 1));
    let mut b = a.clone();
    b.set_string(0, 0, "a世b", Style::new());
    assert_eq!(b.get(1, 0).symbol, "世");
    assert!(b.get(2, 0).continuation);
    assert_eq!(b.get(3, 0).symbol, "b");
    let d = a.diff(&b);
    assert_eq!(d.instructions, vec![instr(0, 0, Color::Reset, "a世b")]);
}

#[test]
fn replaying_a_diff_reproduces_the_frame() {
    let before = Buffer::with_lines(vec!["one  ", "two  "]);
    let mut after = before.clone();
    after.set_string(1, 0, "XY", Style::new().fg(Color::Green));
    after.set_string(3, 1, "zz", Style::new());
    let mut screen = TestBackend::new(5, 2);
    screen.screen = before.clone();
    screen.apply(&before.diff(&after).instructions);
    assert_eq!(screen.screen, after);
}

#[test]
fn replaying_onto_a_wide_frame_reproduces_it() {
    let before = Buffer::empty(Rect::new(0, 0, 6, 1));
    let mut after = before.clone();
    after.set_string(0, 0, "x世yz", Style::new().fg(Color::Cyan));
    let mut screen = TestBackend::new(6, 1);
    screen.apply(&before.diff(&after).instructions);
    assert_eq!(screen.screen, after);
}
