use ratatui::backend::{Backend, BackendError, ClearType, TestBackend};
use ratatui::buffer::Buffer;
use ratatui::geometry::{Position, Rect};
use ratatui::scrollbar::{Scrollbar, ScrollbarOrientation, ScrollbarState};
use ratatui::style::Style;
use ratatui::terminal::{CursorState, Terminal};

#[test]
fn a_frame_reaches_the_screen() {
    let mut t = Terminal::new(TestBackend::new(6, 2)).unwrap();
    assert_eq!(t.area(), Rect::new(0, 0, 6, 2));
    t.set_string(1, 0, "hi", Style::new());
    t.draw_frame(CursorState::At(Position::new(3, 1))).unwrap();
    assert_eq!(t.backend.screen, Buffer::with_lines(vec![" hi   ", "      "]));
    assert_eq!(t.backend.cursor, Position::new(3, 1));
    assert!(t.backend.cursor_visible);
    assert_eq!(t.previous, Buffer::with_lines(vec![" hi   ", "      "]));
    assert_eq!(t.current, Buffer::empty(Rect::new(0, 0, 6, 2)));
}

#[test]
fn an_unchanged_frame_sends_nothing() {
    let mut t = Terminal::new(TestBackend::new(4, 1)).unwrap();
    t.set_string(0, 0, "ab", Style::new());
    t.draw_frame(CursorState::Hidden).unwrap();
    t.set_string(0, 0, "ab", Style::new());
    assert!(t.pending().instructions.is_empty());
    t.set_string(0, 0, "ac", Style::new());
    assert_eq!(t.pending().instructions.len(), 1);
    assert!(!t.backend.cursor_visible);
}

#[test]
fn widgets_render_through_the_terminal() {
    let mut t = Terminal::new(TestBackend::new(8, 1)).unwrap();
    let bar = Scrollbar::new(ScrollbarOrientation::HorizontalBottom);
    let mut state = ScrollbarState::new(16);
    let area = t.area();
    t.render_stateful_widget(&bar, area, &mut state);
    t.draw_frame(CursorState::Hidden).unwrap();
    assert_eq!(t.backend.screen, Buffer::with_lines(vec!["◄██════►"]));
}

#[test]
fn resizing_starts_over_blank() {
    let mut t = Terminal::new(TestBackend::new(4, 1)).unwrap();
    t.set_string(0, 0, "ab", Style::new());
    t.resize(Rect::new(0, 0, 2, 2)).unwrap();
    assert_eq!(t.current, Buffer::empty(Rect::new(0, 0, 2, 2)));
    assert!(t.autoresize().unwrap());
    assert!(!t.autoresize().unwrap());
    assert_eq!(t.area(), Rect::new(0, 0, 4, 1));
}

#[test]
fn only_a_full_clear_is_supported_by_default() {
    let mut b = TestBackend::new(2, 1);
    assert!(b.clear_region(ClearType::All).is_ok());
    match b.clear_region(ClearType::AfterCursor) {
        Err(BackendError::Unsupported(ClearType::AfterCursor)) => {}
        other => panic!("unexpected {:?}", other),
    }
    assert_eq!(b.window_size().unwrap().columns_rows.width, 2);
}

struct FailingBackend {
    inner: TestBackend,
    fail_draw: bool,
}

impl Backend for FailingBackend {
    fn draw(&mut self, instructions: &Vec<ratatui::diff::DrawInstruction>) -> Result<(), BackendError> {
        if self.fail_draw {
            return Err(BackendError::Io(std::io::Error::new(std::io::ErrorKind::BrokenPipe, "gone")));
        }
        self.inner.draw(instructions)
    }
    fn hide_cursor(&mut self) -> Result<(), BackendError> {
        self.inner.hide_cursor()
    }
    fn show_cursor(&mut self) -> Result<(), BackendError> {
        self.inner.show_cursor()
    }
    fn get_cursor(&mut self) -> Result<Position, BackendError> {
        self.inner.get_cursor()
    }
    fn set_cursor(&mut self, x: u16, y: u16) -> Result<(), BackendError> {
        self.inner.set_cursor(x, y)
    }
    fn clear(&mut self) -> Result<(), BackendError> {
        self.inner.clear()
    }
    fn size(&self) -> Result<Rect, BackendError> {
        self.inner.size()
    }
    fn window_size(&mut self) -> Result<ratatui::backend::WindowSize, BackendError> {
        self.inner.window_size()
    }
    fn flush(&mut self) -> Result<(), BackendError> {
        self.inner.flush()
    }
}

#[test]
fn a_device_failure_keeps_the_previous_frame() {
    let backend = FailingBackend { inner: TestBackend::new(3, 1), fail_draw: true };
    let mut t = Terminal::new(backend).unwrap();
    t.set_string(0, 0, "abc", Style::new());
    match t.draw_frame(CursorState::Hidden) {
        Err(BackendError::Io(e)) => assert_eq!(e.kind(), std::io::ErrorKind::BrokenPipe),
        other => panic!("unexpected {:?}", other),
    }
    assert_eq!(t.previous, Buffer::empty(Rect::new(0, 0, 3, 1)));
    t.backend.fail_draw = false;
    t.draw_frame(CursorState::Hidden).unwrap();
    assert_eq!(t.backend.inner.screen, Buffer::with_lines(vec!["abc"]));
}
