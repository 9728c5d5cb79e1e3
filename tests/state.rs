use ratatui::scrollbar::{ScrollDirection, ScrollbarState};

#[test]
fn next_stops_at_the_last_item() {
    let mut s = ScrollbarState::new(3);
    s.next();
    s.next();
    s.next();
    assert_eq!(s.position, 2);
    s.scroll(ScrollDirection::Backward);
    assert_eq!(s.position, 1);
    s.last();
    assert_eq!(s.position, 2);
    s.first();
    assert_eq!(s.position, 0);
    s.prev();
    assert_eq!(s.position, 0);
}

#[test]
fn empty_content_keeps_position_at_zero() {
    let mut s = ScrollbarState::new(0).position(0);
    s.scroll(ScrollDirection::Forward);
    assert_eq!(s.position, 0);
    s.last();
    assert_eq!(s.position, 0);
}

#[test]
fn builders_set_fields() {
    let s = ScrollbarState::default().content_length(10).position(4).viewport_content_length(3);
    assert_eq!(s, ScrollbarState { content_length: 10, position: 4, viewport_content_length: 3 });
}
