use ratatui::buffer::Buffer;
use ratatui::geometry::Rect;
use ratatui::style::{Color, Style};
use ratatui::scrollbar::{
    double_horizontal, horizontal, vertical, ParseError, ScrollDirection, Scrollbar,
    ScrollbarOrientation, ScrollbarState,
};

#[test]
fn test_debug() {
    let content_length = 100;
    for p in 0..content_length {
        let mut buffer = Buffer::empty(Rect::new(0, 0, 50, 1));
        let mut state = ScrollbarState::default()
            .position(p)
            .content_length(content_length);
        Scrollbar::default()
            .orientation(ScrollbarOrientation::HorizontalBottom)
            .begin_symbol(None)
            .end_symbol(None)
            .render(buffer.area, &mut buffer, &mut state);
        println!("{:?}", buffer);
    }
}

#[test]
fn scroll_direction_to_string() {
    assert_eq!(ScrollDirection::Forward.to_string(), "Forward");
    assert_eq!(ScrollDirection::Backward.to_string(), "Backward");
}

#[test]
fn scroll_direction_from_str() {
    assert_eq!(
        "Forward".parse::<ScrollDirection>(),
        Ok(ScrollDirection::Forward)
    );
    assert_eq!(
        "Backward".parse::<ScrollDirection>(),
        Ok(ScrollDirection::Backward)
    );
    assert_eq!(
        "".parse::<ScrollDirection>(),
        Err(ParseError::VariantNotFound)
    );
}

#[test]
fn scrollbar_orientation_to_string() {
    assert_eq!(
        ScrollbarOrientation::VerticalRight.to_string(),
        "VerticalRight"
    );
    assert_eq!(
        ScrollbarOrientation::VerticalLeft.to_string(),
        "VerticalLeft"
    );
    assert_eq!(
        ScrollbarOrientation::HorizontalBottom.to_string(),
        "HorizontalBottom"
    );
    assert_eq!(
        ScrollbarOrientation::HorizontalTop.to_string(),
        "HorizontalTop"
    );
}

#[test]
fn scrollbar_orientation_from_str() {
    assert_eq!(
        "VerticalRight".parse::<ScrollbarOrientation>(),
        Ok(ScrollbarOrientation::VerticalRight)
    );
    assert_eq!(
        "VerticalLeft".parse::<ScrollbarOrientation>(),
        Ok(ScrollbarOrientation::VerticalLeft)
    );
    assert_eq!(
        "HorizontalBottom".parse::<ScrollbarOrientation>(),
        Ok(ScrollbarOrientation::HorizontalBottom)
    );
    assert_eq!(
        "HorizontalTop".parse::<ScrollbarOrientation>(),
        Ok(ScrollbarOrientation::HorizontalTop)
    );
    assert_eq!(
        "".parse::<ScrollbarOrientation>(),
        Err(ParseError::VariantNotFound)
    );
}

#[test]
fn test_no_render_when_area_zero() {
    let mut buffer = Buffer::empty(Rect::new(0, 0, 0, 0));
    let mut state = ScrollbarState::default().position(0).content_length(1);
    Scrollbar::default().render(buffer.area, &mut buffer, &mut state);
    assert_eq!(buffer, Buffer::empty(buffer.area));
}

#[test]
fn test_no_render_when_height_zero_with_without_arrows() {
    let mut buffer = Buffer::empty(Rect::new(0, 0, 3, 0));
    let mut state = ScrollbarState::default().position(0).content_length(1);
    Scrollbar::default().render(buffer.area, &mut buffer, &mut state);
    assert_eq!(buffer, Buffer::empty(buffer.area));

    let mut buffer = Buffer::empty(Rect::new(0, 0, 3, 0));
    let mut state = ScrollbarState::default().position(0).content_length(1);
    Scrollbar::default()
        .begin_symbol(None)
        .end_symbol(None)
        .render(buffer.area, &mut buffer, &mut state);
    assert_eq!(buffer, Buffer::empty(buffer.area));
}

#[test]
fn test_no_render_when_height_too_small_for_arrows() {
    let mut buffer = Buffer::empty(Rect::new(0, 0, 4, 2));
    let mut state = ScrollbarState::default().position(0).content_length(1);
    Scrollbar::default().render(buffer.area, &mut buffer, &mut state);
    assert_eq!(buffer, Buffer::with_lines(vec!["    ", "    "]));
}

#[test]
fn test_renders_all_thumbs_at_minimum_height_without_arrows() {
    let mut buffer = Buffer::empty(Rect::new(0, 0, 4, 2));
    let mut state = ScrollbarState::default().position(0).content_length(1);
    Scrollbar::default()
        .begin_symbol(None)
        .end_symbol(None)
        .render(buffer.area, &mut buffer, &mut state);
    assert_eq!(buffer, Buffer::with_lines(vec!["   █", "   █"]));
}

#[test]
fn test_renders_all_thumbs_at_minimum_height_and_minimum_width_without_arrows() {
    let mut buffer = Buffer::empty(Rect::new(0, 0, 1, 2));
    let mut state = ScrollbarState::default().position(0).content_length(1);
    Scrollbar::default()
        .begin_symbol(None)
        .end_symbol(None)
        .render(buffer.area, &mut buffer, &mut state);
    assert_eq!(buffer, Buffer::with_lines(vec!["█", "█"]));
}

#[test]
fn test_renders_two_arrows_one_thumb_at_minimum_height_with_arrows() {
    let mut buffer = Buffer::empty(Rect::new(0, 0, 4, 3));
    let mut state = ScrollbarState::default().position(0).content_length(1);
    Scrollbar::default().render(buffer.area, &mut buffer, &mut state);
    assert_eq!(buffer, Buffer::with_lines(vec!["   ▲", "   █", "   ▼"]));
}

#[test]
fn test_no_render_when_content_length_zero() {
    let mut buffer = Buffer::empty(Rect::new(0, 0, 2, 2));
    let mut state = ScrollbarState::default().position(0).content_length(0);
    Scrollbar::default().render(buffer.area, &mut buffer, &mut state);
    assert_eq!(buffer, Buffer::with_lines(vec!["  ", "  "]));
}

#[test]
fn test_renders_single_vertical_thumb_when_content_length_square_of_height() {
    for i in 0..=17 {
        let mut buffer = Buffer::empty(Rect::new(0, 0, 2, 4));
        let mut state = ScrollbarState::default().position(i).content_length(16);
        Scrollbar::default()
            .begin_symbol(None)
            .end_symbol(None)
            .render(buffer.area, &mut buffer, &mut state);
        let expected = if i <= 2 {
            vec![" █", " ║", " ║", " ║"]
        } else if i <= 7 {
            vec![" ║", " █", " ║", " ║"]
        } else if i <= 13 {
            vec![" ║", " ║", " █", " ║"]
        } else {
            vec![" ║", " ║", " ║", " █"]
        };
        assert_eq!(buffer, Buffer::with_lines(expected.clone()));
    }
}

#[test]
fn test_renders_single_horizontal_thumb_when_content_length_square_of_width() {
    for i in 0..=17 {
        let mut buffer = Buffer::empty(Rect::new(0, 0, 4, 2));
        let mut state = ScrollbarState::default().position(i).content_length(16);
        Scrollbar::default()
            .begin_symbol(None)
            .end_symbol(None)
            .orientation(ScrollbarOrientation::HorizontalBottom)
            .render(buffer.area, &mut buffer, &mut state);
        let expected = if i <= 2 {
            vec!["    ", "█═══"]
        } else if i <= 7 {
            vec!["    ", "═█══"]
        } else if i <= 13 {
            vec!["    ", "══█═"]
        } else {
            vec!["    ", "═══█"]
        };
        assert_eq!(buffer, Buffer::with_lines(expected.clone()));
    }
}

#[test]
fn test_renders_one_thumb_for_large_content_relative_to_height() {
    let mut buffer = Buffer::empty(Rect::new(0, 0, 4, 2));
    let mut state = ScrollbarState::default().position(0).content_length(1600);
    Scrollbar::default()
        .begin_symbol(None)
        .end_symbol(None)
        .orientation(ScrollbarOrientation::HorizontalBottom)
        .render(buffer.area, &mut buffer, &mut state);
    let expected = vec!["    ", "█═══"];
    assert_eq!(buffer, Buffer::with_lines(expected.clone()));

    let mut buffer = Buffer::empty(Rect::new(0, 0, 4, 2));
    let mut state = ScrollbarState::default().position(800).content_length(1600);
    Scrollbar::default()
        .begin_symbol(None)
        .end_symbol(None)
        .orientation(ScrollbarOrientation::HorizontalBottom)
        .render(buffer.area, &mut buffer, &mut state);
    let expected = vec!["    ", "══█═"];
    assert_eq!(buffer, Buffer::with_lines(expected.clone()));
}

#[test]
fn test_renders_two_thumb_default_symbols_for_content_double_height() {
    for i in 0..=7 {
        let mut buffer = Buffer::empty(Rect::new(0, 0, 2, 4));
        let mut state = ScrollbarState::default().position(i).content_length(8);
        Scrollbar::default()
            .begin_symbol(None)
            .end_symbol(None)
            .render(buffer.area, &mut buffer, &mut state);
        let expected = if i <= 1 {
            vec![" █", " █", " ║", " ║"]
        } else if i <= 5 {
            vec![" ║", " █", " █", " ║"]
        } else {
            vec![" ║", " ║", " █", " █"]
        };
        assert_eq!(buffer, Buffer::with_lines(expected.clone()));
    }
}

#[test]
fn test_renders_two_thumb_custom_symbols_for_content_double_height() {
    for i in 0..=7 {
        let mut buffer = Buffer::empty(Rect::new(0, 0, 2, 4));
        let mut state = ScrollbarState::default().position(i).content_length(8);
        Scrollbar::default()
            .symbols(vertical())
            .begin_symbol(None)
            .end_symbol(None)
            .render(buffer.area, &mut buffer, &mut state);
        let expected = if i <= 1 {
            vec![" █", " █", " │", " │"]
        } else if i <= 5 {
            vec![" │", " █", " █", " │"]
        } else {
            vec![" │", " │", " █", " █"]
        };
        assert_eq!(buffer, Buffer::with_lines(expected.clone()));
    }
}

#[test]
fn test_renders_two_thumb_default_symbols_for_content_double_width() {
    for i in 0..=7 {
        let mut buffer = Buffer::empty(Rect::new(0, 0, 4, 2));
        let mut state = ScrollbarState::default().position(i).content_length(8);
        Scrollbar::default()
            .orientation(ScrollbarOrientation::HorizontalBottom)
            .begin_symbol(None)
            .end_symbol(None)
            .render(buffer.area, &mut buffer, &mut state);
        let expected = if i <= 1 {
            vec!["    ", "██══"]
        } else if i <= 5 {
            vec!["    ", "═██═"]
        } else {
            vec!["    ", "══██"]
        };
        assert_eq!(buffer, Buffer::with_lines(expected.clone()));
    }
}

#[test]
fn test_renders_two_thumb_custom_symbols_for_content_double_width() {
    for i in 0..=7 {
        let mut buffer = Buffer::empty(Rect::new(0, 0, 4, 2));
        let mut state = ScrollbarState::default().position(i).content_length(8);
        Scrollbar::default()
            .orientation(ScrollbarOrientation::HorizontalBottom)
            .symbols(horizontal())
            .begin_symbol(None)
            .end_symbol(None)
            .render(buffer.area, &mut buffer, &mut state);
        let expected = if i <= 1 {
            vec!["    ", "██──"]
        } else if i <= 5 {
            vec!["    ", "─██─"]
        } else {
            vec!["    ", "──██"]
        };
        assert_eq!(buffer, Buffer::with_lines(expected.clone()));
    }
}

#[test]
fn test_rendering_viewport_content_length() {
    for i in 0..=16 {
        let mut buffer = Buffer::empty(Rect::new(0, 0, 8, 2));
        let mut state = ScrollbarState::default()
            .position(i)
            .content_length(16)
            .viewport_content_length(4);
        Scrollbar::default()
            .orientation(ScrollbarOrientation::HorizontalBottom)
            .begin_symbol(Some(double_horizontal().begin))
            .end_symbol(Some(double_horizontal().end))
            .render(buffer.area, &mut buffer, &mut state);
        let expected = if i <= 1 {
            vec!["        ", "◄██════►"]
        } else if i <= 5 {
            vec!["        ", "◄═██═══►"]
        } else if i <= 9 {
            vec!["        ", "◄══██══►"]
        } else if i <= 13 {
            vec!["        ", "◄═══██═►"]
        } else {
            vec!["        ", "◄════██►"]
        };
        assert_eq!(buffer, Buffer::with_lines(expected.clone()));
    }

    for i in 0..=16 {
        let mut buffer = Buffer::empty(Rect::new(0, 0, 8, 2));
        let mut state = ScrollbarState::default()
            .position(i)
            .content_length(16)
            .viewport_content_length(1);
        Scrollbar::default()
            .orientation(ScrollbarOrientation::HorizontalBottom)
            .begin_symbol(Some(double_horizontal().begin))
            .end_symbol(Some(double_horizontal().end))
            .render(buffer.area, &mut buffer, &mut state);
        let expected = if i <= 1 {
            vec!["        ", "◄█═════►"]
        } else if i <= 4 {
            vec!["        ", "◄═█════►"]
        } else if i <= 7 {
            vec!["        ", "◄══█═══►"]
        } else if i <= 11 {
            vec!["        ", "◄═══█══►"]
        } else if i <= 14 {
            vec!["        ", "◄════█═►"]
        } else {
            vec!["        ", "◄═════█►"]
        };
        assert_eq!(buffer, Buffer::with_lines(expected.clone()));
    }
}

#[test]
fn test_rendering_begin_end_arrows_horizontal_bottom() {
    for i in 0..=16 {
        let mut buffer = Buffer::empty(Rect::new(0, 0, 8, 2));
        let mut state = ScrollbarState::default().position(i).content_length(16);
        Scrollbar::default()
            .orientation(ScrollbarOrientation::HorizontalBottom)
            .begin_symbol(Some(double_horizontal().begin))
            .end_symbol(Some(double_horizontal().end))
            .render(buffer.area, &mut buffer, &mut state);
        let expected = if i <= 1 {
            vec!["        ", "◄██════►"]
        } else if i <= 5 {
            vec!["        ", "◄═██═══►"]
        } else if i <= 9 {
            vec!["        ", "◄══██══►"]
        } else if i <= 13 {
            vec!["        ", "◄═══██═►"]
        } else {
            vec!["        ", "◄════██►"]
        };
        assert_eq!(buffer, Buffer::with_lines(expected.clone()));
    }
}

#[test]
fn test_rendering_begin_end_arrows_horizontal_top() {
    for i in 0..=16 {
        let mut buffer = Buffer::empty(Rect::new(0, 0, 8, 2));
        let mut state = ScrollbarState::default().position(i).content_length(16);
        Scrollbar::default()
            .orientation(ScrollbarOrientation::HorizontalTop)
            .begin_symbol(Some(double_horizontal().begin))
            .end_symbol(Some(double_horizontal().end))
            .render(buffer.area, &mut buffer, &mut state);
        let expected = if i <= 1 {
            vec!["◄██════►", "        "]
        } else if i <= 5 {
            vec!["◄═██═══►", "        "]
        } else if i <= 9 {
            vec!["◄══██══►", "        "]
        } else if i <= 13 {
            vec!["◄═══██═►", "        "]
        } else {
            vec!["◄════██►", "        "]
        };
        assert_eq!(buffer, Buffer::with_lines(expected.clone()));
    }
}

#[test]
fn test_rendering_only_begin_arrow_horizontal_bottom() {
    for i in 0..=16 {
        let mut buffer = Buffer::empty(Rect::new(0, 0, 8, 2));
        let mut state = ScrollbarState::default().position(i).content_length(16);
        Scrollbar::default()
            .orientation(ScrollbarOrientation::HorizontalBottom)
            .begin_symbol(Some(double_horizontal().begin))
            .end_symbol(None)
            .render(buffer.area, &mut buffer, &mut state);
        let expected = if i <= 1 {
            vec!["        ", "◄███════"]
        } else if i <= 5 {
            vec!["        ", "◄═███═══"]
        } else if i <= 9 {
            vec!["        ", "◄══███══"]
        } else if i <= 13 {
            vec!["        ", "◄═══███═"]
        } else {
            vec!["        ", "◄════███"]
        };
        assert_eq!(buffer, Buffer::with_lines(expected.clone()));
    }
}

#[test]
fn test_rendering_without_track_horizontal_bottom() {
    for i in 0..=16 {
        let mut buffer = Buffer::empty(Rect::new(0, 0, 8, 2));
        let mut state = ScrollbarState::default().position(i).content_length(16);
        Scrollbar::default()
            .orientation(ScrollbarOrientation::HorizontalBottom)
            .track_symbol(None)
            .render(buffer.area, &mut buffer, &mut state);
        let expected = if i <= 1 {
            vec!["        ", "◄██    ►"]
        } else if i <= 5 {
            vec!["        ", "◄ ██   ►"]
        } else if i <= 9 {
            vec!["        ", "◄  ██  ►"]
        } else if i <= 13 {
            vec!["        ", "◄   ██ ►"]
        } else {
            vec!["        ", "◄    ██►"]
        };
        assert_eq!(buffer, Buffer::with_lines(expected.clone()));
    }
}

#[test]
fn thumb_moves_with_the_position() {
    for (p, expected) in [(0usize, "█═════════"), (20, "══█═══════"), (40, "════█═════"), (99, "═════════█")] {
        let mut buffer = Buffer::empty(Rect::new(0, 0, 10, 1));
        let state = ScrollbarState::new(100).position(p);
        Scrollbar::new(ScrollbarOrientation::HorizontalTop)
            .begin_symbol(None)
            .end_symbol(None)
            .render(buffer.area, &mut buffer, &state);
        assert_eq!(buffer, Buffer::with_lines(vec![expected]));
    }
}

#[test]
fn vertical_left_uses_the_first_column() {
    let mut buffer = Buffer::empty(Rect::new(0, 0, 2, 4));
    let state = ScrollbarState::new(2);
    Scrollbar::new(ScrollbarOrientation::VerticalLeft).render(buffer.area, &mut buffer, &state);
    assert_eq!(buffer, Buffer::with_lines(vec!["▲ ", "█ ", "║ ", "▼ "]));
}

#[test]
fn style_sets_every_part() {
    let s = Style::new().fg(Color::Red);
    let bar = Scrollbar::default().style(s);
    assert_eq!(bar.thumb_style, s);
    assert_eq!(bar.track_style, s);
    assert_eq!(bar.begin_style, s);
    assert_eq!(bar.end_style, s);
    let bar = Scrollbar::default().track_symbol(None).symbols(horizontal());
    assert_eq!(bar.track_symbol, None);
    assert_eq!(bar.begin_symbol, Some("←"));
}

#[test]
fn test_rendering_thumb_half_with_symbols() {
    let mut buffer = Buffer::empty(Rect::new(0, 0, 10, 1));
    let mut state = ScrollbarState::default().position(0).content_length(10);
    Scrollbar::default()
        .orientation(ScrollbarOrientation::HorizontalBottom)
        .begin_symbol(Some(" "))
        .end_symbol(Some(" "))
        .render(buffer.area, &mut buffer, &mut state);
    //             "1234567890"
    let expected = " ████════ ";
    assert_eq!(buffer, Buffer::with_lines(vec![expected]));

    let mut buffer = Buffer::empty(Rect::new(0, 0, 10, 1));
    let mut state = ScrollbarState::default().position(5).content_length(10);
    Scrollbar::default()
        .orientation(ScrollbarOrientation::HorizontalBottom)
        .begin_symbol(Some(" "))
        .end_symbol(Some(" "))
        .render(buffer.area, &mut buffer, &mut state);
    let expected = " ══████══ ";
    assert_eq!(buffer, Buffer::with_lines(vec![expected]));

    let mut buffer = Buffer::empty(Rect::new(0, 0, 10, 1));
    let mut state = ScrollbarState::default().position(10).content_length(10);
    Scrollbar::default()
        .orientation(ScrollbarOrientation::HorizontalBottom)
        .begin_symbol(Some(" "))
        .end_symbol(Some(" "))
        .render(buffer.area, &mut buffer, &mut state);
    let expected = " ════████ ";
    assert_eq!(buffer, Buffer::with_lines(vec![expected]));
}

#[test]
fn test_rendering_thumb_half() {
    let mut buffer = Buffer::empty(Rect::new(0, 0, 10, 1));
    let mut state = ScrollbarState::default().position(0).content_length(10);
    Scrollbar::default()
        .orientation(ScrollbarOrientation::HorizontalBottom)
        .begin_symbol(None)
        .end_symbol(None)
        .render(buffer.area, &mut buffer, &mut state);
    //             "1234567890"
    let expected = "█████═════";
    assert_eq!(buffer, Buffer::with_lines(vec![expected]));

    let mut buffer = Buffer::empty(Rect::new(0, 0, 10, 1));
    let mut state = ScrollbarState::default().position(5).content_length(10);
    Scrollbar::default()
        .orientation(ScrollbarOrientation::HorizontalBottom)
        .begin_symbol(None)
        .end_symbol(None)
        .render(buffer.area, &mut buffer, &mut state);
    //             "1234567890"
    let expected = "═══█████══";
    assert_eq!(buffer, Buffer::with_lines(vec![expected]));

    let mut buffer = Buffer::empty(Rect::new(0, 0, 10, 1));
    let mut state = ScrollbarState::default().position(10).content_length(10);
    Scrollbar::default()
        .orientation(ScrollbarOrientation::HorizontalBottom)
        .begin_symbol(None)
        .end_symbol(None)
        .render(buffer.area, &mut buffer, &mut state);
    //             "1234567890"
    let expected = "═════█████";
    assert_eq!(buffer, Buffer::with_lines(vec![expected]));
}

#[test]
fn thumb_keeps_the_track_colors_it_does_not_set() {
    let mut buffer = Buffer::empty(Rect::new(0, 0, 4, 1));
    let state = ScrollbarState::new(8);
    Scrollbar::new(ScrollbarOrientation::HorizontalBottom)
        .begin_symbol(None)
        .end_symbol(None)
        .track_style(Style::new().bg(Color::Blue))
        .thumb_style(Style::new().fg(Color::Red))
        .render(buffer.area, &mut buffer, &state);
    let thumb = buffer.get(0, 0);
    assert_eq!(thumb.symbol, "█");
    assert_eq!(thumb.fg, Color::Red);
    assert_eq!(thumb.bg, Color::Blue);
    assert_eq!(buffer.get(3, 0).symbol, "═");
    assert_eq!(buffer.get(3, 0).fg, Color::Reset);
}
