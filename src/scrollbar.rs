//! A scrollbar widget: a track with a thumb that shows which part of some
//! scrollable content is in view, with optional arrows at both ends.
use vstd::prelude::*;
use crate::buffer::{room_at, same_text, write_run, Buffer, CellModel};
use crate::geometry::{min_int, Rect};
use crate::style::{no_style, Style};

verus! {

/// A direction to scroll in.
#[derive(Debug, Default, Clone, Copy, PartialEq, Eq, Hash, Structural)]
pub enum ScrollDirection {
    /// Down or to the right.
    #[default]
    Forward,
    /// Up or to the left.
    Backward,
}

/// A name that matches no variant.
#[derive(Debug, Clone, Copy, PartialEq, Eq, Hash, Structural)]
pub enum ParseError {
    VariantNotFound,
}

/// The scroll position within some content of a known length.
#[derive(Debug, Default, Clone, Copy, PartialEq, Eq, Hash, Structural)]
pub struct ScrollbarState {
    /// Total length of the scrollable content; zero draws nothing.
    pub content_length: usize,
    /// Current position within the content.
    pub position: usize,
    /// Length of the content in view; zero means the length of the track.
    pub viewport_content_length: usize,
}

/// Where the scrollbar stands around its area.
#[derive(Debug, Default, Clone, Copy, PartialEq, Eq, Hash, Structural)]
pub enum ScrollbarOrientation {
    /// On the right, scrolling vertically.
    #[default]
    VerticalRight,
    /// On the left, scrolling vertically.
    VerticalLeft,
    /// At the bottom, scrolling horizontally.
    HorizontalBottom,
    /// At the top, scrolling horizontally.
    HorizontalTop,
}

/// The symbols of a scrollbar's parts.
#[derive(Debug, Clone, Copy, PartialEq, Eq, Hash)]
pub struct SymbolSet {
    pub track: &'static str,
    pub thumb: &'static str,
    pub begin: &'static str,
    pub end: &'static str,
}

pub open spec fn double_vertical_set() -> SymbolSet {
    SymbolSet { track: "║", thumb: "█", begin: "▲", end: "▼" }
}

/// Double lines, arrows up and down.
pub fn double_vertical() -> (r: SymbolSet)
    ensures
        r == double_vertical_set(),
{
    SymbolSet { track: "║", thumb: "█", begin: "▲", end: "▼" }
}

pub open spec fn double_horizontal_set() -> SymbolSet {
    SymbolSet { track: "═", thumb: "█", begin: "◄", end: "►" }
}

/// Double lines, arrows left and right.
pub fn double_horizontal() -> (r: SymbolSet)
    ensures
        r == double_horizontal_set(),
{
    SymbolSet { track: "═", thumb: "█", begin: "◄", end: "►" }
}

pub open spec fn vertical_set() -> SymbolSet {
    SymbolSet { track: "│", thumb: "█", begin: "↑", end: "↓" }
}

/// Single lines, arrows up and down.
pub fn vertical() -> (r: SymbolSet)
    ensures
        r == vertical_set(),
{
    SymbolSet { track: "│", thumb: "█", begin: "↑", end: "↓" }
}

pub open spec fn horizontal_set() -> SymbolSet {
    SymbolSet { track: "─", thumb: "█", begin: "←", end: "→" }
}

/// Single lines, arrows left and right.
pub fn horizontal() -> (r: SymbolSet)
    ensures
        r == horizontal_set(),
{
    SymbolSet { track: "─", thumb: "█", begin: "←", end: "→" }
}

impl ScrollDirection {
    /// The variant's name.
    pub fn to_string(&self) -> (r: String)
        ensures
            r@ == match self {
                ScrollDirection::Forward => "Forward"@,
                ScrollDirection::Backward => "Backward"@,
            },
    {
        match self {
            ScrollDirection::Forward => String::from_str("Forward"),
            ScrollDirection::Backward => String::from_str("Backward"),
        }
    }

    /// The variant with the name `s`.
    pub fn from_name(s: &str) -> (r: Result<ScrollDirection, ParseError>)
        ensures
            r == if s@ == "Forward"@ {
                Ok(ScrollDirection::Forward)
            } else if s@ == "Backward"@ {
                Ok(ScrollDirection::Backward)
            } else {
                Err(ParseError::VariantNotFound)
            },
    {
        if same_text(s, "Forward") {
            Ok(ScrollDirection::Forward)
        } else if same_text(s, "Backward") {
            Ok(ScrollDirection::Backward)
        } else {
            Err(ParseError::VariantNotFound)
        }
    }
}

impl std::str::FromStr for ScrollDirection {
    type Err = ParseError;

    fn from_str(s: &str) -> Result<ScrollDirection, ParseError> {
        ScrollDirection::from_name(s)
    }
}

impl ScrollbarOrientation {
    /// The variant's name.
    pub fn to_string(&self) -> (r: String)
        ensures
            r@ == match self {
                ScrollbarOrientation::VerticalRight => "VerticalRight"@,
                ScrollbarOrientation::VerticalLeft => "VerticalLeft"@,
                ScrollbarOrientation::HorizontalBottom => "HorizontalBottom"@,
                ScrollbarOrientation::HorizontalTop => "HorizontalTop"@,
            },
    {
        match self {
            ScrollbarOrientation::VerticalRight => String::from_str("VerticalRight"),
            ScrollbarOrientation::VerticalLeft => String::from_str("VerticalLeft"),
            ScrollbarOrientation::HorizontalBottom => String::from_str("HorizontalBottom"),
            ScrollbarOrientation::HorizontalTop => String::from_str("HorizontalTop"),
        }
    }

    /// The variant with the name `s`.
    pub fn from_name(s: &str) -> (r: Result<ScrollbarOrientation, ParseError>)
        ensures
            r == if s@ == "VerticalRight"@ {
                Ok(ScrollbarOrientation::VerticalRight)
            } else if s@ == "VerticalLeft"@ {
                Ok(ScrollbarOrientation::VerticalLeft)
            } else if s@ == "HorizontalBottom"@ {
                Ok(ScrollbarOrientation::HorizontalBottom)
            } else if s@ == "HorizontalTop"@ {
                Ok(ScrollbarOrientation::HorizontalTop)
            } else {
                Err(ParseError::VariantNotFound)
            },
    {
        if same_text(s, "VerticalRight") {
            Ok(ScrollbarOrientation::VerticalRight)
        } else if same_text(s, "VerticalLeft") {
            Ok(ScrollbarOrientation::VerticalLeft)
        } else if same_text(s, "HorizontalBottom") {
            Ok(ScrollbarOrientation::HorizontalBottom)
        } else if same_text(s, "HorizontalTop") {
            Ok(ScrollbarOrientation::HorizontalTop)
        } else {
            Err(ParseError::VariantNotFound)
        }
    }

    pub open spec fn spec_is_vertical(self) -> bool {
        self is VerticalRight || self is VerticalLeft
    }
}

impl std::str::FromStr for ScrollbarOrientation {
    type Err = ParseError;

    fn from_str(s: &str) -> Result<ScrollbarOrientation, ParseError> {
        ScrollbarOrientation::from_name(s)
    }
}

impl ScrollbarState {
    /// A state for content of `content_length` items, at the start.
    pub fn new(content_length: usize) -> (r: ScrollbarState)
        ensures
            r == (ScrollbarState { content_length, position: 0, viewport_content_length: 0 }),
    {
        ScrollbarState { content_length, position: 0, viewport_content_length: 0 }
    }

    pub fn position(self, position: usize) -> (r: ScrollbarState)
        ensures
            r == (ScrollbarState { position, ..self }),
    {
        ScrollbarState { position, ..self }
    }

    pub fn content_length(self, content_length: usize) -> (r: ScrollbarState)
        ensures
            r == (ScrollbarState { content_length, ..self }),
    {
        ScrollbarState { content_length, ..self }
    }

    pub fn viewport_content_length(self, viewport_content_length: usize) -> (r: ScrollbarState)
        ensures
            r == (ScrollbarState { viewport_content_length, ..self }),
    {
        ScrollbarState { viewport_content_length, ..self }
    }

    /// One step back, not below zero.
    pub fn prev(&mut self)
        ensures
            *final(self) == (ScrollbarState {
                position: if old(self).position > 0 {
                    (old(self).position - 1) as usize
                } else {
                    0
                },
                ..*old(self)
            }),
    {
        self.position = self.position.saturating_sub(1);
    }

    /// One step forward, not past the last item.
    pub fn next(&mut self)
        ensures
            *final(self) == (ScrollbarState {
                position: min_int(
                    min_int(old(self).position + 1, usize::MAX as int),
                    if old(self).content_length > 0 {
                        old(self).content_length - 1
                    } else {
                        0
                    },
                ) as usize,
                ..*old(self)
            }),
    {
        let stepped = self.position.saturating_add(1);
        let last = self.content_length.saturating_sub(1);
        self.position = if stepped <= last {
            stepped
        } else {
            last
        };
    }

    /// To the start of the content.
    pub fn first(&mut self)
        ensures
            *final(self) == (ScrollbarState { position: 0, ..*old(self) }),
    {
        self.position = 0;
    }

    /// To the last item of the content.
    pub fn last(&mut self)
        ensures
            *final(self) == (ScrollbarState {
                position: if old(self).content_length > 0 {
                    (old(self).content_length - 1) as usize
                } else {
                    0
                },
                ..*old(self)
            }),
    {
        self.position = self.content_length.saturating_sub(1);
    }

    /// One step in `direction`.
    pub fn scroll(&mut self, direction: ScrollDirection)
        ensures
            *final(self) == (ScrollbarState {
                position: match direction {
                    ScrollDirection::Forward => min_int(
                        min_int(old(self).position + 1, usize::MAX as int),
                        if old(self).content_length > 0 {
                            old(self).content_length - 1
                        } else {
                            0
                        },
                    ) as usize,
                    ScrollDirection::Backward => if old(self).position > 0 {
                        (old(self).position - 1) as usize
                    } else {
                        0
                    },
                },
                ..*old(self)
            }),
    {
        match direction {
            ScrollDirection::Forward => self.next(),
            ScrollDirection::Backward => self.prev(),
        }
    }
}

/// A scrollbar: symbols and styles of its begin arrow, track, thumb and end
/// arrow, and where it stands. An arrow or the track set to `None` is not
/// drawn.
#[derive(Debug, Clone, PartialEq, Eq, Hash)]
pub struct Scrollbar<'a> {
    pub orientation: ScrollbarOrientation,
    pub thumb_style: Style,
    pub thumb_symbol: &'a str,
    pub track_style: Style,
    pub track_symbol: Option<&'a str>,
    pub begin_symbol: Option<&'a str>,
    pub begin_style: Style,
    pub end_symbol: Option<&'a str>,
    pub end_style: Style,
}


/// One more, stopping at the largest coordinate.
pub open spec fn inc(v: u16) -> u16 {
    if v < u16::MAX {
        (v + 1) as u16
    } else {
        v
    }
}

/// One less, stopping at zero.
pub open spec fn dec(v: u16) -> u16 {
    if v > 0 {
        (v - 1) as u16
    } else {
        0
    }
}

/// `a + b`, stopping at the largest coordinate.
pub open spec fn sum_capped(a: u16, b: u16) -> u16 {
    min_int(a + b, u16::MAX as int) as u16
}

impl<'a> Default for Scrollbar<'a> {
    fn default() -> (r: Scrollbar<'a>)
        ensures
            r.orientation == ScrollbarOrientation::VerticalRight,
            r.thumb_symbol@ == "█"@,
            r.track_symbol is Some && r.track_symbol->0@ == "║"@,
            r.begin_symbol is Some && r.begin_symbol->0@ == "▲"@,
            r.end_symbol is Some && r.end_symbol->0@ == "▼"@,
            r.thumb_style == no_style(),
            r.track_style == no_style(),
            r.begin_style == no_style(),
            r.end_style == no_style(),
    {
        let set = double_vertical();
        Scrollbar {
            orientation: ScrollbarOrientation::VerticalRight,
            thumb_symbol: set.thumb,
            thumb_style: Style::new(),
            track_symbol: Some(set.track),
            track_style: Style::new(),
            begin_symbol: Some(set.begin),
            begin_style: Style::new(),
            end_symbol: Some(set.end),
            end_style: Style::new(),
        }
    }
}

impl<'a> Scrollbar<'a> {
    pub open spec fn spec_is_vertical(&self) -> bool {
        self.orientation.spec_is_vertical()
    }

    /// `self` with the symbols of `set`; an arrow or track set to `None`
    /// stays `None`.
    pub open spec fn with_symbols(self, set: SymbolSet) -> Scrollbar<'a> {
        Scrollbar {
            thumb_symbol: set.thumb,
            track_symbol: if self.track_symbol is Some {
                Some(set.track)
            } else {
                None
            },
            begin_symbol: if self.begin_symbol is Some {
                Some(set.begin)
            } else {
                None
            },
            end_symbol: if self.end_symbol is Some {
                Some(set.end)
            } else {
                None
            },
            ..self
        }
    }

    /// A default scrollbar standing at `orientation`.
    pub fn new(orientation: ScrollbarOrientation) -> (r: Scrollbar<'a>)
        ensures
            r.orientation == orientation,
            r.thumb_symbol@ == "█"@,
            r.track_symbol is Some && r.begin_symbol is Some && r.end_symbol is Some,
            orientation.spec_is_vertical() ==> r.track_symbol->0@ == "║"@ && r.begin_symbol->0@
                == "▲"@ && r.end_symbol->0@ == "▼"@,
            !orientation.spec_is_vertical() ==> r.track_symbol->0@ == "═"@ && r.begin_symbol->0@
                == "◄"@ && r.end_symbol->0@ == "►"@,
            r.thumb_style == no_style() && r.track_style == no_style(),
            r.begin_style == no_style() && r.end_style == no_style(),
    {
        Scrollbar::default().orientation(orientation)
    }

    /// Moves the scrollbar to `orientation` and takes the double-line
    /// symbols that suit it.
    pub fn orientation(self, orientation: ScrollbarOrientation) -> (r: Scrollbar<'a>)
        ensures
            orientation.spec_is_vertical() ==> r == (Scrollbar { orientation, ..self }).with_symbols(
                double_vertical_set(),
            ),
            !orientation.spec_is_vertical() ==> r == (Scrollbar { orientation, ..self }).with_symbols(
                double_horizontal_set(),
            ),
    {
        let moved = Scrollbar { orientation, ..self };
        let set = if moved.is_vertical() {
            double_vertical()
        } else {
            double_horizontal()
        };
        moved.symbols(set)
    }

    /// Moves the scrollbar to `orientation` and takes the symbols of `set`.
    pub fn orientation_and_symbol(self, orientation: ScrollbarOrientation, set: SymbolSet) -> (r:
        Scrollbar<'a>)
        ensures
            r == (Scrollbar { orientation, ..self }).with_symbols(set),
    {
        Scrollbar { orientation, ..self }.symbols(set)
    }

    pub fn thumb_symbol(self, thumb_symbol: &'a str) -> (r: Scrollbar<'a>)
        ensures
            r == (Scrollbar { thumb_symbol, ..self }),
    {
        Scrollbar { thumb_symbol, ..self }
    }

    pub fn thumb_style(self, thumb_style: Style) -> (r: Scrollbar<'a>)
        ensures
            r == (Scrollbar { thumb_style, ..self }),
    {
        Scrollbar { thumb_style, ..self }
    }

    pub fn track_symbol(self, track_symbol: Option<&'a str>) -> (r: Scrollbar<'a>)
        ensures
            r == (Scrollbar { track_symbol, ..self }),
    {
        Scrollbar { track_symbol, ..self }
    }

    pub fn track_style(self, track_style: Style) -> (r: Scrollbar<'a>)
        ensures
            r == (Scrollbar { track_style, ..self }),
    {
        Scrollbar { track_style, ..self }
    }

    pub fn begin_symbol(self, begin_symbol: Option<&'a str>) -> (r: Scrollbar<'a>)
        ensures
            r == (Scrollbar { begin_symbol, ..self }),
    {
        Scrollbar { begin_symbol, ..self }
    }

    pub fn begin_style(self, begin_style: Style) -> (r: Scrollbar<'a>)
        ensures
            r == (Scrollbar { begin_style, ..self }),
    {
        Scrollbar { begin_style, ..self }
    }

    pub fn end_symbol(self, end_symbol: Option<&'a str>) -> (r: Scrollbar<'a>)
        ensures
            r == (Scrollbar { end_symbol, ..self }),
    {
        Scrollbar { end_symbol, ..self }
    }

    pub fn end_style(self, end_style: Style) -> (r: Scrollbar<'a>)
        ensures
            r == (Scrollbar { end_style, ..self }),
    {
        Scrollbar { end_style, ..self }
    }

    /// Takes the symbols of `set`; an arrow or track set to `None` stays
    /// `None`.
    pub fn symbols(self, set: SymbolSet) -> (r: Scrollbar<'a>)
        ensures
            r == self.with_symbols(set),
    {
        let track_symbol = if self.track_symbol.is_some() {
            Some(set.track)
        } else {
            None
        };
        let begin_symbol = if self.begin_symbol.is_some() {
            Some(set.begin)
        } else {
            None
        };
        let end_symbol = if self.end_symbol.is_some() {
            Some(set.end)
        } else {
            None
        };
        Scrollbar { thumb_symbol: set.thumb, track_symbol, begin_symbol, end_symbol, ..self }
    }

    /// The same style for every part.
    pub fn style(self, style: Style) -> (r: Scrollbar<'a>)
        ensures
            r == (Scrollbar {
                track_style: style,
                thumb_style: style,
                begin_style: style,
                end_style: style,
                ..self
            }),
    {
        Scrollbar {
            track_style: style,
            thumb_style: style,
            begin_style: style,
            end_style: style,
            ..self
        }
    }

    pub fn is_vertical(&self) -> (r: bool)
        ensures
            r == self.spec_is_vertical(),
    {
        match self.orientation {
            ScrollbarOrientation::VerticalRight | ScrollbarOrientation::VerticalLeft => true,
            ScrollbarOrientation::HorizontalBottom | ScrollbarOrientation::HorizontalTop => false,
        }
    }
}


impl<'a> Scrollbar<'a> {
    /// The part of `area` left to the track once the arrows take their cell.
    pub open spec fn track_area(&self, area: Rect) -> Rect {
        let a = if self.begin_symbol is Some {
            if self.spec_is_vertical() {
                Rect { y: inc(area.y), height: dec(area.height), ..area }
            } else {
                Rect { x: inc(area.x), width: dec(area.width), ..area }
            }
        } else {
            area
        };
        if self.end_symbol is Some {
            if self.spec_is_vertical() {
                Rect { height: dec(a.height), ..a }
            } else {
                Rect { width: dec(a.width), ..a }
            }
        } else {
            a
        }
    }

    /// First position of the track, one past its last, and the row or
    /// column that it runs along.
    pub open spec fn track_bounds(&self, area: Rect) -> (u16, u16, u16) {
        let t = self.track_area(area);
        match self.orientation {
            ScrollbarOrientation::VerticalRight => (
                t.y,
                sum_capped(t.y, t.height),
                dec(sum_capped(t.x, t.width)),
            ),
            ScrollbarOrientation::VerticalLeft => (t.y, sum_capped(t.y, t.height), t.x),
            ScrollbarOrientation::HorizontalBottom => (
                t.x,
                sum_capped(t.x, t.width),
                dec(sum_capped(t.y, t.height)),
            ),
            ScrollbarOrientation::HorizontalTop => (t.x, sum_capped(t.x, t.width), t.y),
        }
    }

    /// Length of the thumb on a track of `len` cells: the share of the track
    /// that the content in view has of the content and the view together,
    /// rounded up, at least one cell and at most the whole track.
    pub open spec fn thumb_len(len: nat, state: ScrollbarState) -> nat {
        let cl = state.content_length as nat;
        let vp: nat = if state.viewport_content_length == 0 {
            len
        } else {
            state.viewport_content_length as nat
        };
        let raw = ((len * vp + cl + vp - 1) / (cl + vp) as int) as nat;
        if raw < 1 {
            1
        } else if raw > len {
            len
        } else {
            raw
        }
    }

    /// Where the thumb starts on a track of `len` cells: the scrolled share
    /// of the content, rounded half up, of the track not taken by the thumb.
    pub open spec fn thumb_offset(len: nat, state: ScrollbarState) -> nat {
        let cl = state.content_length as nat;
        let p = min_int(state.position as int, cl as int);
        let room = len - Self::thumb_len(len, state);
        ((2 * p * room + cl) / (2 * cl as int)) as nat
    }

    /// The half-open range of track positions covered by the thumb.
    pub open spec fn thumb_span(&self, area: Rect, state: ScrollbarState) -> (int, int) {
        let b = self.track_bounds(area);
        let len = (b.1 - b.0) as nat;
        let start = b.0 + Self::thumb_offset(len, state);
        (start, start + Self::thumb_len(len, state))
    }

    /// `cells` after drawing `sym` at track position `i`.
    pub open spec fn paint_at(
        &self,
        cells: Seq<CellModel>,
        buf_area: Rect,
        axis: int,
        i: int,
        sym: Seq<char>,
        style: Style,
    ) -> Seq<CellModel> {
        if self.spec_is_vertical() {
            write_run(cells, buf_area, axis, i, sym, room_at(buf_area, axis, i, u16::MAX as int), style)
        } else {
            write_run(cells, buf_area, i, axis, sym, room_at(buf_area, i, axis, u16::MAX as int), style)
        }
    }

    /// `cells` after drawing the track symbol on the first `k` track
    /// positions; nothing when the track has no symbol.
    pub open spec fn painted_track(
        &self,
        cells: Seq<CellModel>,
        buf_area: Rect,
        area: Rect,
        k: int,
    ) -> Seq<CellModel>
        decreases k,
    {
        if k <= 0 {
            cells
        } else {
            let prev = self.painted_track(cells, buf_area, area, k - 1);
            let b = self.track_bounds(area);
            match self.track_symbol {
                Some(t) => self.paint_at(prev, buf_area, b.2 as int, b.0 + k - 1, t@, self.track_style),
                None => prev,
            }
        }
    }

    /// `cells` after drawing the thumb symbol on the first `k` positions of
    /// the thumb.
    pub open spec fn painted_thumb(
        &self,
        cells: Seq<CellModel>,
        buf_area: Rect,
        area: Rect,
        state: ScrollbarState,
        k: int,
    ) -> Seq<CellModel>
        decreases k,
    {
        if k <= 0 {
            cells
        } else {
            let prev = self.painted_thumb(cells, buf_area, area, state, k - 1);
            let b = self.track_bounds(area);
            let span = self.thumb_span(area, state);
            self.paint_at(
                prev,
                buf_area,
                b.2 as int,
                span.0 + k - 1,
                self.thumb_symbol@,
                self.thumb_style,
            )
        }
    }

    /// `cells` after drawing the arrows before and after the track.
    pub open spec fn painted_arrows(
        &self,
        cells: Seq<CellModel>,
        buf_area: Rect,
        area: Rect,
    ) -> Seq<CellModel> {
        let b = self.track_bounds(area);
        let c = match self.begin_symbol {
            Some(s) => self.paint_at(cells, buf_area, b.2 as int, dec(b.0) as int, s@, self.begin_style),
            None => cells,
        };
        match self.end_symbol {
            Some(s) => self.paint_at(c, buf_area, b.2 as int, b.1 as int, s@, self.end_style),
            None => c,
        }
    }

    /// Whether anything is drawn: there must be content and room for a track.
    pub open spec fn draws(&self, area: Rect, state: ScrollbarState) -> bool {
        let b = self.track_bounds(area);
        b.1 > b.0 && state.content_length > 0
    }

    /// `cells` after drawing the whole scrollbar over `area`: the track,
    /// then the thumb over it, then the arrows.
    pub open spec fn rendered(
        &self,
        cells: Seq<CellModel>,
        buf_area: Rect,
        area: Rect,
        state: ScrollbarState,
    ) -> Seq<CellModel> {
        if self.draws(area, state) {
            let b = self.track_bounds(area);
            let span = self.thumb_span(area, state);
            let c1 = self.painted_track(cells, buf_area, area, b.1 - b.0);
            let c2 = self.painted_thumb(c1, buf_area, area, state, span.1 - span.0);
            self.painted_arrows(c2, buf_area, area)
        } else {
            cells
        }
    }

    /// First position of the track, one past its last, and the row or
    /// column that it runs along.
    fn get_track_info(&self, area: Rect) -> (r: (u16, u16, u16))
        ensures
            r == self.track_bounds(area),
            r.0 <= r.1,
    {
        let vertical = self.is_vertical();
        let mut t = area;
        if self.begin_symbol.is_some() {
            if vertical {
                t.y = t.y.saturating_add(1);
                t.height = t.height.saturating_sub(1);
            } else {
                t.x = t.x.saturating_add(1);
                t.width = t.width.saturating_sub(1);
            }
        }
        if self.end_symbol.is_some() {
            if vertical {
                t.height = t.height.saturating_sub(1);
            } else {
                t.width = t.width.saturating_sub(1);
            }
        }
        assert(t == self.track_area(area));
        match self.orientation {
            ScrollbarOrientation::VerticalRight => (
                t.y,
                t.y.saturating_add(t.height),
                t.x.saturating_add(t.width).saturating_sub(1),
            ),
            ScrollbarOrientation::VerticalLeft => (t.y, t.y.saturating_add(t.height), t.x),
            ScrollbarOrientation::HorizontalBottom => (
                t.x,
                t.x.saturating_add(t.width),
                t.y.saturating_add(t.height).saturating_sub(1),
            ),
            ScrollbarOrientation::HorizontalTop => (t.x, t.x.saturating_add(t.width), t.y),
        }
    }

    /// The row or column that the track runs along.
    fn get_track_axis(&self, area: Rect) -> (r: u16)
        ensures
            r == self.track_bounds(area).2,
    {
        self.get_track_info(area).2
    }

    /// The half-open range of track positions that the thumb covers; an
    /// empty range at the track's start when nothing is drawn.
    fn get_thumb_start_end(&self, area: Rect, state: &ScrollbarState) -> (r: (u16, u16))
        ensures
            self.draws(area, *state) ==> r.0 == self.thumb_span(area, *state).0 && r.1
                == self.thumb_span(area, *state).1,
            !self.draws(area, *state) ==> r.0 == self.track_bounds(area).0 && r.1 == r.0,
            self.track_bounds(area).0 <= r.0 <= r.1 <= self.track_bounds(area).1,
            self.draws(area, *state) ==> r.0 < r.1,
    {
        let (start, end, _) = self.get_track_info(area);
        if end == start || state.content_length == 0 {
            return (start, start);
        }
        let len = end - start;
        let cl = state.content_length as u128;
        let vp: u128 = if state.viewport_content_length == 0 {
            len as u128
        } else {
            state.viewport_content_length as u128
        };
        let l = len as u128;
        assert(l * vp + cl + vp <= 0xffff * 0xffff_ffff_ffff_ffff + 2 * 0xffff_ffff_ffff_ffff)
            by (nonlinear_arith)
            requires
                vp <= 0xffff_ffff_ffff_ffff,
                l <= 0xffff,
                cl <= 0xffff_ffff_ffff_ffff,
        ;
        let raw = (l * vp + cl + vp - 1) / (cl + vp);
        let size: u128 = if raw < 1 {
            1
        } else if raw > l {
            l
        } else {
            raw
        };
        let p: u128 = if (state.position as u128) < cl {
            state.position as u128
        } else {
            cl
        };
        let room = l - size;
        assert(2 * p * room + cl <= 2 * 0xffff_ffff_ffff_ffff * 0xffff + 0xffff_ffff_ffff_ffff)
            by (nonlinear_arith)
            requires
                p <= 0xffff_ffff_ffff_ffff,
                room <= 0xffff,
                cl <= 0xffff_ffff_ffff_ffff,
        ;
        let off = (2 * p * room + cl) / (2 * cl);
        assert(off <= room) by (nonlinear_arith)
            requires
                off == (2 * p * room + cl) / (2 * cl),
                p <= cl,
                cl > 0,
        ;
        let first = start + off as u16;
        (first, first + size as u16)
    }

    /// Draws `sym` at track position `i`.
    fn paint(&self, buf: &mut Buffer, axis: u16, i: u16, sym: &str, style: Style)
        requires
            old(buf).wf(),
        ensures
            final(buf).wf(),
            final(buf).area == old(buf).area,
            final(buf).cells() == self.paint_at(
                old(buf).cells(),
                old(buf).area,
                axis as int,
                i as int,
                sym@,
                style,
            ),
    {
        if self.is_vertical() {
            buf.set_string(axis, i, sym, style);
        } else {
            buf.set_string(i, axis, sym, style);
        }
    }

    /// Draws the track symbol on every track position.
    fn render_track(&self, area: Rect, buf: &mut Buffer)
        requires
            old(buf).wf(),
        ensures
            final(buf).wf(),
            final(buf).area == old(buf).area,
            final(buf).cells() == self.painted_track(
                old(buf).cells(),
                old(buf).area,
                area,
                self.track_bounds(area).1 - self.track_bounds(area).0,
            ),
    {
        let (start, end, axis) = self.get_track_info(area);
        let mut i: u16 = start;
        while i < end
            invariant
                buf.wf(),
                buf.area == old(buf).area,
                start <= i <= end,
                (start, end, axis) == self.track_bounds(area),
                buf.cells() == self.painted_track(old(buf).cells(), old(buf).area, area, i - start),
            decreases end - i,
        {
            match self.track_symbol {
                Some(t) => self.paint(buf, axis, i, t, self.track_style),
                None => {},
            }
            i = i + 1;
        }
    }

    /// Draws the thumb symbol on every position of the thumb.
    fn render_thumb(&self, area: Rect, buf: &mut Buffer, state: &ScrollbarState)
        requires
            old(buf).wf(),
            self.draws(area, *state),
        ensures
            final(buf).wf(),
            final(buf).area == old(buf).area,
            final(buf).cells() == self.painted_thumb(
                old(buf).cells(),
                old(buf).area,
                area,
                *state,
                self.thumb_span(area, *state).1 - self.thumb_span(area, *state).0,
            ),
    {
        let axis = self.get_track_axis(area);
        let (thumb_start, thumb_end) = self.get_thumb_start_end(area, state);
        let mut i: u16 = thumb_start;
        while i < thumb_end
            invariant
                buf.wf(),
                buf.area == old(buf).area,
                thumb_start <= i <= thumb_end,
                axis == self.track_bounds(area).2,
                thumb_start == self.thumb_span(area, *state).0,
                thumb_end == self.thumb_span(area, *state).1,
                buf.cells() == self.painted_thumb(
                    old(buf).cells(),
                    old(buf).area,
                    area,
                    *state,
                    i - thumb_start,
                ),
            decreases thumb_end - i,
        {
            self.paint(buf, axis, i, self.thumb_symbol, self.thumb_style);
            i = i + 1;
        }
    }

    /// Draws the begin arrow before the track and the end arrow after it.
    fn render_arrowheads(&self, area: Rect, buf: &mut Buffer)
        requires
            old(buf).wf(),
        ensures
            final(buf).wf(),
            final(buf).area == old(buf).area,
            final(buf).cells() == self.painted_arrows(old(buf).cells(), old(buf).area, area),
    {
        let (start, end, axis) = self.get_track_info(area);
        match self.begin_symbol {
            Some(s) => self.paint(buf, axis, start.saturating_sub(1), s, self.begin_style),
            None => {},
        }
        match self.end_symbol {
            Some(s) => self.paint(buf, axis, end, s, self.end_style),
            None => {},
        }
    }

    /// Draws the scrollbar over `area` into `buf`: the track, the thumb over
    /// it, then the arrows. Nothing is drawn without content or without room
    /// for a track; what falls outside the buffer is not drawn.
    pub fn render(&self, area: Rect, buf: &mut Buffer, state: &ScrollbarState)
        requires
            old(buf).wf(),
        ensures
            final(buf).wf(),
            final(buf).area == old(buf).area,
            final(buf).cells() == self.rendered(old(buf).cells(), old(buf).area, area, *state),
    {
        let (start, end, _) = self.get_track_info(area);
        if end == start || state.content_length == 0 {
            return;
        }
        self.render_track(area, buf);
        self.render_thumb(area, buf, state);
        self.render_arrowheads(area, buf);
    }
}


impl<'a> Scrollbar<'a> {
    /// Where the scrollbar's line starts along its axis.
    pub open spec fn line_start(&self, area: Rect) -> int {
        if self.spec_is_vertical() {
            area.y as int
        } else {
            area.x as int
        }
    }

    /// How many cells the scrollbar's line has.
    pub open spec fn line_len(&self, area: Rect) -> int {
        if self.spec_is_vertical() {
            area.height as int
        } else {
            area.width as int
        }
    }

    /// Cells that the arrows take at the start and at the end of the line.
    pub open spec fn arrow_cells(&self) -> (int, int) {
        (
            if self.begin_symbol is Some {
                1int
            } else {
                0int
            },
            if self.end_symbol is Some {
                1int
            } else {
                0int
            },
        )
    }
}

/// The arrows and the track tile the scrollbar's line: the begin arrow, if
/// any, takes the first cell, the end arrow the last, and the track every
/// cell between; with room for both arrows, nothing overlaps.
pub proof fn lemma_track_tiles(bar: Scrollbar, area: Rect)
    requires
        area.wf(),
        bar.line_len(area) >= bar.arrow_cells().0 + bar.arrow_cells().1,
    ensures
        bar.track_bounds(area).0 == bar.line_start(area) + bar.arrow_cells().0,
        bar.track_bounds(area).1 == bar.line_start(area) + bar.line_len(area) - bar.arrow_cells().1,
        bar.begin_symbol is Some ==> dec(bar.track_bounds(area).0) == bar.line_start(area),
        bar.end_symbol is Some ==> bar.track_bounds(area).1 == bar.line_start(area) + bar.line_len(
            area,
        ) - 1,
{
}

/// Whenever anything is drawn, the thumb is a non-empty run of track cells:
/// it starts at or after the track's start and ends at or before its end.
pub proof fn lemma_thumb_within_track(bar: Scrollbar, area: Rect, state: ScrollbarState)
    requires
        bar.draws(area, state),
    ensures
        bar.track_bounds(area).0 <= bar.thumb_span(area, state).0,
        bar.thumb_span(area, state).0 < bar.thumb_span(area, state).1,
        bar.thumb_span(area, state).1 <= bar.track_bounds(area).1,
{
    let b = bar.track_bounds(area);
    let len = (b.1 - b.0) as nat;
    let cl = state.content_length as nat;
    let p = min_int(state.position as int, cl as int);
    let room = (len - Scrollbar::thumb_len(len, state)) as nat;
    assert((2 * p * room + cl) / (2 * cl as int) <= room) by (nonlinear_arith)
        requires
            0 <= p <= cl,
            cl > 0,
    ;
}


/// Rendering is a function of the widget, the state and what the buffer
/// showed: rendering again into a buffer that shows what another one showed
/// gives the same cells, so the diff between the two frames is empty.
pub proof fn lemma_rerender_is_unchanged(
    bar: Scrollbar,
    area: Rect,
    state: ScrollbarState,
    first: Buffer,
    second: Buffer,
    first_after: Buffer,
    second_after: Buffer,
)
    requires
        first.area == second.area,
        first.cells() == second.cells(),
        first_after.area == first.area,
        second_after.area == second.area,
        first_after.cells() == bar.rendered(first.cells(), first.area, area, state),
        second_after.cells() == bar.rendered(second.cells(), second.area, area, state),
    ensures
        first_after.cells() == second_after.cells(),
        crate::diff::diff_model(first_after, second_after) == Seq::<crate::diff::InstructionModel>::empty(),
{
    crate::diff::lemma_diff_of_copy(first_after, second_after);
}

} // verus!
