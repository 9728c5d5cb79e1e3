//! Colors, text modifiers and styles of cells.
use vstd::prelude::*;

verus! {

/// A terminal color.
#[derive(Debug, Default, Clone, Copy, PartialEq, Eq, Hash, Structural)]
pub enum Color {
    /// The terminal's own default.
    #[default]
    Reset,
    Black,
    Red,
    Green,
    Yellow,
    Blue,
    Magenta,
    Cyan,
    Gray,
    DarkGray,
    LightRed,
    LightGreen,
    LightYellow,
    LightBlue,
    LightMagenta,
    LightCyan,
    White,
    Rgb(u8, u8, u8),
    Indexed(u8),
}

/// Text attribute bits of a cell.
pub const BOLD: u16 = 0x0001;
pub const DIM: u16 = 0x0002;
pub const ITALIC: u16 = 0x0004;
pub const UNDERLINED: u16 = 0x0008;
pub const SLOW_BLINK: u16 = 0x0010;
pub const RAPID_BLINK: u16 = 0x0020;
pub const REVERSED: u16 = 0x0040;
pub const HIDDEN: u16 = 0x0080;
pub const CROSSED_OUT: u16 = 0x0100;

/// A change of appearance: colors to set (`None` keeps the cell's own) and
/// attribute bits to add and to remove.
#[derive(Debug, Default, Clone, Copy, PartialEq, Eq, Hash, Structural)]
pub struct Style {
    pub fg: Option<Color>,
    pub bg: Option<Color>,
    pub add_modifier: u16,
    pub sub_modifier: u16,
}

/// The style that changes nothing.
pub open spec fn no_style() -> Style {
    Style { fg: None, bg: None, add_modifier: 0, sub_modifier: 0 }
}

impl Style {
    /// The style that changes nothing.
    pub fn new() -> (r: Style)
        ensures
            r == (Style { fg: None, bg: None, add_modifier: 0, sub_modifier: 0 }),
    {
        Style { fg: None, bg: None, add_modifier: 0, sub_modifier: 0 }
    }

    /// The style that resets both colors and clears every attribute.
    pub fn reset() -> (r: Style)
        ensures
            r == (Style {
                fg: Some(Color::Reset),
                bg: Some(Color::Reset),
                add_modifier: 0,
                sub_modifier: 0xffff,
            }),
    {
        Style {
            fg: Some(Color::Reset),
            bg: Some(Color::Reset),
            add_modifier: 0,
            sub_modifier: 0xffff,
        }
    }

    pub fn fg(self, color: Color) -> (r: Style)
        ensures
            r == (Style { fg: Some(color), ..self }),
    {
        Style { fg: Some(color), ..self }
    }

    pub fn bg(self, color: Color) -> (r: Style)
        ensures
            r == (Style { bg: Some(color), ..self }),
    {
        Style { bg: Some(color), ..self }
    }

    /// Adds the attribute bits `m` (and stops removing them).
    pub fn add_modifier(self, m: u16) -> (r: Style)
        ensures
            r == (Style {
                add_modifier: self.add_modifier | m,
                sub_modifier: self.sub_modifier & !m,
                ..self
            }),
    {
        Style { add_modifier: self.add_modifier | m, sub_modifier: self.sub_modifier & !m, ..self }
    }

    /// Removes the attribute bits `m` (and stops adding them).
    pub fn remove_modifier(self, m: u16) -> (r: Style)
        ensures
            r == (Style {
                add_modifier: self.add_modifier & !m,
                sub_modifier: self.sub_modifier | m,
                ..self
            }),
    {
        Style { add_modifier: self.add_modifier & !m, sub_modifier: self.sub_modifier | m, ..self }
    }

    /// `other` applied on top of this style: its colors win where it sets
    /// them, and its attribute changes win over this style's.
    pub open spec fn spec_patch(self, other: Style) -> Style {
        Style {
            fg: match other.fg {
                Some(c) => Some(c),
                None => self.fg,
            },
            bg: match other.bg {
                Some(c) => Some(c),
                None => self.bg,
            },
            add_modifier: (self.add_modifier & !other.sub_modifier) | other.add_modifier,
            sub_modifier: (self.sub_modifier & !other.add_modifier) | other.sub_modifier,
        }
    }

    pub fn patch(self, other: Style) -> (r: Style)
        ensures
            r == self.spec_patch(other),
    {
        Style {
            fg: match other.fg {
                Some(c) => Some(c),
                None => self.fg,
            },
            bg: match other.bg {
                Some(c) => Some(c),
                None => self.bg,
            },
            add_modifier: (self.add_modifier & !other.sub_modifier) | other.add_modifier,
            sub_modifier: (self.sub_modifier & !other.add_modifier) | other.sub_modifier,
        }
    }
}

} // verus!
