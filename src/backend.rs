//! The output device as the rendering core sees it: draw runs of text, move
//! and show the cursor, clear, report its size, flush.
use vstd::prelude::*;
use crate::buffer::{same_text, Buffer, CellModel};
use crate::diff::DrawInstruction;
use crate::geometry::{Position, Rect, Size};
use crate::scrollbar::ParseError;
use crate::style::Style;

verus! {

/// `std::io::Error`, carried unchanged as the cause of a device failure;
/// nothing in this library looks inside it.
#[verifier::external_type_specification]
#[verifier::external_body]
pub struct ExIoError(std::io::Error);

/// Which part of the screen to clear.
#[derive(Debug, Clone, Copy, PartialEq, Eq, Hash, Structural)]
pub enum ClearType {
    /// The whole screen.
    All,
    /// Everything after the cursor.
    AfterCursor,
    /// Everything before the cursor.
    BeforeCursor,
    /// The cursor's line.
    CurrentLine,
    /// From the cursor to the end of its line.
    UntilNewLine,
}

/// The size of the terminal window in cells and in pixels.
#[derive(Debug, Clone, Copy, PartialEq, Eq, Hash, Structural)]
pub struct WindowSize {
    /// Columns and rows.
    pub columns_rows: Size,
    /// Width and height in pixels; zero where the terminal does not say.
    pub pixels: Size,
}

/// Why an output operation failed.
#[derive(Debug)]
pub enum BackendError {
    /// The device failed to read or write.
    Io(std::io::Error),
    /// The device cannot clear this kind of region.
    Unsupported(ClearType),
}

impl ClearType {
    /// The variant's name.
    pub fn to_string(&self) -> (r: String)
        ensures
            r@ == match self {
                ClearType::All => "All"@,
                ClearType::AfterCursor => "AfterCursor"@,
                ClearType::BeforeCursor => "BeforeCursor"@,
                ClearType::CurrentLine => "CurrentLine"@,
                ClearType::UntilNewLine => "UntilNewLine"@,
            },
    {
        match self {
            ClearType::All => String::from_str("All"),
            ClearType::AfterCursor => String::from_str("AfterCursor"),
            ClearType::BeforeCursor => String::from_str("BeforeCursor"),
            ClearType::CurrentLine => String::from_str("CurrentLine"),
            ClearType::UntilNewLine => String::from_str("UntilNewLine"),
        }
    }

    /// The variant with the name `s`.
    pub fn from_name(s: &str) -> (r: Result<ClearType, ParseError>)
        ensures
            r == if s@ == "All"@ {
                Ok(ClearType::All)
            } else if s@ == "AfterCursor"@ {
                Ok(ClearType::AfterCursor)
            } else if s@ == "BeforeCursor"@ {
                Ok(ClearType::BeforeCursor)
            } else if s@ == "CurrentLine"@ {
                Ok(ClearType::CurrentLine)
            } else if s@ == "UntilNewLine"@ {
                Ok(ClearType::UntilNewLine)
            } else {
                Err(ParseError::VariantNotFound)
            },
    {
        if same_text(s, "All") {
            Ok(ClearType::All)
        } else if same_text(s, "AfterCursor") {
            Ok(ClearType::AfterCursor)
        } else if same_text(s, "BeforeCursor") {
            Ok(ClearType::BeforeCursor)
        } else if same_text(s, "CurrentLine") {
            Ok(ClearType::CurrentLine)
        } else if same_text(s, "UntilNewLine") {
            Ok(ClearType::UntilNewLine)
        } else {
            Err(ParseError::VariantNotFound)
        }
    }
}

impl std::str::FromStr for ClearType {
    type Err = ParseError;

    fn from_str(s: &str) -> Result<ClearType, ParseError> {
        ClearType::from_name(s)
    }
}

/// The failure of a device that can only clear the whole screen, for the
/// region `clear_type`: none for the whole screen, `Unsupported` otherwise.
pub fn unsupported_clear(clear_type: ClearType) -> (r: Option<BackendError>)
    ensures
        clear_type == ClearType::All <==> r is None,
        r matches Some(BackendError::Unsupported(c)) ==> c == clear_type,
        r is Some ==> r->0 is Unsupported,
{
    match clear_type {
        ClearType::All => None,
        _ => Some(BackendError::Unsupported(clear_type)),
    }
}

/// An output device. Implementations talk to a real terminal; the core only
/// hands them plain values and passes their failures on.
pub trait Backend {
    /// Draws each instruction's text from its position on.
    fn draw(&mut self, instructions: &Vec<DrawInstruction>) -> Result<(), BackendError>;

    /// Inserts `n` line breaks; devices that cannot do so do nothing. It is
    /// no clear, so it never reports a region as unsupported.
    fn append_lines(&mut self, n: u16) -> (r: Result<(), BackendError>)
        ensures
            !(r matches Err(BackendError::Unsupported(_))),
    {
        Ok(())
    }

    fn hide_cursor(&mut self) -> Result<(), BackendError>;

    fn show_cursor(&mut self) -> Result<(), BackendError>;

    fn get_cursor(&mut self) -> Result<Position, BackendError>;

    fn set_cursor(&mut self, x: u16, y: u16) -> Result<(), BackendError>;

    /// Clears the whole screen; a full clear is never unsupported.
    fn clear(&mut self) -> (r: Result<(), BackendError>)
        ensures
            !(r matches Err(BackendError::Unsupported(_))),
    ;

    /// Clears a region of the screen. Devices that support only a full
    /// clear report every other kind as unsupported, without touching the
    /// screen; a region reported unsupported is always the one asked for, and
    /// never the whole screen.
    fn clear_region(&mut self, clear_type: ClearType) -> (r: Result<(), BackendError>)
        ensures
            r matches Err(BackendError::Unsupported(c)) ==> c == clear_type && c != ClearType::All,
    {
        match unsupported_clear(clear_type) {
            None => self.clear(),
            Some(e) => Err(e),
        }
    }

    /// The screen's size in cells, as a rectangle at the origin.
    fn size(&self) -> Result<Rect, BackendError>;

    fn window_size(&mut self) -> Result<WindowSize, BackendError>;

    /// Sends whatever is buffered to the screen.
    fn flush(&mut self) -> Result<(), BackendError>;
}

/// A device that draws into a buffer in memory, for tests and previews.
#[derive(Debug, Clone, PartialEq, Eq, Hash)]
pub struct TestBackend {
    pub screen: Buffer,
    pub cursor: Position,
    pub cursor_visible: bool,
}

/// The style that makes a cell show exactly these colors and attributes.
pub open spec fn exact_style(d: DrawInstruction) -> Style {
    Style { fg: Some(d.fg), bg: Some(d.bg), add_modifier: d.modifier, sub_modifier: !d.modifier }
}

impl TestBackend {
    /// A blank screen of `width` by `height` cells, cursor visible at the
    /// origin.
    pub fn new(width: u16, height: u16) -> (r: TestBackend)
        ensures
            r.screen.wf(),
            r.screen.area == (Rect { x: 0, y: 0, width, height }),
            forall|i: int|
                0 <= i < r.screen.cells().len() ==> r.screen.cells()[i]
                    == crate::buffer::blank_model(),
            r.cursor == (Position { x: 0, y: 0 }),
            r.cursor_visible,
    {
        let area = Rect::new(0, 0, width, height);
        TestBackend {
            screen: Buffer::empty(area),
            cursor: Position { x: 0, y: 0 },
            cursor_visible: true,
        }
    }

    /// Writes each instruction's text into the screen buffer, in order.
    pub fn apply(&mut self, instructions: &Vec<DrawInstruction>)
        requires
            old(self).screen.wf(),
        ensures
            final(self).screen.wf(),
            final(self).screen.area == old(self).screen.area,
            final(self).cursor == old(self).cursor,
            final(self).cursor_visible == old(self).cursor_visible,
            final(self).screen.cells() == applied(
                old(self).screen.cells(),
                old(self).screen.area,
                instructions@,
                instructions@.len() as int,
            ),
    {
        let n = instructions.len();
        let mut i: usize = 0;
        while i < n
            invariant
                self.screen.wf(),
                self.screen.area == old(self).screen.area,
                self.cursor == old(self).cursor,
                self.cursor_visible == old(self).cursor_visible,
                n == instructions@.len(),
                i <= n,
                self.screen.cells() == applied(
                    old(self).screen.cells(),
                    old(self).screen.area,
                    instructions@,
                    i as int,
                ),
            decreases n - i,
        {
            let d = &instructions[i];
            let style = Style {
                fg: Some(d.fg),
                bg: Some(d.bg),
                add_modifier: d.modifier,
                sub_modifier: !d.modifier,
            };
            self.screen.set_string(d.x, d.y, d.content.as_str(), style);
            i = i + 1;
        }
    }
}

/// The cells of a screen after the first `k` instructions were drawn on it.
pub open spec fn applied(
    cells: Seq<CellModel>,
    area: Rect,
    instructions: Seq<DrawInstruction>,
    k: int,
) -> Seq<CellModel>
    decreases k,
{
    if k <= 0 {
        cells
    } else {
        let d = instructions[k - 1];
        crate::buffer::write_run(
            applied(cells, area, instructions, k - 1),
            area,
            d.x as int,
            d.y as int,
            d.content@,
            crate::buffer::room_at(area, d.x as int, d.y as int, u16::MAX as int),
            exact_style(d),
        )
    }
}

impl Backend for TestBackend {
    fn draw(&mut self, instructions: &Vec<DrawInstruction>) -> Result<(), BackendError> {
        if self.screen.is_well_formed() {
            self.apply(instructions);
        }
        Ok(())
    }

    fn hide_cursor(&mut self) -> Result<(), BackendError> {
        self.cursor_visible = false;
        Ok(())
    }

    fn show_cursor(&mut self) -> Result<(), BackendError> {
        self.cursor_visible = true;
        Ok(())
    }

    fn get_cursor(&mut self) -> Result<Position, BackendError> {
        Ok(self.cursor)
    }

    fn set_cursor(&mut self, x: u16, y: u16) -> Result<(), BackendError> {
        self.cursor = Position { x, y };
        Ok(())
    }

    fn clear(&mut self) -> Result<(), BackendError> {
        if self.screen.is_well_formed() {
            self.screen.reset();
        }
        Ok(())
    }

    fn size(&self) -> Result<Rect, BackendError> {
        Ok(Rect { x: 0, y: 0, width: self.screen.area.width, height: self.screen.area.height })
    }

    fn window_size(&mut self) -> Result<WindowSize, BackendError> {
        Ok(
            WindowSize {
                columns_rows: Size {
                    width: self.screen.area.width,
                    height: self.screen.area.height,
                },
                pixels: Size { width: 0, height: 0 },
            },
        )
    }

    fn flush(&mut self) -> Result<(), BackendError> {
        Ok(())
    }
}

} // verus!
