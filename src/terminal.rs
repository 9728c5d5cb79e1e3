//! The render pipeline: two buffers, the frame being drawn and the frame on
//! screen, and the passes that bring the screen up to date.
use vstd::prelude::*;
use crate::backend::{Backend, BackendError};
use crate::buffer::{blank_model, Buffer};
use crate::diff::{diff_model, Diff, DrawInstruction};
use crate::geometry::{Position, Rect};
use crate::widgets::StatefulWidget;

verus! {

/// Where the cursor should be once a frame is drawn.
#[derive(Debug, Clone, Copy, PartialEq, Eq, Hash, Structural)]
pub enum CursorState {
    Hidden,
    At(Position),
}

/// A terminal: its device, the buffer on screen and the buffer being drawn.
pub struct Terminal<B: Backend> {
    pub backend: B,
    pub previous: Buffer,
    pub current: Buffer,
    pub cursor: CursorState,
}

/// Whether every cell of `b` is blank.
pub open spec fn all_blank(b: Buffer) -> bool {
    forall|i: int| 0 <= i < b.cells().len() ==> b.cells()[i] == blank_model()
}

impl<B: Backend> Terminal<B> {
    /// Both buffers are well formed and cover the same area.
    pub open spec fn wf(&self) -> bool {
        self.previous.wf() && self.current.wf() && self.previous.area == self.current.area
    }

    /// A terminal over `area`: both buffers blank, cursor hidden.
    pub fn with_area(backend: B, area: Rect) -> (r: Terminal<B>)
        requires
            area.wf(),
        ensures
            r.wf(),
            r.current.area == area,
            all_blank(r.previous),
            all_blank(r.current),
            r.cursor == CursorState::Hidden,
    {
        Terminal {
            backend,
            previous: Buffer::empty(area),
            current: Buffer::empty(area),
            cursor: CursorState::Hidden,
        }
    }

    /// A terminal over the device's current size.
    pub fn new(backend: B) -> (r: Result<Terminal<B>, BackendError>)
        ensures
            r is Ok ==> r->Ok_0.wf() && all_blank(r->Ok_0.previous) && all_blank(r->Ok_0.current),
    {
        match backend.size() {
            Ok(size) => {
                let area = Rect::new(size.x, size.y, size.width, size.height);
                Ok(Terminal::with_area(backend, area))
            },
            Err(e) => Err(e),
        }
    }

    /// The area that frames are drawn over.
    pub fn area(&self) -> (r: Rect)
        ensures
            r == self.current.area,
    {
        self.current.area
    }

    /// Draws `widget` into `area` of the frame being drawn.
    pub fn render_stateful_widget<W: StatefulWidget>(
        &mut self,
        widget: &W,
        area: Rect,
        state: &mut W::State,
    )
        requires
            old(self).wf(),
        ensures
            final(self).wf(),
            final(self).previous == old(self).previous,
            final(self).current.area == old(self).current.area,
            final(self).cursor == old(self).cursor,
    {
        widget.render(area, &mut self.current, state);
    }

    /// Writes `s` into the frame being drawn; see [`Buffer::set_string`].
    pub fn set_string(&mut self, x: u16, y: u16, s: &str, style: crate::style::Style)
        requires
            old(self).wf(),
        ensures
            final(self).wf(),
            final(self).previous == old(self).previous,
            final(self).current.area == old(self).current.area,
            final(self).current.cells() == crate::buffer::write_run(
                old(self).current.cells(),
                old(self).current.area,
                x as int,
                y as int,
                s@,
                crate::buffer::room_at(old(self).current.area, x as int, y as int, u16::MAX as int),
                style,
            ),
            final(self).cursor == old(self).cursor,
    {
        self.current.set_string(x, y, s, style);
    }

    /// The instructions that bring the screen from the previous frame to
    /// the one being drawn.
    pub fn pending(&self) -> (r: Diff)
        requires
            self.wf(),
        ensures
            !r.resized,
            r.instructions@.map_values(|d: DrawInstruction| d@) == diff_model(
                self.previous,
                self.current,
            ),
    {
        self.previous.diff(&self.current)
    }

    /// Makes both buffers blank over `area` and clears the device.
    pub fn resize(&mut self, area: Rect) -> (r: Result<(), BackendError>)
        requires
            area.wf(),
        ensures
            final(self).wf(),
            final(self).current.area == area,
            all_blank(final(self).previous),
            all_blank(final(self).current),
            final(self).cursor == old(self).cursor,
    {
        self.previous = Buffer::empty(area);
        self.current = Buffer::empty(area);
        self.backend.clear()
    }

    /// Follows a change of the device's size: when the size differs from
    /// the frame's area, both buffers start over blank at the new size and
    /// the device is cleared, so the next frame draws every cell that is not
    /// blank. Returns whether the area changed; a failure of the device is
    /// returned as it gave it.
    pub fn autoresize(&mut self) -> (r: Result<bool, BackendError>)
        requires
            old(self).wf(),
        ensures
            final(self).wf(),
            final(self).cursor == old(self).cursor,
            r matches Ok(changed) ==> changed == (final(self).current.area != old(self).current.area),
            final(self).current.area == old(self).current.area ==> final(self).previous
                == old(self).previous && final(self).current == old(self).current,
            final(self).current.area != old(self).current.area ==> all_blank(final(self).previous)
                && all_blank(final(self).current),
    {
        match self.backend.size() {
            Ok(size) => {
                let area = Rect::new(size.x, size.y, size.width, size.height);
                if area != self.current.area {
                    match self.resize(area) {
                        Ok(()) => Ok(true),
                        Err(e) => Err(e),
                    }
                } else {
                    Ok(false)
                }
            },
            Err(e) => Err(e),
        }
    }

    /// Sends the cursor directive to the device.
    fn apply_cursor(&mut self, cursor: CursorState) -> (r: Result<(), BackendError>)
        requires
            old(self).wf(),
        ensures
            final(self).wf(),
            final(self).previous == old(self).previous,
            final(self).current == old(self).current,
            r is Ok ==> final(self).cursor == cursor,
            r is Err ==> final(self).cursor == old(self).cursor,
    {
        match cursor {
            CursorState::Hidden => {
                match self.backend.hide_cursor() {
                    Ok(()) => {},
                    Err(e) => {
                        return Err(e);
                    },
                }
            },
            CursorState::At(p) => {
                match self.backend.set_cursor(p.x, p.y) {
                    Ok(()) => {},
                    Err(e) => {
                        return Err(e);
                    },
                }
                match self.backend.show_cursor() {
                    Ok(()) => {},
                    Err(e) => {
                        return Err(e);
                    },
                }
            },
        }
        self.cursor = cursor;
        Ok(())
    }

    /// Makes the frame being drawn the frame on screen and starts a blank one.
    pub fn swap_buffers(&mut self)
        requires
            old(self).wf(),
        ensures
            final(self).wf(),
            final(self).previous == old(self).current,
            final(self).current.area == old(self).current.area,
            all_blank(final(self).current),
            final(self).cursor == old(self).cursor,
    {
        let mut fresh = Buffer::empty(self.current.area);
        std::mem::swap(&mut self.current, &mut fresh);
        self.previous = fresh;
    }

    /// One pass: draws the changes from the previous frame to the one being
    /// drawn, places the cursor, flushes the device and swaps the buffers.
    /// On a failure the pass stops, the frame on screen stays the previous
    /// one and the failure is returned as the device gave it.
    pub fn draw_frame(&mut self, cursor: CursorState) -> (r: Result<(), BackendError>)
        requires
            old(self).wf(),
        ensures
            final(self).wf(),
            r is Ok ==> final(self).previous == old(self).current && all_blank(final(self).current)
                && final(self).cursor == cursor,
            r is Err ==> final(self).previous == old(self).previous,
            final(self).current.area == old(self).current.area,
    {
        let d = self.pending();
        match self.backend.draw(&d.instructions) {
            Ok(()) => {},
            Err(e) => {
                return Err(e);
            },
        }
        match self.apply_cursor(cursor) {
            Ok(()) => {},
            Err(e) => {
                return Err(e);
            },
        }
        match self.backend.flush() {
            Ok(()) => {},
            Err(e) => {
                return Err(e);
            },
        }
        self.swap_buffers();
        Ok(())
    }
}

} // verus!
