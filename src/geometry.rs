//! Position, size, offset and rectangle values with overflow-safe arithmetic.
use vstd::prelude::*;

verus! {

/// The largest coordinate of the grid.
pub const COORD_MAX: u16 = 65535;

/// Clamps `v` into `lo..=hi` (with `lo <= hi`).
pub open spec fn clamp(v: int, lo: int, hi: int) -> int {
    if v < lo {
        lo
    } else if v > hi {
        hi
    } else {
        v
    }
}

/// The smaller of two integers.
pub open spec fn min_int(a: int, b: int) -> int {
    if a <= b {
        a
    } else {
        b
    }
}

/// A grid coordinate, origin at the top left.
#[derive(Debug, Default, Clone, Copy, PartialEq, Eq, Hash, Structural)]
pub struct Position {
    pub x: u16,
    pub y: u16,
}

/// A width and a height in cells.
#[derive(Debug, Default, Clone, Copy, PartialEq, Eq, Hash, Structural)]
pub struct Size {
    pub width: u16,
    pub height: u16,
}

/// A signed displacement on the grid.
#[derive(Debug, Default, Clone, Copy, PartialEq, Eq, Hash, Structural)]
pub struct Offset {
    pub x: i32,
    pub y: i32,
}

/// An axis-aligned rectangle of the grid.
#[derive(Debug, Default, Clone, Copy, PartialEq, Eq, Hash, Structural)]
pub struct Rect {
    pub x: u16,
    pub y: u16,
    pub width: u16,
    pub height: u16,
}

impl Position {
    pub fn new(x: u16, y: u16) -> (r: Position)
        ensures
            r == (Position { x, y }),
    {
        Position { x, y }
    }
}

impl Size {
    pub fn new(width: u16, height: u16) -> (r: Size)
        ensures
            r == (Size { width, height }),
    {
        Size { width, height }
    }

    /// The empty size.
    pub fn zero() -> (r: Size)
        ensures
            r == (Size { width: 0, height: 0 }),
    {
        Size { width: 0, height: 0 }
    }

    /// The largest representable size.
    pub fn max_value() -> (r: Size)
        ensures
            r == (Size { width: COORD_MAX, height: COORD_MAX }),
    {
        Size { width: COORD_MAX, height: COORD_MAX }
    }

    /// Grows `rect` by this size; the same as [`Rect::add_size`].
    pub fn add_rect(self, rect: Rect) -> (r: Rect)
        ensures
            r == rect.grown(self),
    {
        rect.add_size(self)
    }
}

impl Offset {
    pub fn new(x: i32, y: i32) -> (r: Offset)
        ensures
            r == (Offset { x, y }),
    {
        Offset { x, y }
    }

    /// No displacement.
    pub fn zero() -> (r: Offset)
        ensures
            r == (Offset { x: 0, y: 0 }),
    {
        Offset { x: 0, y: 0 }
    }

    /// The most negative displacement on both axes.
    pub fn min_value() -> (r: Offset)
        ensures
            r == (Offset { x: i32::MIN, y: i32::MIN }),
    {
        Offset { x: i32::MIN, y: i32::MIN }
    }

    /// The most positive displacement on both axes.
    pub fn max_value() -> (r: Offset)
        ensures
            r == (Offset { x: i32::MAX, y: i32::MAX }),
    {
        Offset { x: i32::MAX, y: i32::MAX }
    }

    /// The opposite displacement. The most negative value has no opposite, so
    /// it is excluded.
    pub fn neg(self) -> (r: Offset)
        requires
            self.x != i32::MIN,
            self.y != i32::MIN,
        ensures
            r.x == -self.x,
            r.y == -self.y,
    {
        Offset { x: -self.x, y: -self.y }
    }

    /// Moves `rect` by this offset; the same as [`Rect::add_offset`].
    pub fn add_rect(self, rect: Rect) -> (r: Rect)
        ensures
            r == rect.translated(self.x as int, self.y as int),
    {
        rect.add_offset(self)
    }
}

/// Clamps `v + d` into `0..=hi`, computed without overflow.
fn clamp_shift(v: u16, d: i64, hi: u16) -> (r: u16)
    requires
        -0x1_0000_0000 <= d <= 0x1_0000_0000,
    ensures
        r == clamp(v + d, 0, hi as int),
{
    let s: i64 = v as i64 + d;
    if s < 0 {
        0
    } else if s > hi as i64 {
        hi
    } else {
        s as u16
    }
}

impl Rect {
    /// The rectangle stays inside the 16-bit coordinate space.
    pub open spec fn wf(self) -> bool {
        self.x + self.width <= u16::MAX && self.y + self.height <= u16::MAX
    }

    pub open spec fn spec_right(self) -> int {
        self.x + self.width
    }

    pub open spec fn spec_bottom(self) -> int {
        self.y + self.height
    }

    pub open spec fn spec_area(self) -> nat {
        (self.width * self.height) as nat
    }

    /// Whether `(px, py)` lies inside the rectangle.
    pub open spec fn spec_contains(self, px: int, py: int) -> bool {
        self.x <= px < self.x + self.width && self.y <= py < self.y + self.height
    }

    /// The rectangle moved by `(dx, dy)`, clamped so that it stays representable.
    pub open spec fn translated(self, dx: int, dy: int) -> Rect {
        Rect {
            x: clamp(self.x + dx, 0, u16::MAX - self.width) as u16,
            y: clamp(self.y + dy, 0, u16::MAX - self.height) as u16,
            width: self.width,
            height: self.height,
        }
    }

    /// The rectangle grown by `s`, its far edges clamped to the coordinate space.
    pub open spec fn grown(self, s: Size) -> Rect {
        Rect {
            x: self.x,
            y: self.y,
            width: min_int(self.width + s.width, u16::MAX - self.x) as u16,
            height: min_int(self.height + s.height, u16::MAX - self.y) as u16,
        }
    }

    /// The rectangle shrunk by `s`, saturating at zero.
    pub open spec fn shrunk(self, s: Size) -> Rect {
        Rect {
            x: self.x,
            y: self.y,
            width: if self.width >= s.width { (self.width - s.width) as u16 } else { 0 },
            height: if self.height >= s.height { (self.height - s.height) as u16 } else { 0 },
        }
    }

    /// A rectangle at `(x, y)`; a width or height that would pass the edge of
    /// the coordinate space is cut back to it.
    pub fn new(x: u16, y: u16, width: u16, height: u16) -> (r: Rect)
        ensures
            r.wf(),
            r.x == x,
            r.y == y,
            r.width == min_int(width as int, u16::MAX - x),
            r.height == min_int(height as int, u16::MAX - y),
    {
        let w = if width <= COORD_MAX - x { width } else { COORD_MAX - x };
        let h = if height <= COORD_MAX - y { height } else { COORD_MAX - y };
        Rect { x, y, width: w, height: h }
    }

    /// The empty rectangle at the origin.
    pub fn zero() -> (r: Rect)
        ensures
            r == (Rect { x: 0, y: 0, width: 0, height: 0 }),
    {
        Rect { x: 0, y: 0, width: 0, height: 0 }
    }

    pub fn area(&self) -> (r: u32)
        ensures
            r == self.spec_area(),
    {
        assert(self.width * self.height <= 65535 * 65535) by (nonlinear_arith)
            requires
                self.width <= 65535,
                self.height <= 65535,
        ;
        self.width as u32 * self.height as u32
    }

    pub fn is_empty(&self) -> (r: bool)
        ensures
            r == (self.width == 0 || self.height == 0),
    {
        self.width == 0 || self.height == 0
    }

    pub fn left(&self) -> (r: u16)
        ensures
            r == self.x,
    {
        self.x
    }

    /// One past the last column, saturating at the edge of the space.
    pub fn right(&self) -> (r: u16)
        ensures
            r == min_int(self.spec_right(), u16::MAX as int),
    {
        self.x.saturating_add(self.width)
    }

    pub fn top(&self) -> (r: u16)
        ensures
            r == self.y,
    {
        self.y
    }

    /// One past the last row, saturating at the edge of the space.
    pub fn bottom(&self) -> (r: u16)
        ensures
            r == min_int(self.spec_bottom(), u16::MAX as int),
    {
        self.y.saturating_add(self.height)
    }

    pub fn contains(&self, p: Position) -> (r: bool)
        ensures
            r == self.spec_contains(p.x as int, p.y as int),
    {
        p.x >= self.x && (p.x as u32) < self.x as u32 + self.width as u32 && p.y >= self.y
            && (p.y as u32) < self.y as u32 + self.height as u32
    }

    pub fn as_size(&self) -> (r: Size)
        ensures
            r == (Size { width: self.width, height: self.height }),
    {
        Size { width: self.width, height: self.height }
    }

    /// Moves the rectangle by `offset` without changing its size. Each edge is
    /// clamped to the coordinate space.
    pub fn add_offset(self, offset: Offset) -> (r: Rect)
        ensures
            r == self.translated(offset.x as int, offset.y as int),
            r.wf(),
    {
        let x = clamp_shift(self.x, offset.x as i64, COORD_MAX - self.width);
        let y = clamp_shift(self.y, offset.y as i64, COORD_MAX - self.height);
        Rect { x, y, width: self.width, height: self.height }
    }

    /// Moves the rectangle by the opposite of `offset`, clamped like
    /// [`Rect::add_offset`]; defined also for the most negative offset.
    pub fn sub_offset(self, offset: Offset) -> (r: Rect)
        ensures
            r == self.translated(-offset.x, -offset.y),
            r.wf(),
    {
        let x = clamp_shift(self.x, -(offset.x as i64), COORD_MAX - self.width);
        let y = clamp_shift(self.y, -(offset.y as i64), COORD_MAX - self.height);
        Rect { x, y, width: self.width, height: self.height }
    }

    /// Grows width and height by `size`, keeping the far edges inside the space.
    pub fn add_size(self, size: Size) -> (r: Rect)
        ensures
            r == self.grown(size),
    {
        let max_w = COORD_MAX - self.x;
        let max_h = COORD_MAX - self.y;
        let w = self.width.saturating_add(size.width);
        let h = self.height.saturating_add(size.height);
        Rect {
            x: self.x,
            y: self.y,
            width: if w <= max_w { w } else { max_w },
            height: if h <= max_h { h } else { max_h },
        }
    }

    /// Shrinks width and height by `size`, saturating at zero.
    pub fn sub_size(self, size: Size) -> (r: Rect)
        ensures
            r == self.shrunk(size),
    {
        Rect {
            x: self.x,
            y: self.y,
            width: self.width.saturating_sub(size.width),
            height: self.height.saturating_sub(size.height),
        }
    }

    /// In-place form of [`Rect::add_offset`].
    pub fn add_assign_offset(&mut self, offset: Offset)
        ensures
            *final(self) == old(self).translated(offset.x as int, offset.y as int),
    {
        *self = self.add_offset(offset);
    }

    /// In-place form of [`Rect::sub_offset`].
    pub fn sub_assign_offset(&mut self, offset: Offset)
        ensures
            *final(self) == old(self).translated(-offset.x, -offset.y),
    {
        *self = self.sub_offset(offset);
    }

    /// In-place form of [`Rect::add_size`].
    pub fn add_assign_size(&mut self, size: Size)
        ensures
            *final(self) == old(self).grown(size),
    {
        *self = self.add_size(size);
    }

    /// In-place form of [`Rect::sub_size`].
    pub fn sub_assign_size(&mut self, size: Size)
        ensures
            *final(self) == old(self).shrunk(size),
    {
        *self = self.sub_size(size);
    }
}

/// Moving a well-formed rectangle by the zero offset, in either direction,
/// and growing or shrinking it by the zero size, leave it unchanged.
pub proof fn lemma_zero_is_identity(r: Rect)
    requires
        r.wf(),
    ensures
        r.translated(0, 0) == r,
        r.translated(-0int, -0int) == r,
        r.grown(Size { width: 0, height: 0 }) == r,
        r.shrunk(Size { width: 0, height: 0 }) == r,
{
}

/// Moving by an offset and back returns the rectangle whenever neither move
/// had to clamp.
pub proof fn lemma_translate_round_trip(r: Rect, dx: int, dy: int)
    requires
        r.wf(),
        0 <= r.x + dx <= u16::MAX - r.width,
        0 <= r.y + dy <= u16::MAX - r.height,
    ensures
        r.translated(dx, dy).translated(-dx, -dy) == r,
{
}

} // verus!
