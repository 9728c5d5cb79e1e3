//! Cells and the buffer: a grid of styled cells covering a rectangle.
use vstd::prelude::*;
use vstd::string::*;
use crate::geometry::{min_int, Rect};
use crate::style::{Color, Style};

verus! {

/// Columns that a character outside ASCII takes, as the width tables give it.
pub uninterp spec fn wide_columns(c: char) -> nat;

/// Control characters take no place on screen and are never written.
pub open spec fn is_control(c: char) -> bool {
    (c as u32) < 0x20 || (0x7f <= (c as u32) && (c as u32) < 0xa0)
}

/// Columns that a character takes on screen.
pub open spec fn glyph_width(c: char) -> nat {
    if is_control(c) {
        0
    } else if (c as u32) < 0x7f {
        1
    } else {
        wide_columns(c)
    }
}

/// Relies on `unicode_width::UnicodeWidthChar::width` for `char`: `None` for
/// the control characters below U+0020 and from U+007F to U+009F, one column
/// for the rest of ASCII, and otherwise a table entry of at most three columns.
#[verifier::external_body]
fn char_width(c: char) -> (r: Option<usize>)
    ensures
        is_control(c) <==> r is None,
        r is Some ==> r->0 <= 3,
        r is Some && (c as u32) < 0x7f ==> r->0 == 1,
        r is Some && (c as u32) >= 0x7f ==> r->0 == wide_columns(c),
{
    unicode_width::UnicodeWidthChar::width(c)
}

/// Columns that `c` takes; zero for control characters.
pub fn glyph_columns(c: char) -> (r: u16)
    ensures
        r == glyph_width(c),
        r <= 3,
{
    match char_width(c) {
        None => 0,
        Some(w) => w as u16,
    }
}

/// What a cell shows.
pub ghost struct CellModel {
    pub symbol: Seq<char>,
    pub fg: Color,
    pub bg: Color,
    pub modifier: u16,
    pub continuation: bool,
}

/// One position of the grid: a symbol, its colors and attribute bits, and
/// whether it is covered by the wide glyph of the cell to its left.
#[derive(Debug, Clone, PartialEq, Eq, Hash)]
pub struct Cell {
    pub symbol: String,
    pub fg: Color,
    pub bg: Color,
    pub modifier: u16,
    pub continuation: bool,
}

impl View for Cell {
    type V = CellModel;

    open spec fn view(&self) -> CellModel {
        CellModel {
            symbol: self.symbol@,
            fg: self.fg,
            bg: self.bg,
            modifier: self.modifier,
            continuation: self.continuation,
        }
    }
}

/// A space with default colors and no attributes.
pub open spec fn blank_model() -> CellModel {
    CellModel {
        symbol: seq![' '],
        fg: Color::Reset,
        bg: Color::Reset,
        modifier: 0,
        continuation: false,
    }
}

/// `m` with `style` applied.
pub open spec fn styled(m: CellModel, style: Style) -> CellModel {
    CellModel {
        fg: match style.fg {
            Some(c) => c,
            None => m.fg,
        },
        bg: match style.bg {
            Some(c) => c,
            None => m.bg,
        },
        modifier: (m.modifier | style.add_modifier) & !style.sub_modifier,
        ..m
    }
}

impl Cell {
    /// A blank cell.
    pub fn blank() -> (r: Cell)
        ensures
            r@ == blank_model(),
    {
        let symbol = String::from_str(" ");
        proof {
            reveal_strlit(" ");
        }
        assert(symbol@ =~= seq![' ']);
        Cell { symbol, fg: Color::Reset, bg: Color::Reset, modifier: 0, continuation: false }
    }

    /// A copy of the cell.
    pub fn duplicate(&self) -> (r: Cell)
        ensures
            r@ == self@,
    {
        Cell {
            symbol: self.symbol.clone(),
            fg: self.fg,
            bg: self.bg,
            modifier: self.modifier,
            continuation: self.continuation,
        }
    }

    /// Whether the two cells show the same thing.
    pub fn same_as(&self, other: &Cell) -> (r: bool)
        ensures
            r == (self@ == other@),
    {
        self.symbol == other.symbol && self.fg == other.fg && self.bg == other.bg && self.modifier
            == other.modifier && self.continuation == other.continuation
    }

    pub fn set_symbol(&mut self, symbol: &str)
        ensures
            final(self)@ == (CellModel { symbol: symbol@, ..old(self)@ }),
    {
        self.symbol = String::from_str(symbol);
    }

    pub fn set_style(&mut self, style: Style)
        ensures
            final(self)@ == styled(old(self)@, style),
    {
        match style.fg {
            Some(c) => {
                self.fg = c;
            },
            None => {},
        }
        match style.bg {
            Some(c) => {
                self.bg = c;
            },
            None => {},
        }
        self.modifier = (self.modifier | style.add_modifier) & !style.sub_modifier;
    }

    /// The style that turns a blank cell into this one.
    pub fn style(&self) -> (r: Style)
        ensures
            r == (Style {
                fg: Some(self.fg),
                bg: Some(self.bg),
                add_modifier: self.modifier,
                sub_modifier: 0,
            }),
    {
        Style { fg: Some(self.fg), bg: Some(self.bg), add_modifier: self.modifier, sub_modifier: 0 }
    }

    /// Makes the cell blank again.
    pub fn reset(&mut self)
        ensures
            final(self)@ == blank_model(),
    {
        *self = Cell::blank();
    }
}

/// A grid of cells over `area`, row by row.
#[derive(Debug, Clone, PartialEq, Eq, Hash)]
pub struct Buffer {
    pub area: Rect,
    pub content: Vec<Cell>,
}

/// Position of `(x, y)` in the row-major cells of `area`.
pub open spec fn cell_index(area: Rect, x: int, y: int) -> int {
    (y - area.y) * area.width + (x - area.x)
}

proof fn lemma_index_in_bounds(area: Rect, x: int, y: int)
    requires
        area.spec_contains(x, y),
    ensures
        0 <= cell_index(area, x, y) < area.width * area.height,
{
    let a = y - area.y;
    let b = x - area.x;
    let w = area.width as int;
    let h = area.height as int;
    assert(0 <= a * w + b < h * w) by (nonlinear_arith)
        requires
            0 <= a < h,
            0 <= b < w,
    ;
    assert(area.width * area.height == h * w) by (nonlinear_arith)
        requires
            w == area.width,
            h == area.height,
    ;
}

/// `cells` with the glyph `c` at `at`, the next `k - 1` places turned into its
/// continuation, all with `style` applied.
pub open spec fn put_glyph(
    cells: Seq<CellModel>,
    at: int,
    c: char,
    k: nat,
    style: Style,
) -> Seq<CellModel> {
    Seq::new(
        cells.len(),
        |j: int|
            if j == at {
                CellModel { symbol: seq![c], continuation: false, ..styled(cells[j], style) }
            } else if at < j < at + k {
                CellModel { symbol: Seq::empty(), continuation: true, ..styled(cells[j], style) }
            } else {
                cells[j]
            },
    )
}

/// The cells after writing `s` from `(x, y)` on, with `room` columns left:
/// control characters are skipped, and writing stops at the first glyph that
/// does not fit.
pub open spec fn write_run(
    cells: Seq<CellModel>,
    area: Rect,
    x: int,
    y: int,
    s: Seq<char>,
    room: int,
    style: Style,
) -> Seq<CellModel>
    decreases s.len(),
{
    if s.len() == 0 {
        cells
    } else {
        let c = s[0];
        let w = glyph_width(c);
        if w == 0 {
            write_run(cells, area, x, y, s.drop_first(), room, style)
        } else if w > room {
            cells
        } else {
            write_run(
                put_glyph(cells, cell_index(area, x, y), c, w, style),
                area,
                x + w,
                y,
                s.drop_first(),
                room - w,
                style,
            )
        }
    }
}

/// Columns left for a write at `(x, y)` limited to `max_width` columns.
pub open spec fn room_at(area: Rect, x: int, y: int, max_width: int) -> int {
    if area.y <= y < area.y + area.height && area.x <= x < area.x + area.width {
        min_int(area.x + area.width - x, max_width)
    } else {
        0
    }
}

impl Buffer {
    pub open spec fn wf(&self) -> bool {
        self.area.wf() && self.content@.len() == self.area.width * self.area.height
    }

    /// What each cell shows, row by row.
    pub open spec fn cells(&self) -> Seq<CellModel> {
        self.content@.map_values(|c: Cell| c@)
    }

    /// What the cell at `(x, y)` shows.
    pub open spec fn at(&self, x: int, y: int) -> CellModel {
        self.cells()[cell_index(self.area, x, y)]
    }

    /// Whether the buffer is well formed: its area fits the coordinate space
    /// and it holds one cell per position.
    pub fn is_well_formed(&self) -> (r: bool)
        ensures
            r == self.wf(),
    {
        let cells = self.area.area() as u64;
        (self.area.x as u32 + self.area.width as u32) <= 0xffff && (self.area.y as u32
            + self.area.height as u32) <= 0xffff && self.content.len() as u64 == cells
    }

    /// A buffer over `area` whose cells are all blank.
    pub fn empty(area: Rect) -> (r: Buffer)
        requires
            area.wf(),
        ensures
            r.wf(),
            r.area == area,
            forall|i: int| 0 <= i < r.cells().len() ==> r.cells()[i] == blank_model(),
    {
        let cell = Cell::blank();
        Buffer::filled(area, &cell)
    }

    /// A buffer over `area` whose cells all show `cell`.
    pub fn filled(area: Rect, cell: &Cell) -> (r: Buffer)
        requires
            area.wf(),
        ensures
            r.wf(),
            r.area == area,
            forall|i: int| 0 <= i < r.cells().len() ==> r.cells()[i] == cell@,
    {
        let n = area.area() as usize;
        let mut content: Vec<Cell> = Vec::new();
        let mut i: usize = 0;
        while i < n
            invariant
                i <= n,
                n == area.width * area.height,
                content@.len() == i,
                forall|j: int| 0 <= j < i ==> content@[j]@ == cell@,
            decreases n - i,
        {
            content.push(cell.duplicate());
            i = i + 1;
        }
        Buffer { area, content }
    }

    /// Position of `(x, y)` in `content`.
    pub fn index_of(&self, x: u16, y: u16) -> (r: usize)
        requires
            self.wf(),
            self.area.spec_contains(x as int, y as int),
        ensures
            r == cell_index(self.area, x as int, y as int),
            r < self.content@.len(),
    {
        proof {
            lemma_index_in_bounds(self.area, x as int, y as int);
        }
        let row = (y - self.area.y) as usize;
        let col = (x - self.area.x) as usize;
        let w = self.area.width as usize;
        assert(row * w <= 0xffff * 0xffff) by (nonlinear_arith)
            requires
                row <= 0xffff,
                w <= 0xffff,
        ;
        row * w + col
    }

    /// The cell at `(x, y)`.
    pub fn get(&self, x: u16, y: u16) -> (r: &Cell)
        requires
            self.wf(),
            self.area.spec_contains(x as int, y as int),
        ensures
            r@ == self.at(x as int, y as int),
    {
        let i = self.index_of(x, y);
        &self.content[i]
    }

    /// Replaces the cell at content position `i`.
    fn put(&mut self, i: usize, cell: Cell)
        requires
            i < old(self).content@.len(),
        ensures
            final(self).area == old(self).area,
            final(self).content@.len() == old(self).content@.len(),
            final(self).cells() == old(self).cells().update(i as int, cell@),
    {
        self.content.set(i, cell);
        assert(self.cells() =~= old(self).cells().update(i as int, cell@));
    }

    /// Writes `s` from `(x, y)` on, with `style`, within `max_width` columns
    /// and the buffer's own edge; a position outside the buffer writes nothing.
    pub fn set_stringn(&mut self, x: u16, y: u16, s: &str, max_width: u16, style: Style)
        requires
            old(self).wf(),
        ensures
            final(self).wf(),
            final(self).area == old(self).area,
            final(self).cells() == write_run(
                old(self).cells(),
                old(self).area,
                x as int,
                y as int,
                s@,
                room_at(old(self).area, x as int, y as int, max_width as int),
                style,
            ),
    {
        let ghost full = write_run(
            self.cells(),
            self.area,
            x as int,
            y as int,
            s@,
            room_at(self.area, x as int, y as int, max_width as int),
            style,
        );
        let inside = self.area.y <= y && (y as u32) < self.area.y as u32 + self.area.height as u32
            && self.area.x <= x && (x as u32) < self.area.x as u32 + self.area.width as u32;
        let mut room: u16 = if inside {
            let edge = self.area.x + self.area.width - x;
            if edge <= max_width {
                edge
            } else {
                max_width
            }
        } else {
            0
        };
        let n = s.unicode_len();
        let mut i: usize = 0;
        let mut cx: u16 = x;
        assert(s@.subrange(0, n as int) =~= s@);
        while i < n
            invariant
                self.wf(),
                self.area == old(self).area,
                n == s@.len(),
                i <= n,
                room > 0 ==> self.area.spec_contains(cx as int, y as int),
                room > 0 ==> cx + room <= self.area.x + self.area.width,
                full == write_run(
                    self.cells(),
                    self.area,
                    cx as int,
                    y as int,
                    s@.subrange(i as int, n as int),
                    room as int,
                    style,
                ),
            decreases n - i,
        {
            let ghost rest = s@.subrange(i as int, n as int);
            assert(rest.drop_first() =~= s@.subrange(i + 1, n as int));
            let c = s.get_char(i);
            let w = glyph_columns(c);
            if w == 0 {
                i = i + 1;
            } else if w > room {
                i = n;
                assert(s@.subrange(n as int, n as int) =~= Seq::<char>::empty());
            } else {
                let at = self.index_of(cx, y);
                let ghost before = self.cells();
                let part = s.substring_char(i, i + 1);
                assert(part@ =~= seq![c]);
                let mut cell = self.content[at].duplicate();
                cell.set_symbol(part);
                cell.set_style(style);
                cell.continuation = false;
                self.put(at, cell);
                let mut k: u16 = 1;
                while k < w
                    invariant
                        self.wf(),
                        self.area == old(self).area,
                        1 <= k <= w,
                        cx + w <= self.area.x + self.area.width,
                        self.area.spec_contains(cx as int, y as int),
                        at == cell_index(self.area, cx as int, y as int),
                        before.len() == self.cells().len(),
                        self.cells() =~= put_glyph(before, at as int, c, k as nat, style),
                    decreases w - k,
                {
                    proof {
                        lemma_index_in_bounds(self.area, cx + k, y as int);
                    }
                    let j = self.index_of(cx + k, y);
                    assert(j == at + k);
                    assert(self.cells()[j as int] == before[j as int]);
                    let ghost mid = self.cells();
                    let mut cont = self.content[j].duplicate();
                    let empty = String::new();
                    cont.symbol = empty;
                    cont.set_style(style);
                    cont.continuation = true;
                    self.put(j, cont);
                    assert(self.cells() =~= put_glyph(before, at as int, c, (k + 1) as nat, style));
                    k = k + 1;
                }
                cx = cx + w;
                room = room - w;
                i = i + 1;
            }
        }
    }

    /// Writes `s` from `(x, y)` on, with `style`, up to the buffer's edge.
    pub fn set_string(&mut self, x: u16, y: u16, s: &str, style: Style)
        requires
            old(self).wf(),
        ensures
            final(self).wf(),
            final(self).area == old(self).area,
            final(self).cells() == write_run(
                old(self).cells(),
                old(self).area,
                x as int,
                y as int,
                s@,
                room_at(old(self).area, x as int, y as int, u16::MAX as int),
                style,
            ),
    {
        self.set_stringn(x, y, s, u16::MAX, style);
    }
}


/// Columns that the text `s` takes.
pub open spec fn text_width(s: Seq<char>) -> nat
    decreases s.len(),
{
    if s.len() == 0 {
        0
    } else {
        glyph_width(s[0]) + text_width(s.drop_first())
    }
}

/// The widest of the first `k` lines.
pub open spec fn widest(lines: Seq<Seq<char>>, k: int) -> nat
    decreases k,
{
    if k <= 0 || k > lines.len() {
        0
    } else if text_width(lines[k - 1]) > widest(lines, k - 1) {
        text_width(lines[k - 1])
    } else {
        widest(lines, k - 1)
    }
}

/// The cells of a blank `area` after writing the first `k` of `lines`, line
/// `i` from the start of row `i`.
pub open spec fn lines_written(area: Rect, lines: Seq<Seq<char>>, k: int) -> Seq<CellModel>
    decreases k,
{
    if k <= 0 {
        Seq::new((area.width * area.height) as nat, |i: int| blank_model())
    } else {
        write_run(
            lines_written(area, lines, k - 1),
            area,
            area.x as int,
            area.y + k - 1,
            lines[k - 1],
            room_at(area, area.x as int, area.y + k - 1, u16::MAX as int),
            Style { fg: None, bg: None, add_modifier: 0, sub_modifier: 0 },
        )
    }
}

/// Columns that `s` takes, capped at the largest coordinate.
pub fn str_width(s: &str) -> (r: u16)
    ensures
        r == min_int(text_width(s@) as int, u16::MAX as int),
{
    let n = s.unicode_len();
    let mut acc: u128 = 0;
    let mut i: usize = 0;
    assert(s@.subrange(0, n as int) =~= s@);
    while i < n
        invariant
            n == s@.len(),
            i <= n,
            acc <= 3 * i,
            n <= 0xffff_ffff_ffff_ffff,
            text_width(s@) == acc + text_width(s@.subrange(i as int, n as int)),
        decreases n - i,
    {
        assert(s@.subrange(i as int, n as int).drop_first() =~= s@.subrange(i + 1, n as int));
        let c = s.get_char(i);
        acc = acc + glyph_columns(c) as u128;
        i = i + 1;
    }
    assert(s@.subrange(n as int, n as int) =~= Seq::<char>::empty());
    if acc < 0xffff {
        acc as u16
    } else {
        0xffff
    }
}

impl Buffer {
    /// A buffer with one row per line, as wide as the widest line, holding the
    /// lines written from the left edge with the style that changes nothing.
    pub fn with_lines(lines: Vec<&str>) -> (r: Buffer)
        requires
            lines@.len() <= u16::MAX,
        ensures
            r.wf(),
            r.area == (Rect {
                x: 0,
                y: 0,
                width: min_int(
                    widest(lines@.map_values(|l: &str| l@), lines@.len() as int) as int,
                    u16::MAX as int,
                ) as u16,
                height: lines@.len() as u16,
            }),
            r.cells() == lines_written(
                r.area,
                lines@.map_values(|l: &str| l@),
                lines@.len() as int,
            ),
    {
        let ghost views = lines@.map_values(|l: &str| l@);
        let n = lines.len();
        let mut width: u16 = 0;
        let mut i: usize = 0;
        while i < n
            invariant
                n == lines@.len(),
                i <= n,
                views == lines@.map_values(|l: &str| l@),
                width == min_int(widest(views, i as int) as int, u16::MAX as int),
            decreases n - i,
        {
            let w = str_width(lines[i]);
            if w > width {
                width = w;
            }
            i = i + 1;
        }
        let area = Rect::new(0, 0, width, n as u16);
        let mut buf = Buffer::empty(area);
        assert(buf.cells() =~= lines_written(area, views, 0));
        let mut y: usize = 0;
        while y < n
            invariant
                n == lines@.len(),
                n <= u16::MAX,
                y <= n,
                views == lines@.map_values(|l: &str| l@),
                buf.wf(),
                buf.area == area,
                area.x == 0 && area.y == 0 && area.height == n,
                buf.cells() == lines_written(area, views, y as int),
            decreases n - y,
        {
            buf.set_string(0, y as u16, lines[y], Style::new());
            y = y + 1;
        }
        buf
    }

    /// Makes every cell blank.
    pub fn reset(&mut self)
        requires
            old(self).wf(),
        ensures
            final(self).wf(),
            final(self).area == old(self).area,
            forall|i: int|
                0 <= i < final(self).cells().len() ==> final(self).cells()[i] == blank_model(),
    {
        let n = self.content.len();
        let mut i: usize = 0;
        while i < n
            invariant
                self.wf(),
                self.area == old(self).area,
                n == self.content@.len(),
                i <= n,
                forall|j: int| 0 <= j < i ==> self.cells()[j] == blank_model(),
            decreases n - i,
        {
            self.put(i, Cell::blank());
            i = i + 1;
        }
    }
}


/// Whether two texts hold the same characters.
pub fn same_text(a: &str, b: &str) -> (r: bool)
    ensures
        r == (a@ == b@),
{
    let n = a.unicode_len();
    let m = b.unicode_len();
    if n != m {
        return false;
    }
    let mut i: usize = 0;
    while i < n
        invariant
            n == a@.len(),
            m == b@.len(),
            n == m,
            i <= n,
            forall|j: int| 0 <= j < i ==> a@[j] == b@[j],
        decreases n - i,
    {
        if a.get_char(i) != b.get_char(i) {
            return false;
        }
        i = i + 1;
    }
    assert(a@ =~= b@);
    true
}


/// Column of content position `i` of `area`.
pub open spec fn pos_x(area: Rect, i: int) -> int {
    area.x + i % (area.width as int)
}

/// Row of content position `i` of `area`.
pub open spec fn pos_y(area: Rect, i: int) -> int {
    area.y + i / (area.width as int)
}

/// Stepping to the next content position: along the row, or to the start
/// of the next row.
pub(crate) proof fn lemma_next_pos(w: int, i: int, qx: int, qy: int)
    requires
        w > 0,
        i >= 0,
        qx == i % w,
        qy == i / w,
    ensures
        qx + 1 < w ==> (i + 1) % w == qx + 1 && (i + 1) / w == qy,
        qx + 1 >= w ==> (i + 1) % w == 0 && (i + 1) / w == qy + 1,
        0 <= qx < w,
{
    vstd::arithmetic::div_mod::lemma_fundamental_div_mod(i, w);
    vstd::arithmetic::div_mod::lemma_mod_bound(i, w);
    if qx + 1 < w {
        vstd::arithmetic::div_mod::lemma_fundamental_div_mod_converse(i + 1, w, qy, qx + 1);
    } else {
        assert(i + 1 == (qy + 1) * w + 0) by (nonlinear_arith)
            requires
                i == w * qy + qx,
                qx + 1 == w,
        ;
        vstd::arithmetic::div_mod::lemma_fundamental_div_mod_converse(i + 1, w, qy + 1, 0);
    }
}


/// What position `i` of a buffer over `area` shows after a resize from a
/// buffer showing `old` over `old_area`.
pub open spec fn resized_cell(old: Seq<CellModel>, old_area: Rect, area: Rect, i: int) -> CellModel {
    if old_area.spec_contains(pos_x(area, i), pos_y(area, i)) {
        old[cell_index(old_area, pos_x(area, i), pos_y(area, i))]
    } else {
        blank_model()
    }
}

impl Buffer {
    /// Moves the buffer to `area`: positions inside both the old and the new
    /// area keep their cell, the others are blank.
    pub fn resize(&mut self, area: Rect)
        requires
            old(self).wf(),
            area.wf(),
        ensures
            final(self).wf(),
            final(self).area == area,
            forall|i: int|
                0 <= i < final(self).cells().len() ==> final(self).cells()[i] == resized_cell(
                    old(self).cells(),
                    old(self).area,
                    area,
                    i,
                ),
    {
        let n = area.area() as usize;
        let mut content: Vec<Cell> = Vec::new();
        let mut cx: u16 = area.x;
        let mut cy: u16 = area.y;
        let mut i: usize = 0;
        proof {
            if n > 0 {
                lemma_first_pos(area, n as int);
            }
        }
        while i < n
            invariant
                self.wf(),
                self == old(self),
                area.wf(),
                n == area.width * area.height,
                i <= n,
                i < n ==> area.width > 0 && cx == pos_x(area, i as int) && cy == pos_y(area, i as int),
                content@.len() == i,
                forall|k: int|
                    0 <= k < i ==> content@[k]@ == resized_cell(self.cells(), self.area, area, k),
            decreases n - i,
        {
            proof {
                lemma_next_pos(area.width as int, i as int, cx - area.x, cy - area.y);
                lemma_pos_in_area(area, i as int, n as int);
            }
            if self.area.contains(crate::geometry::Position { x: cx, y: cy }) {
                let j = self.index_of(cx, cy);
                content.push(self.content[j].duplicate());
            } else {
                content.push(Cell::blank());
            }
            if cx - area.x + 1 < area.width {
                cx = cx + 1;
            } else {
                cx = area.x;
                cy = cy + 1;
            }
            i = i + 1;
        }
        let ghost cells_before = self.cells();
        let ghost area_before = self.area;
        self.area = area;
        self.content = content;
        assert forall|k: int| 0 <= k < self.cells().len() implies self.cells()[k] == resized_cell(
            cells_before,
            area_before,
            area,
            k,
        ) by {}
    }

    /// Copies onto this buffer every cell of `other` whose position lies in
    /// both areas.
    pub fn merge(&mut self, other: &Buffer)
        requires
            old(self).wf(),
            other.wf(),
        ensures
            final(self).wf(),
            final(self).area == old(self).area,
            forall|i: int|
                0 <= i < final(self).cells().len() ==> final(self).cells()[i] == if other.area.spec_contains(
                    pos_x(old(self).area, i),
                    pos_y(old(self).area, i),
                ) {
                    other.at(pos_x(old(self).area, i), pos_y(old(self).area, i))
                } else {
                    old(self).cells()[i]
                },
    {
        let n = self.content.len();
        let ghost area = self.area;
        let mut cx: u16 = self.area.x;
        let mut cy: u16 = self.area.y;
        let mut i: usize = 0;
        proof {
            if n > 0 {
                lemma_first_pos(area, n as int);
            }
        }
        while i < n
            invariant
                self.wf(),
                other.wf(),
                self.area == area,
                area == old(self).area,
                n == area.width * area.height,
                i <= n,
                i < n ==> area.width > 0 && cx == pos_x(area, i as int) && cy == pos_y(area, i as int),
                forall|k: int|
                    0 <= k < n ==> self.cells()[k] == if k < i && other.area.spec_contains(
                        pos_x(area, k),
                        pos_y(area, k),
                    ) {
                        other.at(pos_x(area, k), pos_y(area, k))
                    } else {
                        old(self).cells()[k]
                    },
            decreases n - i,
        {
            proof {
                lemma_next_pos(area.width as int, i as int, cx - area.x, cy - area.y);
                lemma_pos_in_area(area, i as int, n as int);
            }
            if other.area.contains(crate::geometry::Position { x: cx, y: cy }) {
                let j = other.index_of(cx, cy);
                let c = other.content[j].duplicate();
                self.put(i, c);
            }
            if cx - self.area.x + 1 < self.area.width {
                cx = cx + 1;
            } else {
                cx = self.area.x;
                cy = cy + 1;
            }
            i = i + 1;
        }
    }

    /// Applies `style` to every cell whose position lies in `area`.
    pub fn set_style(&mut self, area: Rect, style: Style)
        requires
            old(self).wf(),
        ensures
            final(self).wf(),
            final(self).area == old(self).area,
            forall|i: int|
                0 <= i < final(self).cells().len() ==> final(self).cells()[i] == if area.spec_contains(
                    pos_x(old(self).area, i),
                    pos_y(old(self).area, i),
                ) {
                    styled(old(self).cells()[i], style)
                } else {
                    old(self).cells()[i]
                },
    {
        let n = self.content.len();
        let ghost own = self.area;
        let mut cx: u16 = self.area.x;
        let mut cy: u16 = self.area.y;
        let mut i: usize = 0;
        proof {
            if n > 0 {
                lemma_first_pos(own, n as int);
            }
        }
        while i < n
            invariant
                self.wf(),
                self.area == own,
                own == old(self).area,
                n == own.width * own.height,
                i <= n,
                i < n ==> own.width > 0 && cx == pos_x(own, i as int) && cy == pos_y(own, i as int),
                forall|k: int|
                    0 <= k < n ==> self.cells()[k] == if k < i && area.spec_contains(
                        pos_x(own, k),
                        pos_y(own, k),
                    ) {
                        styled(old(self).cells()[k], style)
                    } else {
                        old(self).cells()[k]
                    },
            decreases n - i,
        {
            proof {
                lemma_next_pos(own.width as int, i as int, cx - own.x, cy - own.y);
                lemma_pos_in_area(own, i as int, n as int);
            }
            assert(self.content@[i as int]@ == self.cells()[i as int]);
            if area.contains(crate::geometry::Position { x: cx, y: cy }) {
                let mut c = self.content[i].duplicate();
                c.set_style(style);
                self.put(i, c);
            }
            if cx - self.area.x + 1 < self.area.width {
                cx = cx + 1;
            } else {
                cx = self.area.x;
                cy = cy + 1;
            }
            i = i + 1;
        }
    }
}

/// Position `0` of a non-empty area is its top left corner.
proof fn lemma_first_pos(area: Rect, n: int)
    requires
        n == area.width * area.height,
        n > 0,
    ensures
        area.width > 0,
        pos_x(area, 0) == area.x,
        pos_y(area, 0) == area.y,
{
    assert(area.width > 0) by (nonlinear_arith)
        requires
            n == area.width * area.height,
            n > 0,
    ;
    assert(0int % (area.width as int) == 0 && 0int / (area.width as int) == 0) by (nonlinear_arith)
        requires
            area.width > 0,
    ;
}

/// Every content position of an area lies inside it, and maps back to its
/// own index.
proof fn lemma_pos_in_area(area: Rect, i: int, n: int)
    requires
        n == area.width * area.height,
        0 <= i < n,
        area.width > 0,
    ensures
        area.spec_contains(pos_x(area, i), pos_y(area, i)),
        cell_index(area, pos_x(area, i), pos_y(area, i)) == i,
{
    let w = area.width as int;
    vstd::arithmetic::div_mod::lemma_fundamental_div_mod(i, w);
    vstd::arithmetic::div_mod::lemma_mod_bound(i, w);
    vstd::arithmetic::div_mod::lemma_div_pos_is_pos(i, w);
    vstd::arithmetic::mul::lemma_mul_is_commutative(w, i / w);
    assert(i / w < area.height) by (nonlinear_arith)
        requires
            i == w * (i / w) + i % w,
            0 <= i % w,
            i < n,
            n == w * area.height,
            w > 0,
    ;
}

} // verus!
