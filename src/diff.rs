//! The diff engine: the draw instructions that turn what one buffer shows
//! into what another shows.
use vstd::prelude::*;
use vstd::string::*;
use crate::buffer::{lemma_next_pos, pos_x, pos_y, Buffer, CellModel};
use crate::geometry::Rect;
use crate::style::Color;

verus! {

/// Text to draw from `(x, y)` to the right, in one style.
#[derive(Debug, Clone, PartialEq, Eq, Hash)]
pub struct DrawInstruction {
    pub x: u16,
    pub y: u16,
    pub fg: Color,
    pub bg: Color,
    pub modifier: u16,
    pub content: String,
}

/// What a draw instruction says.
pub ghost struct InstructionModel {
    pub x: int,
    pub y: int,
    pub fg: Color,
    pub bg: Color,
    pub modifier: u16,
    pub content: Seq<char>,
}

impl View for DrawInstruction {
    type V = InstructionModel;

    open spec fn view(&self) -> InstructionModel {
        InstructionModel {
            x: self.x as int,
            y: self.y as int,
            fg: self.fg,
            bg: self.bg,
            modifier: self.modifier,
            content: self.content@,
        }
    }
}

/// The instructions of a diff, and whether the two buffers covered different
/// areas, in which case everything is drawn again.
#[derive(Debug, Clone, PartialEq, Eq, Hash)]
pub struct Diff {
    pub instructions: Vec<DrawInstruction>,
    pub resized: bool,
}

/// A single-cell instruction drawing `c` at content position `i`.
pub open spec fn cell_instruction(area: Rect, i: int, c: CellModel) -> InstructionModel {
    InstructionModel {
        x: pos_x(area, i),
        y: pos_y(area, i),
        fg: c.fg,
        bg: c.bg,
        modifier: c.modifier,
        content: c.symbol,
    }
}

/// Whether cell `i` must be drawn: it is no continuation of a wide glyph,
/// and either everything is drawn or it changed.
pub open spec fn dirty(prev: Seq<CellModel>, cur: Seq<CellModel>, full: bool, i: int) -> bool {
    !cur[i].continuation && (full || prev[i] != cur[i])
}

/// The instructions for the first `k` cells of `cur`, and whether the last
/// instruction ends at cell `k - 1` and so may be extended. Dirty cells next
/// to each other in a row, in one style, are drawn by one instruction;
/// continuation cells belong to the glyph on their left.
pub open spec fn scan(
    prev: Seq<CellModel>,
    cur: Seq<CellModel>,
    area: Rect,
    full: bool,
    k: int,
) -> (Seq<InstructionModel>, bool)
    decreases k,
{
    if k <= 0 {
        (Seq::empty(), false)
    } else {
        let before = scan(prev, cur, area, full, k - 1);
        let i = k - 1;
        let c = cur[i];
        let open = before.1 && i % (area.width as int) != 0;
        if c.continuation {
            (before.0, open)
        } else if dirty(prev, cur, full, i) {
            let out = before.0;
            let last = out.last();
            if open && last.fg == c.fg && last.bg == c.bg && last.modifier == c.modifier {
                (out.update(out.len() - 1, InstructionModel { content: last.content + c.symbol, ..last }), true)
            } else {
                (out.push(cell_instruction(area, i, c)), true)
            }
        } else {
            (before.0, false)
        }
    }
}

/// What [`Buffer::diff`] returns from `prev` to `next`.
pub open spec fn diff_model(prev: Buffer, next: Buffer) -> Seq<InstructionModel> {
    scan(prev.cells(), next.cells(), next.area, prev.area != next.area, next.cells().len() as int).0
}

proof fn lemma_scan_open(prev: Seq<CellModel>, cur: Seq<CellModel>, area: Rect, full: bool, k: int)
    requires
        0 <= k,
    ensures
        scan(prev, cur, area, full, k).1 ==> scan(prev, cur, area, full, k).0.len() > 0,
    decreases k,
{
    if k > 0 {
        lemma_scan_open(prev, cur, area, full, k - 1);
    }
}

impl Buffer {
    /// The draw instructions that turn what `self` shows into what `next`
    /// shows, in row-major order. When the areas differ every cell of `next`
    /// is drawn and the diff says so.
    pub fn diff(&self, next: &Buffer) -> (r: Diff)
        requires
            self.wf(),
            next.wf(),
        ensures
            r.resized == (self.area != next.area),
            r.instructions@.map_values(|d: DrawInstruction| d@) == diff_model(*self, *next),
    {
        let full = self.area != next.area;
        let ghost prev = self.cells();
        let ghost cur = next.cells();
        let ghost area = next.area;
        let n = next.content.len();
        let w = next.area.width;
        let mut out: Vec<DrawInstruction> = Vec::new();
        let mut open = false;
        let mut cx: u16 = next.area.x;
        let mut cy: u16 = next.area.y;
        let mut i: usize = 0;
        if n > 0 {
            assert(w > 0) by (nonlinear_arith)
                requires
                    n == w * next.area.height,
                    n > 0,
            ;
            assert(0int % (w as int) == 0 && 0int / (w as int) == 0) by (nonlinear_arith)
                requires
                    w > 0,
            ;
        }
        while i < n
            invariant
                next.wf(),
                self.wf(),
                area == next.area,
                prev == self.cells(),
                cur == next.cells(),
                full == (self.area != next.area),
                n == cur.len(),
                w == area.width,
                i <= n,
                i < n ==> w > 0 && cx == pos_x(area, i as int) && cy == pos_y(area, i as int),
                (out@.map_values(|d: DrawInstruction| d@), open) == scan(prev, cur, area, full, i as int),
            decreases n - i,
        {
            proof {
                lemma_scan_open(prev, cur, area, full, i as int);
                lemma_next_pos(w as int, i as int, cx - area.x, cy - area.y);
                assert(cy < area.y + area.height) by (nonlinear_arith)
                    requires
                        cy == area.y + (i as int) / (w as int),
                        i < n,
                        n == area.width * area.height,
                        w == area.width,
                        w > 0,
                ;
            }
            let c = &next.content[i];
            let at_row_start = cx == next.area.x;
            let still_open = open && !at_row_start;
            if c.continuation {
                open = still_open;
            } else if full || !self.content[i].same_as(c) {
                let ghost old_out = out@;
                let len = out.len();
                if still_open && out[len - 1].fg == c.fg && out[len - 1].bg == c.bg
                    && out[len - 1].modifier == c.modifier {
                    let mut last = out.pop().unwrap();
                    last.content.append(c.symbol.as_str());
                    out.push(last);
                    assert(out@ =~= old_out.update(len - 1, last));
                } else {
                    out.push(
                        DrawInstruction {
                            x: cx,
                            y: cy,
                            fg: c.fg,
                            bg: c.bg,
                            modifier: c.modifier,
                            content: c.symbol.clone(),
                        },
                    );
                }
                open = true;
            } else {
                open = false;
            }
            assert(out@.map_values(|d: DrawInstruction| d@) =~= scan(prev, cur, area, full, i + 1).0);
            if cx - next.area.x + 1 < w {
                cx = cx + 1;
            } else {
                cx = next.area.x;
                cy = cy + 1;
            }
            i = i + 1;
        }
        Diff { instructions: out, resized: full }
    }
}


proof fn lemma_scan_same(cells: Seq<CellModel>, area: Rect, k: int)
    requires
        0 <= k <= cells.len(),
    ensures
        scan(cells, cells, area, false, k).0 == Seq::<InstructionModel>::empty(),
    decreases k,
{
    if k > 0 {
        lemma_scan_same(cells, area, k - 1);
    }
}

proof fn lemma_scan_one(prev: Seq<CellModel>, cur: Seq<CellModel>, area: Rect, j: int, k: int)
    requires
        prev.len() == cur.len(),
        0 <= j < cur.len(),
        0 <= k <= cur.len(),
        prev[j] != cur[j],
        !cur[j].continuation,
        forall|i: int| 0 <= i < cur.len() && i != j ==> prev[i] == cur[i],
    ensures
        k <= j ==> scan(prev, cur, area, false, k).0 == Seq::<InstructionModel>::empty()
            && !scan(prev, cur, area, false, k).1,
        k > j ==> scan(prev, cur, area, false, k).0 == seq![cell_instruction(area, j, cur[j])],
    decreases k,
{
    if k > 0 {
        lemma_scan_one(prev, cur, area, j, k - 1);
        if k - 1 == j {
            assert(Seq::<InstructionModel>::empty().push(cell_instruction(area, j, cur[j]))
                =~= seq![cell_instruction(area, j, cur[j])]);
        }
    }
}

/// Diffing a buffer against a copy of itself gives no instruction.
pub proof fn lemma_diff_of_copy(prev: Buffer, next: Buffer)
    requires
        prev.area == next.area,
        prev.cells() == next.cells(),
    ensures
        diff_model(prev, next) == Seq::<InstructionModel>::empty(),
{
    lemma_scan_same(next.cells(), next.area, next.cells().len() as int);
}

/// Two buffers over one area that differ in exactly one cell, which is not
/// the continuation of a wide glyph, give exactly one instruction: that
/// cell, alone, at its position.
pub proof fn lemma_diff_of_one_change(prev: Buffer, next: Buffer, j: int)
    requires
        prev.wf(),
        next.wf(),
        prev.area == next.area,
        0 <= j < next.cells().len(),
        prev.cells()[j] != next.cells()[j],
        !next.cells()[j].continuation,
        forall|i: int| 0 <= i < next.cells().len() && i != j ==> prev.cells()[i] == next.cells()[i],
    ensures
        diff_model(prev, next) == seq![cell_instruction(next.area, j, next.cells()[j])],
{
    lemma_scan_one(prev.cells(), next.cells(), next.area, j, next.cells().len() as int);
}

} // verus!
