//! Drawing a diff over the frame it was taken from gives the new frame.
use vstd::prelude::*;
use crate::backend::{applied, exact_style};
use crate::buffer::{
    cell_index, glyph_width, lemma_next_pos, pos_x, pos_y, put_glyph, room_at, styled,
    write_run, Buffer, CellModel,
};
use crate::diff::{diff_model, scan, DrawInstruction, InstructionModel};
use crate::geometry::Rect;
use crate::style::Style;

verus! {

/// Every cell shows one character one column wide, and none continues a wide
/// glyph.
pub open spec fn narrow_cells(cells: Seq<CellModel>) -> bool {
    forall|i: int|
        0 <= i < cells.len() ==> !(#[trigger] cells[i]).continuation && cells[i].symbol.len() == 1
            && glyph_width(cells[i].symbol[0]) == 1
}

/// The style that makes a cell show exactly what `d` says.
pub open spec fn model_style(d: InstructionModel) -> Style {
    Style { fg: Some(d.fg), bg: Some(d.bg), add_modifier: d.modifier, sub_modifier: !d.modifier }
}

/// The cells after the first `k` instruction models were drawn on them.
pub open spec fn replayed(
    cells: Seq<CellModel>,
    area: Rect,
    ds: Seq<InstructionModel>,
    k: int,
) -> Seq<CellModel>
    decreases k,
{
    if k <= 0 {
        cells
    } else {
        let d = ds[k - 1];
        write_run(
            replayed(cells, area, ds, k - 1),
            area,
            d.x,
            d.y,
            d.content,
            room_at(area, d.x, d.y, u16::MAX as int),
            model_style(d),
        )
    }
}

proof fn lemma_applied_is_replayed(cells: Seq<CellModel>, area: Rect, ds: Seq<DrawInstruction>, k: int)
    requires
        0 <= k <= ds.len(),
    ensures
        applied(cells, area, ds, k) == replayed(
            cells,
            area,
            ds.map_values(|d: DrawInstruction| d@),
            k,
        ),
    decreases k,
{
    if k > 0 {
        lemma_applied_is_replayed(cells, area, ds, k - 1);
        let d = ds[k - 1];
        assert(exact_style(d) == model_style(d@));
    }
}

proof fn lemma_replayed_prefix(
    cells: Seq<CellModel>,
    area: Rect,
    a: Seq<InstructionModel>,
    b: Seq<InstructionModel>,
    k: int,
)
    requires
        0 <= k <= a.len(),
        k <= b.len(),
        forall|i: int| 0 <= i < k ==> a[i] == b[i],
    ensures
        replayed(cells, area, a, k) == replayed(cells, area, b, k),
    decreases k,
{
    if k > 0 {
        lemma_replayed_prefix(cells, area, a, b, k - 1);
    }
}

/// Writing narrow text `s1 + s2` is writing `s1`, then `s2` right after it.
proof fn lemma_write_concat(
    cells: Seq<CellModel>,
    area: Rect,
    x: int,
    y: int,
    s1: Seq<char>,
    s2: Seq<char>,
    room: int,
    style: Style,
)
    requires
        s1.len() <= room,
        forall|t: int| 0 <= t < s1.len() ==> glyph_width(#[trigger] s1[t]) == 1,
    ensures
        write_run(cells, area, x, y, s1 + s2, room, style) == write_run(
            write_run(cells, area, x, y, s1, room, style),
            area,
            x + s1.len(),
            y,
            s2,
            room - s1.len(),
            style,
        ),
    decreases s1.len(),
{
    if s1.len() > 0 {
        assert((s1 + s2)[0] == s1[0]);
        assert((s1 + s2).drop_first() =~= s1.drop_first() + s2);
        assert(glyph_width(s1[0]) == 1);
        assert forall|t: int| 0 <= t < s1.drop_first().len() implies glyph_width(
            #[trigger] s1.drop_first()[t],
        ) == 1 by {
            assert(s1.drop_first()[t] == s1[t + 1]);
        }
        lemma_write_concat(
            put_glyph(cells, cell_index(area, x, y), s1[0], 1, style),
            area,
            x + 1,
            y,
            s1.drop_first(),
            s2,
            room - 1,
            style,
        );
    } else {
        assert(s1 + s2 =~= s2);
    }
}

proof fn lemma_write_one(
    cells: Seq<CellModel>,
    area: Rect,
    x: int,
    y: int,
    s: Seq<char>,
    room: int,
    style: Style,
)
    requires
        s.len() == 1,
        glyph_width(s[0]) == 1,
        room >= 1,
    ensures
        write_run(cells, area, x, y, s, room, style) == put_glyph(
            cells,
            cell_index(area, x, y),
            s[0],
            1,
            style,
        ),
{
    let p = put_glyph(cells, cell_index(area, x, y), s[0], 1, style);
    assert(s.drop_first().len() == 0);
    assert(write_run(p, area, x + 1, y, s.drop_first(), room - 1, style) == p);
}

proof fn lemma_exact_modifier(m: u16, d: u16)
    ensures
        (m | d) & !(!d) == d,
{
    assert((m | d) & !(!d) == d) by (bit_vector);
}

/// What the replay of the scan so far shows: the new frame on the first `k`
/// cells, the old one after them; an open run ends at cell `k - 1`.
proof fn lemma_scan_replays(prev: Seq<CellModel>, next: Seq<CellModel>, area: Rect, k: int)
    requires
        area.wf(),
        area.width > 0,
        next.len() == area.width * area.height,
        prev.len() == next.len(),
        narrow_cells(next),
        0 <= k <= next.len(),
    ensures
        ({
            let (out, open) = scan(prev, next, area, false, k);
            &&& forall|j: int|
                0 <= j < next.len() ==> #[trigger] replayed(prev, area, out, out.len() as int)[j]
                    == if j < k {
                    next[j]
                } else {
                    prev[j]
                }
            &&& replayed(prev, area, out, out.len() as int).len() == next.len()
            &&& open ==> {
                &&& out.len() > 0
                &&& k > 0
                &&& out.last().y == pos_y(area, k - 1)
                &&& out.last().x >= area.x
                &&& out.last().x + out.last().content.len() == pos_x(area, k - 1) + 1
                &&& forall|t: int|
                    0 <= t < out.last().content.len() ==> glyph_width(
                        #[trigger] out.last().content[t],
                    ) == 1
                &&& out.last().fg == next[k - 1].fg
                &&& out.last().bg == next[k - 1].bg
                &&& out.last().modifier == next[k - 1].modifier
            }
        }),
    decreases k,
{
    if k > 0 {
        lemma_scan_replays(prev, next, area, k - 1);
        let i = k - 1;
        let w = area.width as int;
        let before = scan(prev, next, area, false, i);
        let out0 = before.0;
        let r0 = replayed(prev, area, out0, out0.len() as int);
        let c = next[i];
        assert(!c.continuation && c.symbol.len() == 1 && glyph_width(c.symbol[0]) == 1);
        vstd::arithmetic::div_mod::lemma_fundamental_div_mod(i, w);
        vstd::arithmetic::div_mod::lemma_mod_bound(i, w);
        vstd::arithmetic::div_mod::lemma_div_pos_is_pos(i, w);
        assert(i / w < area.height) by (nonlinear_arith)
            requires
                i == w * (i / w) + i % w,
                0 <= i % w,
                i < w * area.height,
                w > 0,
        ;
        let px = pos_x(area, i);
        let py = pos_y(area, i);
        vstd::arithmetic::mul::lemma_mul_is_commutative(w, i / w);
        assert(cell_index(area, px, py) == i);
        assert(area.spec_contains(px, py));
        if prev[i] != c {
            let open = before.1 && i % w != 0;
            let st_new = model_style(
                InstructionModel {
                    x: px,
                    y: py,
                    fg: c.fg,
                    bg: c.bg,
                    modifier: c.modifier,
                    content: c.symbol,
                },
            );
            lemma_exact_modifier(r0[i].modifier, c.modifier);
            if open && out0.last().fg == c.fg && out0.last().bg == c.bg && out0.last().modifier
                == c.modifier {
                let last = out0.last();
                let n0 = out0.len() as int;
                let grown = InstructionModel { content: last.content + c.symbol, ..last };
                let out1 = out0.update(n0 - 1, grown);
                lemma_next_pos(w, i - 1, (i - 1) % w, (i - 1) / w);
                assert(i % w == (i - 1) % w + 1 && i / w == (i - 1) / w);
                lemma_replayed_prefix(prev, area, out0, out1, n0 - 1);
                let base = replayed(prev, area, out0, n0 - 1);
                let room = room_at(area, last.x, last.y, u16::MAX as int);
                assert(room == area.x + area.width - last.x);
                lemma_write_concat(
                    base,
                    area,
                    last.x,
                    last.y,
                    last.content,
                    c.symbol,
                    room,
                    model_style(last),
                );
                assert(c.symbol =~= seq![c.symbol[0]]);
                assert(c.symbol.drop_first() =~= Seq::<char>::empty());
                assert(model_style(grown) == model_style(last));
                let r1 = replayed(prev, area, out1, n0);
                assert(out1[n0 - 1] == grown);
                assert(r1 == write_run(base, area, last.x, last.y, last.content + c.symbol, room, model_style(last)));
                assert(r0 == write_run(base, area, last.x, last.y, last.content, room, model_style(last)));
                assert(last.x + last.content.len() == px);
                assert(last.y == py);
                lemma_write_one(r0, area, px, py, c.symbol, room - last.content.len(), model_style(last));
                assert(r1 == put_glyph(r0, i, c.symbol[0], 1, model_style(last)));
                assert forall|t: int| 0 <= t < grown.content.len() implies glyph_width(
                    #[trigger] grown.content[t],
                ) == 1 by {
                    if t < last.content.len() {
                        assert(grown.content[t] == last.content[t]);
                    } else {
                        assert(grown.content[t] == c.symbol[0]);
                    }
                }
                assert forall|j: int| 0 <= j < next.len() implies #[trigger] r1[j] == if j < k {
                    next[j]
                } else {
                    prev[j]
                } by {
                    if j == i {
                        assert(r1[j].symbol =~= c.symbol);
                    }
                }
            } else {
                let d = InstructionModel {
                    x: px,
                    y: py,
                    fg: c.fg,
                    bg: c.bg,
                    modifier: c.modifier,
                    content: c.symbol,
                };
                let out1 = out0.push(d);
                let n0 = out0.len() as int;
                lemma_replayed_prefix(prev, area, out0, out1, n0);
                assert(c.symbol =~= seq![c.symbol[0]]);
                assert(c.symbol.drop_first() =~= Seq::<char>::empty());
                let r1 = replayed(prev, area, out1, n0 + 1);
                assert(out1[n0] == d);
                assert(replayed(prev, area, out1, n0) == r0);
                let room = room_at(area, px, py, u16::MAX as int);
                assert(room >= 1);
                assert(r1 == write_run(r0, area, px, py, c.symbol, room, model_style(d)));
                lemma_write_one(r0, area, px, py, c.symbol, room, model_style(d));
                assert(r1 == put_glyph(r0, i, c.symbol[0], 1, model_style(d)));
                assert forall|j: int| 0 <= j < next.len() implies #[trigger] r1[j] == if j < k {
                    next[j]
                } else {
                    prev[j]
                } by {
                    if j == i {
                        assert(r1[j].symbol =~= c.symbol);
                    }
                }
            }
        }
    }
}

/// Drawing the instructions of a diff over the old frame, in order, gives
/// the new frame, for frames over one area whose new cells each show one
/// character one column wide.
pub proof fn lemma_diff_replays(prev: Buffer, next: Buffer, ds: Seq<DrawInstruction>)
    requires
        prev.wf(),
        next.wf(),
        prev.area == next.area,
        narrow_cells(next.cells()),
        ds.map_values(|d: DrawInstruction| d@) == diff_model(prev, next),
    ensures
        applied(prev.cells(), prev.area, ds, ds.len() as int) == next.cells(),
{
    let n = next.cells().len() as int;
    lemma_applied_is_replayed(prev.cells(), prev.area, ds, ds.len() as int);
    if n > 0 {
        assert(next.area.width > 0) by (nonlinear_arith)
            requires
                n == next.area.width * next.area.height,
                n > 0,
        ;
        lemma_scan_replays(prev.cells(), next.cells(), next.area, n);
        let r = applied(prev.cells(), prev.area, ds, ds.len() as int);
        assert(r =~= next.cells());
    } else {
        assert(diff_model(prev, next) =~= Seq::<InstructionModel>::empty());
        assert(ds.len() == 0);
        assert(applied(prev.cells(), prev.area, ds, 0) =~= next.cells());
    }
}

} // verus!
