//! The constraint-based layout solver: it cuts an area into segments along one
//! axis, with spacers between them, so that together they tile the area.
use vstd::prelude::*;
use crate::geometry::{min_int, Rect};

verus! {

/// The axis along which a layout places its segments.
#[derive(Debug, Default, Clone, Copy, PartialEq, Eq, Hash, Structural)]
pub enum Direction {
    Horizontal,
    #[default]
    Vertical,
}

/// A sizing rule for one segment.
#[derive(Debug, Clone, Copy, PartialEq, Eq, Hash, Structural)]
pub enum Constraint {
    /// Exactly this many cells.
    Length(u16),
    /// This percentage of the available length, rounded half up.
    Percentage(u16),
    /// This fraction of the available length, rounded half up.
    Ratio(u32, u32),
    /// At least this many cells; keeps to the bound when there is room.
    Min(u16),
    /// At most this many cells; grows to the bound when there is room.
    Max(u16),
    /// A share of the space left over, proportional to the weight.
    Fill(u16),
}

/// How space that no segment claims is placed.
#[derive(Debug, Default, Clone, Copy, PartialEq, Eq, Hash, Structural)]
pub enum Flex {
    /// Segments packed at the start; the gap at the end.
    #[default]
    Start,
    /// The gap split on both sides, the odd cell at the end.
    Center,
    /// Segments packed at the end; the gap at the start.
    End,
    /// The gap spread over the spaces between segments only.
    SpaceBetween,
    /// The gap spread over the spaces between, before and after segments.
    SpaceAround,
}

/// A description of how to cut an area: direction, constraints, spacing
/// between segments and the placement of unclaimed space.
#[derive(Debug, Clone, PartialEq, Eq, Hash)]
pub struct Layout {
    pub direction: Direction,
    pub constraints: Vec<Constraint>,
    pub spacing: u16,
    pub flex: Flex,
}

// ---------------------------------------------------------------------------
// The one-dimensional model.

/// Sum of the first `i` entries of `s`.
pub open spec fn psum(s: Seq<nat>, i: int) -> nat
    decreases i,
{
    if i <= 0 || s.len() == 0 {
        0
    } else if i > s.len() {
        psum(s, s.len() as int)
    } else {
        psum(s, i - 1) + s[i - 1]
    }
}

pub open spec fn total(s: Seq<nat>) -> nat {
    psum(s, s.len() as int)
}

/// The part of `t` that falls to the first `i` entries of `w`, proportional to
/// their weight; nothing when all weights are zero.
pub open spec fn quota(t: nat, w: Seq<nat>, i: int) -> nat {
    if total(w) == 0 {
        0
    } else {
        (t * psum(w, i)) / total(w)
    }
}

/// The spacing actually used between segments: cut back so that the gaps fit.
pub open spec fn effective_spacing(len: nat, n: nat, spacing: nat) -> nat {
    if n <= 1 {
        0
    } else {
        min_int(spacing as int, len as int / (n - 1) as int) as nat
    }
}

/// The length left for segments once the spacing is taken out.
pub open spec fn available(len: nat, n: nat, spacing: nat) -> nat {
    if n <= 1 {
        len
    } else {
        (len - effective_spacing(len, n, spacing) * (n - 1)) as nat
    }
}

/// The length a constraint asks for, out of `avail`, before any shrinking.
pub open spec fn requested(c: Constraint, avail: nat) -> nat {
    let raw: nat = match c {
        Constraint::Length(v) => v as nat,
        Constraint::Percentage(p) => ((avail * p + 50) / 100) as nat,
        Constraint::Ratio(a, b) => if b == 0 {
            0
        } else {
            ((2 * avail * a + b) / (2 * b as int)) as nat
        },
        Constraint::Min(v) => v as nat,
        Constraint::Max(v) => v as nat,
        Constraint::Fill(_) => 0,
    };
    min_int(raw as int, avail as int) as nat
}

/// The class of a constraint: exact ones (0) give way last, then minimums
/// (1), then maximums (2); fills (3) take what is left.
pub open spec fn priority(c: Constraint) -> nat {
    match c {
        Constraint::Length(_) | Constraint::Percentage(_) | Constraint::Ratio(_, _) => 0,
        Constraint::Min(_) => 1,
        Constraint::Max(_) => 2,
        Constraint::Fill(_) => 3,
    }
}

/// The requests of class `k`, zero at the other places.
pub open spec fn class_requests(cs: Seq<Constraint>, avail: nat, k: nat) -> Seq<nat> {
    Seq::new(cs.len(), |i: int| if priority(cs[i]) == k { requested(cs[i], avail) } else { 0 })
}

pub open spec fn raw_fill_weights(cs: Seq<Constraint>) -> Seq<nat> {
    Seq::new(
        cs.len(),
        |i: int|
            match cs[i] {
                Constraint::Fill(w) => w as nat,
                _ => 0,
            },
    )
}

pub open spec fn unit_fill_weights(cs: Seq<Constraint>) -> Seq<nat> {
    Seq::new(cs.len(), |i: int| if priority(cs[i]) == 3 { 1nat } else { 0nat })
}

/// Fill weights; when every fill has weight zero they share equally.
pub open spec fn fill_weights(cs: Seq<Constraint>) -> Seq<nat> {
    if total(raw_fill_weights(cs)) == 0 {
        unit_fill_weights(cs)
    } else {
        raw_fill_weights(cs)
    }
}

/// Sum of all requests of the non-fill constraints.
pub open spec fn requested_total(cs: Seq<Constraint>, avail: nat) -> nat {
    total(class_requests(cs, avail, 0)) + total(class_requests(cs, avail, 1)) + total(
        class_requests(cs, avail, 2),
    )
}

/// How much the requests exceed the available length.
pub open spec fn excess(cs: Seq<Constraint>, avail: nat) -> nat {
    if requested_total(cs, avail) > avail {
        (requested_total(cs, avail) - avail) as nat
    } else {
        0
    }
}

/// What is cut from classes 2, 1 and 0, in that order, to remove the excess.
pub open spec fn cut(cs: Seq<Constraint>, avail: nat, k: nat) -> nat {
    let e = excess(cs, avail);
    let s2 = total(class_requests(cs, avail, 2));
    let s1 = total(class_requests(cs, avail, 1));
    let s0 = total(class_requests(cs, avail, 0));
    let c2 = min_int(s2 as int, e as int);
    let c1 = min_int(s1 as int, e - c2);
    let c0 = min_int(s0 as int, e - c2 - c1);
    if k == 2 {
        c2 as nat
    } else if k == 1 {
        c1 as nat
    } else {
        c0 as nat
    }
}

/// The total length that class `k` receives.
pub open spec fn granted(cs: Seq<Constraint>, avail: nat, k: nat) -> nat {
    (total(class_requests(cs, avail, k)) - cut(cs, avail, k)) as nat
}

/// The length that no request claims.
pub open spec fn leftover(cs: Seq<Constraint>, avail: nat) -> nat {
    if requested_total(cs, avail) < avail {
        (avail - requested_total(cs, avail)) as nat
    } else {
        0
    }
}

/// The unclaimed length that the flex mode places: all of the leftover when
/// there is no fill segment to take it.
pub open spec fn gap(cs: Seq<Constraint>, avail: nat) -> nat {
    if total(fill_weights(cs)) > 0 {
        0
    } else {
        leftover(cs, avail)
    }
}

/// Total length of the first `i` segments.
pub open spec fn seg_cum(cs: Seq<Constraint>, avail: nat, i: int) -> nat {
    quota(granted(cs, avail, 0), class_requests(cs, avail, 0), i) + quota(
        granted(cs, avail, 1),
        class_requests(cs, avail, 1),
        i,
    ) + quota(granted(cs, avail, 2), class_requests(cs, avail, 2), i) + quota(
        leftover(cs, avail),
        fill_weights(cs),
        i,
    )
}

/// The unclaimed length placed before spacer `j` ends, for `j` in `0..=n+1`.
pub open spec fn gap_cum(flex: Flex, g: nat, n: nat, j: nat) -> nat {
    if j == 0 {
        0
    } else if j >= n + 1 {
        g
    } else {
        match flex {
            Flex::Start => 0,
            Flex::End => g,
            Flex::Center => g / 2,
            Flex::SpaceBetween => if n >= 2 {
                (g * (j - 1) / (n - 1)) as nat
            } else {
                0
            },
            Flex::SpaceAround => g * j / (n + 1),
        }
    }
}

/// Total length of the first `j` spacers: unclaimed length and spacing.
pub open spec fn spacer_cum(
    flex: Flex,
    g: nat,
    n: nat,
    spacing: nat,
    j: nat,
) -> nat {
    let inner: nat = if j == 0 || n == 0 {
        0
    } else {
        (spacing * (min_int(j as int, n as int) - 1)) as nat
    };
    gap_cum(flex, g, n, j) + inner
}

/// Where segment `i` starts on an axis of length `len`: after the first
/// `i + 1` spacers and the first `i` segments.
pub open spec fn segment_offset(
    cs: Seq<Constraint>,
    len: nat,
    spacing: nat,
    flex: Flex,
    i: int,
) -> nat {
    let n = cs.len();
    let avail = available(len, n, spacing);
    spacer_cum(flex, gap(cs, avail), n, effective_spacing(len, n, spacing), (i + 1) as nat)
        + seg_cum(cs, avail, i)
}

/// Length of segment `i`.
pub open spec fn segment_len(
    cs: Seq<Constraint>,
    len: nat,
    spacing: nat,
    i: int,
) -> nat {
    let avail = available(len, cs.len(), spacing);
    (seg_cum(cs, avail, i + 1) - seg_cum(cs, avail, i)) as nat
}

/// Where spacer `j` starts: after the first `j` spacers and segments.
pub open spec fn spacer_offset(
    cs: Seq<Constraint>,
    len: nat,
    spacing: nat,
    flex: Flex,
    j: int,
) -> nat {
    let n = cs.len();
    let avail = available(len, n, spacing);
    spacer_cum(flex, gap(cs, avail), n, effective_spacing(len, n, spacing), j as nat)
        + seg_cum(cs, avail, j)
}

/// Length of spacer `j`: the spacing, where it sits between two segments,
/// and its part of the unclaimed length.
pub open spec fn spacer_len(
    cs: Seq<Constraint>,
    len: nat,
    spacing: nat,
    flex: Flex,
    j: int,
) -> nat {
    let n = cs.len();
    let avail = available(len, n, spacing);
    let g = gap(cs, avail);
    let s = effective_spacing(len, n, spacing);
    (spacer_cum(flex, g, n, s, (j + 1) as nat) - spacer_cum(flex, g, n, s, j as nat)) as nat
}


// ---------------------------------------------------------------------------
// Facts about the model.

proof fn lemma_psum_step(s: Seq<nat>, i: int)
    requires
        0 <= i < s.len(),
    ensures
        psum(s, i + 1) == psum(s, i) + s[i],
{
}

proof fn lemma_psum_mono(s: Seq<nat>, i: int, j: int)
    requires
        0 <= i <= j <= s.len(),
    ensures
        psum(s, i) <= psum(s, j),
    decreases j - i,
{
    if i < j {
        lemma_psum_mono(s, i, j - 1);
        lemma_psum_step(s, j - 1);
    }
}

proof fn lemma_div_le(t: nat, p: nat, q: nat, s: nat)
    requires
        p <= q,
        s > 0,
    ensures
        (t * p) / s <= (t * q) / s,
{
    assert(t * p <= t * q) by (nonlinear_arith)
        requires
            p <= q,
    ;
    vstd::arithmetic::div_mod::lemma_div_is_ordered((t * p) as int, (t * q) as int, s as int);
}

proof fn lemma_div_self(t: nat, s: nat)
    requires
        s > 0,
    ensures
        (t * s) / s == t,
{
    vstd::arithmetic::div_mod::lemma_div_by_multiple(t as int, s as int);
}

/// A quota grows with `i` and reaches all of `t` at the end.
proof fn lemma_quota(t: nat, w: Seq<nat>, i: int, j: int)
    requires
        0 <= i <= j <= w.len(),
    ensures
        quota(t, w, i) <= quota(t, w, j),
        quota(t, w, j) <= t,
        total(w) > 0 ==> quota(t, w, w.len() as int) == t,
        total(w) == 0 ==> quota(t, w, j) == 0,
        quota(t, w, 0) == 0,
{
    assert(t * 0 == 0) by (nonlinear_arith);
    if total(w) > 0 {
        lemma_psum_mono(w, i, j);
        lemma_psum_mono(w, j, w.len() as int);
        lemma_div_le(t, psum(w, i), psum(w, j), total(w));
        lemma_div_le(t, psum(w, j), total(w), total(w));
        lemma_div_self(t, total(w));
    }
}

proof fn lemma_granted_sum(cs: Seq<Constraint>, avail: nat)
    ensures
        granted(cs, avail, 0) + granted(cs, avail, 1) + granted(cs, avail, 2) + leftover(cs, avail)
            == avail,
        granted(cs, avail, 0) <= total(class_requests(cs, avail, 0)),
        granted(cs, avail, 1) <= total(class_requests(cs, avail, 1)),
        granted(cs, avail, 2) <= total(class_requests(cs, avail, 2)),
{
}

/// The segments together take the available length less the gap.
proof fn lemma_seg_cum(cs: Seq<Constraint>, avail: nat, i: int, j: int)
    requires
        0 <= i <= j <= cs.len(),
    ensures
        seg_cum(cs, avail, i) <= seg_cum(cs, avail, j),
        seg_cum(cs, avail, j) <= avail,
        seg_cum(cs, avail, cs.len() as int) + gap(cs, avail) == avail,
        seg_cum(cs, avail, 0) == 0,
{
    let n = cs.len() as int;
    lemma_granted_sum(cs, avail);
    let w0 = class_requests(cs, avail, 0);
    let w1 = class_requests(cs, avail, 1);
    let w2 = class_requests(cs, avail, 2);
    let wf = fill_weights(cs);
    lemma_quota(granted(cs, avail, 0), w0, i, j);
    lemma_quota(granted(cs, avail, 1), w1, i, j);
    lemma_quota(granted(cs, avail, 2), w2, i, j);
    lemma_quota(leftover(cs, avail), wf, i, j);
    lemma_quota(granted(cs, avail, 0), w0, j, n);
    lemma_quota(granted(cs, avail, 1), w1, j, n);
    lemma_quota(granted(cs, avail, 2), w2, j, n);
    lemma_quota(leftover(cs, avail), wf, j, n);
}

proof fn lemma_gap_cum_one(flex: Flex, g: nat, n: nat, i: nat, j: nat)
    requires
        0 < i <= j < n + 1,
    ensures
        gap_cum(flex, g, n, i) <= gap_cum(flex, g, n, j) <= g,
{
    match flex {
        Flex::SpaceBetween => {
            if n >= 2 {
                lemma_div_le(g, (i - 1) as nat, (j - 1) as nat, (n - 1) as nat);
                lemma_div_le(g, (j - 1) as nat, (n - 1) as nat, (n - 1) as nat);
                lemma_div_self(g, (n - 1) as nat);
            }
        },
        Flex::SpaceAround => {
            lemma_div_le(g, i, j, n + 1);
            lemma_div_le(g, j, n + 1, n + 1);
            lemma_div_self(g, n + 1);
        },
        _ => {},
    }
}

proof fn lemma_gap_cum(flex: Flex, g: nat, n: nat, i: nat, j: nat)
    requires
        i <= j <= n + 1,
    ensures
        gap_cum(flex, g, n, i) <= gap_cum(flex, g, n, j) <= g,
{
    if 0 < i && j < n + 1 {
        lemma_gap_cum_one(flex, g, n, i, j);
    } else if 0 < i && i < n + 1 {
        lemma_gap_cum_one(flex, g, n, i, i);
    } else if 0 < j && j < n + 1 {
        lemma_gap_cum_one(flex, g, n, j, j);
    }
}

proof fn lemma_spacer_cum(flex: Flex, g: nat, n: nat, s: nat, i: nat, j: nat)
    requires
        i <= j <= n + 1,
    ensures
        spacer_cum(flex, g, n, s, i) <= spacer_cum(flex, g, n, s, j),
        spacer_cum(flex, g, n, s, j) <= g + if n == 0 {
            0
        } else {
            s * (n - 1)
        },
        spacer_cum(flex, g, n, s, n + 1) == g + if n == 0 {
            0
        } else {
            s * (n - 1)
        },
{
    lemma_gap_cum(flex, g, n, i, j);
    lemma_gap_cum(flex, g, n, j, n + 1);
    if n > 0 {
        let a: int = if i == 0 { 0 } else { min_int(i as int, n as int) - 1 };
        let b: int = if j == 0 { 0 } else { min_int(j as int, n as int) - 1 };
        assert(s * a <= s * b) by (nonlinear_arith)
            requires
                0 <= a <= b,
        ;
        assert(s * b <= s * (n - 1)) by (nonlinear_arith)
            requires
                0 <= b <= n - 1,
        ;
    }
}

proof fn lemma_available(len: nat, n: nat, spacing: nat)
    ensures
        available(len, n, spacing) + (if n == 0 {
            0
        } else {
            effective_spacing(len, n, spacing) * (n - 1)
        }) == len,
{
    if n > 1 {
        let s = effective_spacing(len, n, spacing);
        let q = len / (n - 1) as nat;
        assert(s * (n - 1) <= q * (n - 1)) by (nonlinear_arith)
            requires
                s <= q,
                n > 1,
        ;
        assert(q * (n - 1) <= len) by (nonlinear_arith)
            requires
                q == len / (n - 1) as nat,
                n > 1,
        ;
    }
}

/// The segments and spacers of one axis laid end to end: spacer `j` is
/// followed by segment `j`, which is followed by spacer `j + 1`, and the last
/// spacer ends at `len`.
pub proof fn lemma_axis_tiles(cs: Seq<Constraint>, len: nat, spacing: nat, flex: Flex)
    ensures
        spacer_offset(cs, len, spacing, flex, 0) == 0,
        forall|i: int|
            0 <= i < cs.len() ==> #[trigger] segment_offset(cs, len, spacing, flex, i) == spacer_offset(
                cs,
                len,
                spacing,
                flex,
                i,
            ) + spacer_len(cs, len, spacing, flex, i),
        forall|i: int|
            0 <= i < cs.len() ==> #[trigger] spacer_offset(cs, len, spacing, flex, i + 1)
                == segment_offset(cs, len, spacing, flex, i) + segment_len(cs, len, spacing, i),
        spacer_offset(cs, len, spacing, flex, cs.len() as int) + spacer_len(
            cs,
            len,
            spacing,
            flex,
            cs.len() as int,
        ) == len,
{
    let n = cs.len();
    let avail = available(len, n, spacing);
    let g = gap(cs, avail);
    let s = effective_spacing(len, n, spacing);
    lemma_available(len, n, spacing);
    lemma_seg_cum(cs, avail, n as int, n as int);
    lemma_spacer_cum(flex, g, n, s, n, n + 1);
    assert forall|i: int| 0 <= i < cs.len() implies #[trigger] segment_offset(
        cs,
        len,
        spacing,
        flex,
        i,
    ) == spacer_offset(cs, len, spacing, flex, i) + spacer_len(cs, len, spacing, flex, i) by {
        lemma_spacer_cum(flex, g, n, s, i as nat, (i + 1) as nat);
    }
    assert forall|i: int| 0 <= i < cs.len() implies #[trigger] spacer_offset(
        cs,
        len,
        spacing,
        flex,
        i + 1,
    ) == segment_offset(cs, len, spacing, flex, i) + segment_len(cs, len, spacing, i) by {
        lemma_seg_cum(cs, avail, i, i + 1);
    }
}


// ---------------------------------------------------------------------------
// The solver.

fn requested_len(c: Constraint, avail: u16) -> (r: u16)
    ensures
        r == requested(c, avail as nat),
{
    let a = avail as u128;
    let raw: u128 = match c {
        Constraint::Length(v) => v as u128,
        Constraint::Percentage(p) => {
            assert(a * p <= 0xffff * 0xffff) by (nonlinear_arith)
                requires
                    a <= 0xffff,
                    p <= 0xffff,
            ;
            (a * p as u128 + 50) / 100
        },
        Constraint::Ratio(x, y) => if y == 0 {
            0
        } else {
            assert(2 * a * x <= 2 * 0xffff * 0xffff_ffff) by (nonlinear_arith)
                requires
                    a <= 0xffff,
                    x <= 0xffff_ffff,
            ;
            (2 * a * x as u128 + y as u128) / (2 * y as u128)
        },
        Constraint::Min(v) => v as u128,
        Constraint::Max(v) => v as u128,
        Constraint::Fill(_) => 0,
    };
    if raw <= a {
        raw as u16
    } else {
        avail
    }
}

fn quota_of(t: u128, p: u128, s: u128) -> (r: u128)
    requires
        t <= 0xffff,
        p <= s,
        s <= 0x1_0000_0000_0000_0000_0000_0000,
    ensures
        r == if s == 0 {
            0
        } else {
            (t * p) / (s as int)
        },
{
    if s == 0 {
        0
    } else {
        assert(t * p <= 0xffff * 0x1_0000_0000_0000_0000_0000_0000) by (nonlinear_arith)
            requires
                t <= 0xffff,
                p <= 0x1_0000_0000_0000_0000_0000_0000,
        ;
        (t * p) / s
    }
}

fn min_u128(a: u128, b: u128) -> (r: u128)
    ensures
        r == min_int(a as int, b as int),
{
    if a <= b {
        a
    } else {
        b
    }
}

/// The cumulative segment lengths `seg_cum(cs, avail, i)` for `i` in `0..=n`.
fn segment_cums(cs: &Vec<Constraint>, avail: u16) -> (r: Vec<u16>)
    ensures
        r@.len() == cs@.len() + 1,
        forall|i: int| 0 <= i <= cs@.len() ==> r@[i] == seg_cum(cs@, avail as nat, i),
{
    let n = cs.len();
    let ghost w0 = class_requests(cs@, avail as nat, 0);
    let ghost w1 = class_requests(cs@, avail as nat, 1);
    let ghost w2 = class_requests(cs@, avail as nat, 2);
    let ghost wr = raw_fill_weights(cs@);
    let ghost wu = unit_fill_weights(cs@);
    let mut s0: u128 = 0;
    let mut s1: u128 = 0;
    let mut s2: u128 = 0;
    let mut sr: u128 = 0;
    let mut su: u128 = 0;
    let mut i: usize = 0;
    assert(n <= 0xffff_ffff_ffff_ffff);
    while i < n
        invariant
            i <= n,
            n == cs@.len(),
            n <= 0xffff_ffff_ffff_ffff,
            s0 == psum(w0, i as int),
            s1 == psum(w1, i as int),
            s2 == psum(w2, i as int),
            sr == psum(wr, i as int),
            su == psum(wu, i as int),
            s0 <= i * 0xffff,
            s1 <= i * 0xffff,
            s2 <= i * 0xffff,
            sr <= i * 0xffff,
            su <= i,
            w0 == class_requests(cs@, avail as nat, 0),
            w1 == class_requests(cs@, avail as nat, 1),
            w2 == class_requests(cs@, avail as nat, 2),
            wr == raw_fill_weights(cs@),
            wu == unit_fill_weights(cs@),
        decreases n - i,
    {
        proof {
            lemma_psum_step(w0, i as int);
            lemma_psum_step(w1, i as int);
            lemma_psum_step(w2, i as int);
            lemma_psum_step(wr, i as int);
            lemma_psum_step(wu, i as int);
        }
        let c = cs[i];
        let q = requested_len(c, avail) as u128;
        match c {
            Constraint::Length(_) | Constraint::Percentage(_) | Constraint::Ratio(_, _) => {
                s0 = s0 + q;
            },
            Constraint::Min(_) => {
                s1 = s1 + q;
            },
            Constraint::Max(_) => {
                s2 = s2 + q;
            },
            Constraint::Fill(w) => {
                sr = sr + w as u128;
                su = su + 1;
            },
        }
        i = i + 1;
    }
    let a = avail as u128;
    let requested_sum = s0 + s1 + s2;
    let ex = if requested_sum > a {
        requested_sum - a
    } else {
        0
    };
    let c2 = min_u128(s2, ex);
    let c1 = min_u128(s1, ex - c2);
    let c0 = min_u128(s0, ex - c2 - c1);
    let g0 = s0 - c0;
    let g1 = s1 - c1;
    let g2 = s2 - c2;
    let left = if requested_sum < a {
        a - requested_sum
    } else {
        0
    };
    let use_units = sr == 0;
    let sf = if use_units {
        su
    } else {
        sr
    };
    let ghost wf = fill_weights(cs@);
    proof {
        lemma_granted_sum(cs@, avail as nat);
        assert(g0 == granted(cs@, avail as nat, 0));
        assert(g1 == granted(cs@, avail as nat, 1));
        assert(g2 == granted(cs@, avail as nat, 2));
        assert(left == leftover(cs@, avail as nat));
        assert(sf == total(wf));
        lemma_seg_cum(cs@, avail as nat, 0, 0);
    }
    let mut r: Vec<u16> = Vec::new();
    r.push(0);
    let mut p0: u128 = 0;
    let mut p1: u128 = 0;
    let mut p2: u128 = 0;
    let mut pf: u128 = 0;
    let mut k: usize = 0;
    while k < n
        invariant
            k <= n,
            n == cs@.len(),
            n <= 0xffff_ffff_ffff_ffff,
            s0 == total(w0),
            s1 == total(w1),
            s2 == total(w2),
            sf == total(wf),
            s0 <= n * 0xffff,
            s1 <= n * 0xffff,
            s2 <= n * 0xffff,
            sf <= n * 0xffff,
            g0 == granted(cs@, avail as nat, 0),
            g1 == granted(cs@, avail as nat, 1),
            g2 == granted(cs@, avail as nat, 2),
            left == leftover(cs@, avail as nat),
            g0 <= a,
            g1 <= a,
            g2 <= a,
            left <= a,
            a == avail,
            use_units == (total(wr) == 0),
            wf == fill_weights(cs@),
            wr == raw_fill_weights(cs@),
            wu == unit_fill_weights(cs@),
            w0 == class_requests(cs@, avail as nat, 0),
            w1 == class_requests(cs@, avail as nat, 1),
            w2 == class_requests(cs@, avail as nat, 2),
            p0 == psum(w0, k as int),
            p1 == psum(w1, k as int),
            p2 == psum(w2, k as int),
            pf == psum(wf, k as int),
            r@.len() == k + 1,
            forall|j: int| 0 <= j <= k ==> r@[j] == seg_cum(cs@, avail as nat, j),
        decreases n - k,
    {
        proof {
            lemma_psum_step(w0, k as int);
            lemma_psum_step(w1, k as int);
            lemma_psum_step(w2, k as int);
            lemma_psum_step(wf, k as int);
            lemma_psum_mono(w0, k + 1, n as int);
            lemma_psum_mono(w1, k + 1, n as int);
            lemma_psum_mono(w2, k + 1, n as int);
            lemma_psum_mono(wf, k + 1, n as int);
            lemma_seg_cum(cs@, avail as nat, k + 1, k + 1);
            assert(n * 0xffff <= 0xffff_ffff_ffff_ffff * 0xffff) by (nonlinear_arith)
                requires
                    n <= 0xffff_ffff_ffff_ffff,
            ;
        }
        let c = cs[k];
        let q = requested_len(c, avail) as u128;
        match c {
            Constraint::Length(_) | Constraint::Percentage(_) | Constraint::Ratio(_, _) => {
                p0 = p0 + q;
            },
            Constraint::Min(_) => {
                p1 = p1 + q;
            },
            Constraint::Max(_) => {
                p2 = p2 + q;
            },
            Constraint::Fill(w) => {
                pf = pf + if use_units {
                    1
                } else {
                    w as u128
                };
            },
        }
        let cum = quota_of(g0, p0, s0) + quota_of(g1, p1, s1) + quota_of(g2, p2, s2) + quota_of(
            left,
            pf,
            sf,
        );
        assert(cum == seg_cum(cs@, avail as nat, k + 1));
        r.push(cum as u16);
        k = k + 1;
    }
    r
}


fn gap_cum_of(flex: Flex, g: u16, n: usize, j: usize) -> (r: u16)
    requires
        j <= n + 1,
    ensures
        r == gap_cum(flex, g as nat, n as nat, j as nat),
{
    proof {
        lemma_gap_cum(flex, g as nat, n as nat, j as nat, j as nat);
    }
    if j == 0 {
        0
    } else if j > n {
        g
    } else {
        match flex {
            Flex::Start => 0,
            Flex::End => g,
            Flex::Center => g / 2,
            Flex::SpaceBetween => if n >= 2 {
                assert(g * (j - 1) <= 0xffff * 0xffff_ffff_ffff_ffff) by (nonlinear_arith)
                    requires
                        g <= 0xffff,
                        j - 1 <= 0xffff_ffff_ffff_ffff,
                ;
                ((g as u128 * (j - 1) as u128) / (n - 1) as u128) as u16
            } else {
                0
            },
            Flex::SpaceAround => {
                assert(g * j <= 0xffff * 0xffff_ffff_ffff_ffff) by (nonlinear_arith)
                    requires
                        g <= 0xffff,
                        j <= 0xffff_ffff_ffff_ffff,
                ;
                ((g as u128 * j as u128) / (n as u128 + 1)) as u16
            },
        }
    }
}

fn spacer_cum_of(flex: Flex, g: u16, n: usize, s: u16, j: usize) -> (r: u16)
    requires
        j <= n + 1,
        n == 0 || g + s * (n - 1) <= 0xffff,
    ensures
        r == spacer_cum(flex, g as nat, n as nat, s as nat, j as nat),
{
    proof {
        lemma_spacer_cum(flex, g as nat, n as nat, s as nat, j as nat, j as nat);
    }
    let gc = gap_cum_of(flex, g, n, j);
    if j == 0 || n == 0 {
        gc
    } else {
        let m: usize = if j <= n {
            j
        } else {
            n
        };
        assert(s * (m - 1) <= s * (n - 1)) by (nonlinear_arith)
            requires
                1 <= m <= n,
        ;
        assert(s * (m - 1) <= 0xffff * 0xffff_ffff_ffff_ffff) by (nonlinear_arith)
            requires
                s <= 0xffff,
                m - 1 <= 0xffff_ffff_ffff_ffff,
        ;
        (gc as u128 + s as u128 * (m - 1) as u128) as u16
    }
}

impl Layout {
    /// A layout of `constraints` along `direction`, without spacing, packed
    /// at the start.
    pub fn new(direction: Direction, constraints: Vec<Constraint>) -> (r: Layout)
        ensures
            r.direction == direction,
            r.constraints@ == constraints@,
            r.spacing == 0,
            r.flex == Flex::Start,
    {
        Layout { direction, constraints, spacing: 0, flex: Flex::Start }
    }

    pub fn horizontal(constraints: Vec<Constraint>) -> (r: Layout)
        ensures
            r.direction == Direction::Horizontal,
            r.constraints@ == constraints@,
            r.spacing == 0,
            r.flex == Flex::Start,
    {
        Layout::new(Direction::Horizontal, constraints)
    }

    pub fn vertical(constraints: Vec<Constraint>) -> (r: Layout)
        ensures
            r.direction == Direction::Vertical,
            r.constraints@ == constraints@,
            r.spacing == 0,
            r.flex == Flex::Start,
    {
        Layout::new(Direction::Vertical, constraints)
    }

    pub fn direction(self, direction: Direction) -> (r: Layout)
        ensures
            r == (Layout { direction, ..self }),
    {
        Layout { direction, ..self }
    }

    pub fn constraints(self, constraints: Vec<Constraint>) -> (r: Layout)
        ensures
            r == (Layout { constraints, ..self }),
    {
        Layout { constraints, ..self }
    }

    pub fn spacing(self, spacing: u16) -> (r: Layout)
        ensures
            r == (Layout { spacing, ..self }),
    {
        Layout { spacing, ..self }
    }

    pub fn flex(self, flex: Flex) -> (r: Layout)
        ensures
            r == (Layout { flex, ..self }),
    {
        Layout { flex, ..self }
    }

    /// Length of `area` along the layout axis.
    pub open spec fn axis_len(self, area: Rect) -> nat {
        match self.direction {
            Direction::Horizontal => area.width as nat,
            Direction::Vertical => area.height as nat,
        }
    }

    /// The piece of `area` that starts `off` cells along the layout axis and
    /// is `len` cells long; across the axis it spans all of `area`.
    pub open spec fn piece(self, area: Rect, off: nat, len: nat) -> Rect {
        match self.direction {
            Direction::Horizontal => Rect {
                x: (area.x + off) as u16,
                y: area.y,
                width: len as u16,
                height: area.height,
            },
            Direction::Vertical => Rect {
                x: area.x,
                y: (area.y + off) as u16,
                width: area.width,
                height: len as u16,
            },
        }
    }

    /// Segment `i` of `area`.
    pub open spec fn segment(self, area: Rect, i: int) -> Rect {
        let cs = self.constraints@;
        let len = self.axis_len(area);
        self.piece(
            area,
            segment_offset(cs, len, self.spacing as nat, self.flex, i),
            segment_len(cs, len, self.spacing as nat, i),
        )
    }

    /// Spacer `j` of `area`: spacer `0` comes before the first segment,
    /// spacer `n` after the last.
    pub open spec fn spacer(self, area: Rect, j: int) -> Rect {
        let cs = self.constraints@;
        let len = self.axis_len(area);
        self.piece(
            area,
            spacer_offset(cs, len, self.spacing as nat, self.flex, j),
            spacer_len(cs, len, self.spacing as nat, self.flex, j),
        )
    }

    /// Cuts `area` into one segment per constraint, in order.
    pub fn split(&self, area: Rect) -> (r: Vec<Rect>)
        requires
            area.wf(),
        ensures
            r@.len() == self.constraints@.len(),
            forall|i: int| 0 <= i < r@.len() ==> r@[i] == self.segment(area, i),
    {
        let (segments, _spacers) = self.split_with_spacers(area);
        segments
    }

    /// Cuts `area` into one segment per constraint and the `n + 1` spacers
    /// around them (a spacer may be empty).
    pub fn split_with_spacers(&self, area: Rect) -> (r: (Vec<Rect>, Vec<Rect>))
        requires
            area.wf(),
        ensures
            r.0@.len() == self.constraints@.len(),
            r.1@.len() == self.constraints@.len() + 1,
            forall|i: int| 0 <= i < r.0@.len() ==> r.0@[i] == self.segment(area, i),
            forall|j: int| 0 <= j < r.1@.len() ==> r.1@[j] == self.spacer(area, j),
    {
        let ghost cs = self.constraints@;
        let n = self.constraints.len();
        let (start, len) = match self.direction {
            Direction::Horizontal => (area.x, area.width),
            Direction::Vertical => (area.y, area.height),
        };
        assert(len == self.axis_len(area));
        let s: u16 = if n <= 1 {
            0
        } else {
            let most = (len as usize) / (n - 1);
            if (self.spacing as usize) <= most {
                self.spacing
            } else {
                most as u16
            }
        };
        proof {
            lemma_available(len as nat, n as nat, self.spacing as nat);
        }
        let avail: u16 = if n <= 1 {
            len
        } else {
            assert(s * (n - 1) <= len);
            len - (s as u128 * (n - 1) as u128) as u16
        };
        assert(avail == available(len as nat, n as nat, self.spacing as nat));
        let cums = segment_cums(&self.constraints, avail);
        let m = cums.len();
        proof {
            lemma_seg_cum(cs, avail as nat, n as int, n as int);
        }
        let g: u16 = avail - cums[n];
        assert(g == gap(cs, avail as nat));
        let ghost sc = |j: nat| spacer_cum(self.flex, g as nat, n as nat, s as nat, j);
        let mut segments: Vec<Rect> = Vec::new();
        let mut i: usize = 0;
        while i < n
            invariant
                i <= n,
                n == cs.len(),
                m == n + 1,
                cs == self.constraints@,
                area.wf(),
                len == self.axis_len(area),
                avail == available(len as nat, n as nat, self.spacing as nat),
                s == effective_spacing(len as nat, n as nat, self.spacing as nat),
                g == gap(cs, avail as nat),
                start == match self.direction {
                    Direction::Horizontal => area.x,
                    Direction::Vertical => area.y,
                },
                cums@.len() == n + 1,
                forall|j: int| 0 <= j <= n ==> cums@[j] == seg_cum(cs, avail as nat, j),
                avail + (if n == 0 { 0 } else { s * (n - 1) }) == len,
                seg_cum(cs, avail as nat, n as int) + g == avail,
                segments@.len() == i,
                forall|k: int| 0 <= k < i ==> segments@[k] == self.segment(area, k),
            decreases n - i,
        {
            proof {
                lemma_seg_cum(cs, avail as nat, i as int, i + 1);
                lemma_seg_cum(cs, avail as nat, i as int, n as int);
                lemma_seg_cum(cs, avail as nat, i + 1, n as int);
                lemma_spacer_cum(self.flex, g as nat, n as nat, s as nat, (i + 1) as nat, n as nat + 1);
            }
            let off = spacer_cum_of(self.flex, g, n, s, i + 1) + cums[i];
            let l = cums[i + 1] - cums[i];
            let rect = match self.direction {
                Direction::Horizontal => Rect { x: start + off, y: area.y, width: l, height: area.height },
                Direction::Vertical => Rect { x: area.x, y: start + off, width: area.width, height: l },
            };
            segments.push(rect);
            i = i + 1;
        }
        let mut spacers: Vec<Rect> = Vec::new();
        let mut j: usize = 0;
        while j < m
            invariant
                j <= m,
                n == cs.len(),
                m == n + 1,
                cs == self.constraints@,
                area.wf(),
                len == self.axis_len(area),
                avail == available(len as nat, n as nat, self.spacing as nat),
                s == effective_spacing(len as nat, n as nat, self.spacing as nat),
                g == gap(cs, avail as nat),
                start == match self.direction {
                    Direction::Horizontal => area.x,
                    Direction::Vertical => area.y,
                },
                cums@.len() == n + 1,
                forall|k: int| 0 <= k <= n ==> cums@[k] == seg_cum(cs, avail as nat, k),
                avail + (if n == 0 { 0 } else { s * (n - 1) }) == len,
                seg_cum(cs, avail as nat, n as int) + g == avail,
                spacers@.len() == j,
                forall|k: int| 0 <= k < j ==> spacers@[k] == self.spacer(area, k),
            decreases m - j,
        {
            proof {
                lemma_seg_cum(cs, avail as nat, j as int, n as int);
                lemma_spacer_cum(self.flex, g as nat, n as nat, s as nat, j as nat, (j + 1) as nat);
                lemma_spacer_cum(self.flex, g as nat, n as nat, s as nat, (j + 1) as nat, n as nat + 1);
            }
            let before = spacer_cum_of(self.flex, g, n, s, j);
            let after = spacer_cum_of(self.flex, g, n, s, j + 1);
            let off = before + cums[j];
            let l = after - before;
            let rect = match self.direction {
                Direction::Horizontal => Rect { x: start + off, y: area.y, width: l, height: area.height },
                Direction::Vertical => Rect { x: area.x, y: start + off, width: area.width, height: l },
            };
            spacers.push(rect);
            j = j + 1;
        }
        (segments, spacers)
    }
}


proof fn lemma_axis_bounds(cs: Seq<Constraint>, len: nat, spacing: nat, flex: Flex, i: int)
    requires
        0 <= i <= cs.len(),
    ensures
        i < cs.len() ==> segment_offset(cs, len, spacing, flex, i) + segment_len(
            cs,
            len,
            spacing,
            i,
        ) <= len,
        spacer_offset(cs, len, spacing, flex, i) + spacer_len(cs, len, spacing, flex, i) <= len,
{
    let n = cs.len();
    let avail = available(len, n, spacing);
    let g = gap(cs, avail);
    let s = effective_spacing(len, n, spacing);
    lemma_available(len, n, spacing);
    lemma_seg_cum(cs, avail, i, n as int);
    lemma_spacer_cum(flex, g, n, s, i as nat, (i + 1) as nat);
    lemma_spacer_cum(flex, g, n, s, (i + 1) as nat, n + 1);
    if i < n {
        lemma_seg_cum(cs, avail, i, i + 1);
        lemma_seg_cum(cs, avail, i + 1, n as int);
    }
}

impl Layout {
    /// Where a rectangle starts along the layout axis.
    pub open spec fn axis_start(self, r: Rect) -> int {
        match self.direction {
            Direction::Horizontal => r.x as int,
            Direction::Vertical => r.y as int,
        }
    }

    /// How far a rectangle reaches along the layout axis.
    pub open spec fn axis_extent(self, r: Rect) -> int {
        match self.direction {
            Direction::Horizontal => r.width as int,
            Direction::Vertical => r.height as int,
        }
    }

    /// Whether `r` spans all of `area` across the layout axis.
    pub open spec fn spans_across(self, r: Rect, area: Rect) -> bool {
        match self.direction {
            Direction::Horizontal => r.y == area.y && r.height == area.height,
            Direction::Vertical => r.x == area.x && r.width == area.width,
        }
    }
}

/// Tiling: for any area and any constraints, spacer 0, segment 0, spacer 1,
/// ..., segment n - 1, spacer n lie end to end along the layout axis, from the
/// start of the area to its end, with no gap and no overlap, and each spans
/// the whole area across the axis.
pub proof fn lemma_layout_tiles(layout: Layout, area: Rect)
    requires
        area.wf(),
    ensures
        layout.axis_start(layout.spacer(area, 0)) == layout.axis_start(area),
        forall|i: int|
            0 <= i < layout.constraints@.len() ==> layout.axis_start(
                #[trigger] layout.segment(area, i),
            ) == layout.axis_start(layout.spacer(area, i)) + layout.axis_extent(
                layout.spacer(area, i),
            ),
        forall|i: int|
            0 <= i < layout.constraints@.len() ==> layout.axis_start(
                #[trigger] layout.spacer(area, i + 1),
            ) == layout.axis_start(layout.segment(area, i)) + layout.axis_extent(
                layout.segment(area, i),
            ),
        layout.axis_start(layout.spacer(area, layout.constraints@.len() as int)) + layout.axis_extent(
            layout.spacer(area, layout.constraints@.len() as int),
        ) == layout.axis_start(area) + layout.axis_extent(area),
        forall|i: int|
            0 <= i < layout.constraints@.len() ==> layout.spans_across(
                #[trigger] layout.segment(area, i),
                area,
            ),
        forall|j: int|
            0 <= j <= layout.constraints@.len() ==> layout.spans_across(
                #[trigger] layout.spacer(area, j),
                area,
            ),
{
    let cs = layout.constraints@;
    let len = layout.axis_len(area);
    let sp = layout.spacing as nat;
    let n = cs.len();
    lemma_axis_tiles(cs, len, sp, layout.flex);
    assert forall|j: int| 0 <= j <= n implies {
        &&& layout.axis_start(#[trigger] layout.spacer(area, j)) == layout.axis_start(area)
            + spacer_offset(cs, len, sp, layout.flex, j)
        &&& layout.axis_extent(layout.spacer(area, j)) == spacer_len(cs, len, sp, layout.flex, j)
    } by {
        lemma_axis_bounds(cs, len, sp, layout.flex, j);
    }
    assert forall|i: int| 0 <= i < n implies {
        &&& layout.axis_start(#[trigger] layout.segment(area, i)) == layout.axis_start(area)
            + segment_offset(cs, len, sp, layout.flex, i)
        &&& layout.axis_extent(layout.segment(area, i)) == segment_len(cs, len, sp, i)
    } by {
        lemma_axis_bounds(cs, len, sp, layout.flex, i);
    }
    assert(layout.axis_start(layout.spacer(area, n as int + 1 - 1)) == layout.axis_start(area)
        + spacer_offset(cs, len, sp, layout.flex, n as int));
    assert forall|i: int| 0 <= i < n implies layout.axis_start(
        #[trigger] layout.spacer(area, i + 1),
    ) == layout.axis_start(layout.segment(area, i)) + layout.axis_extent(
        layout.segment(area, i),
    ) by {
        assert(0 <= i + 1 <= n);
        assert(layout.axis_start(layout.spacer(area, i + 1)) == layout.axis_start(area)
            + spacer_offset(cs, len, sp, layout.flex, i + 1));
        assert(layout.axis_start(layout.segment(area, i)) == layout.axis_start(area)
            + segment_offset(cs, len, sp, layout.flex, i));
        assert(layout.axis_extent(layout.segment(area, i)) == segment_len(cs, len, sp, i));
        assert(spacer_offset(cs, len, sp, layout.flex, i + 1) == segment_offset(
            cs,
            len,
            sp,
            layout.flex,
            i,
        ) + segment_len(cs, len, sp, i));
    }
}

} // verus!
