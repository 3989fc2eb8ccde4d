//! Stacking the laid-out blocks of a flow vertically.

use vstd::prelude::*;
use crate::geometry::{Rect, Size};
use crate::signal::Signal;
use crate::layout::flow::FlowItem;

verus! {

/// What a laid-out paragraph occupies: its height (all its lines and gaps) and
/// how far right its widest line reaches (0 when it has no text line).
#[derive(Clone, Copy, Debug, PartialEq, Eq, Structural)]
pub struct ParaBox {
    pub height: i32,
    pub width: i32,
}

/// State of the vertical stacking: pen height, natural width, whether a block has
/// been placed, and what has been placed so far.
pub struct StackState {
    pub y: int,
    pub nat_w: int,
    pub any: bool,
    pub tops: Seq<i32>,
    pub dividers: Seq<(i32, i32)>,
    pub headers: Seq<(Rect, Signal<bool>)>,
}

/// One flow item stacked below the previous ones. Paragraphs and headers are
/// preceded by the paragraph spacing unless they come first; a divider has the
/// spacing above and below it and is one pixel high. A header's hit area spans
/// the available width from its indent (0 wide when the width is unbounded).
pub open spec fn stack_step<'a>(st: StackState, it: FlowItem<'a>, m: ParaBox, sp: int, wrap: Option<i32>) -> StackState {
    match it {
        FlowItem::Para { indent, .. } => {
            let y1 = if st.any { st.y + sp } else { st.y };
            StackState {
                y: y1 + m.height,
                nat_w: if m.width > st.nat_w { m.width as int } else { st.nat_w },
                any: true,
                tops: st.tops.push(y1 as i32),
                ..st
            }
        },
        FlowItem::Divider { indent } => {
            let y1 = st.y + sp;
            StackState {
                y: y1 + 1 + sp,
                any: true,
                tops: st.tops.push(y1 as i32),
                dividers: st.dividers.push((indent, y1 as i32)),
                ..st
            }
        },
        FlowItem::Header { indent, state, .. } => {
            let y1 = if st.any { st.y + sp } else { st.y };
            let w = match wrap {
                Some(ww) => ww - indent,
                None => 0,
            };
            StackState {
                y: y1 + m.height,
                nat_w: if m.width > st.nat_w { m.width as int } else { st.nat_w },
                any: true,
                tops: st.tops.push(y1 as i32),
                headers: st.headers.push(
                    (Rect { x: indent, y: y1 as i32, w: w as i32, h: m.height }, state),
                ),
                ..st
            }
        },
    }
}

/// The stacking state after the first `n` flow items.
pub open spec fn stack_run<'a>(f: Seq<FlowItem<'a>>, ms: Seq<ParaBox>, n: int, sp: int, wrap: Option<i32>) -> StackState
    decreases n,
{
    if n <= 0 {
        StackState {
            y: 0,
            nat_w: 0,
            any: false,
            tops: Seq::empty(),
            dividers: Seq::empty(),
            headers: Seq::empty(),
        }
    } else {
        stack_step(stack_run(f, ms, n - 1, sp, wrap), f[n - 1], ms[n - 1], sp, wrap)
    }
}

/// A header's hit area once the natural width is known: one left without width
/// (unbounded layout, or a width left at 0 or below) reaches to the natural width.
pub open spec fn widen_header(h: (Rect, Signal<bool>), nat_w: int) -> (Rect, Signal<bool>) {
    if h.0.w <= 0 {
        (Rect { w: (if nat_w - h.0.x > 0 { nat_w - h.0.x } else { 0 }) as i32, ..h.0 }, h.1)
    } else {
        h
    }
}

/// A value that fits in an `i32`.
pub open spec fn in_i32(v: int) -> bool {
    i32::MIN <= v <= i32::MAX
}

/// Every coordinate that stacking item `it` computes fits in an `i32`.
pub open spec fn step_fits<'a>(st: StackState, it: FlowItem<'a>, m: ParaBox, sp: int, wrap: Option<i32>) -> bool {
    let y1 = if st.any { st.y + sp } else { st.y };
    match it {
        FlowItem::Para { .. } => in_i32(y1) && in_i32(y1 + m.height),
        FlowItem::Divider { .. } => in_i32(st.y + sp) && in_i32(st.y + sp + 1) && in_i32(st.y + sp + 1 + sp),
        FlowItem::Header { indent, .. } => in_i32(y1) && in_i32(y1 + m.height) && (wrap matches Some(w) ==> in_i32(w - indent)),
    }
}

/// The inputs keep every coordinate within `i32`: one metric per flow item, each
/// stacking step within `i32`, and each header's reach to the natural width too.
#[verifier::opaque]
pub open spec fn stack_fits<'a>(f: Seq<FlowItem<'a>>, ms: Seq<ParaBox>, sp: int, wrap: Option<i32>) -> bool {
    &&& f.len() == ms.len()
    &&& forall|k: int|
        #![trigger f[k], ms[k]]
        0 <= k < f.len() ==> step_fits(stack_run(f, ms, k, sp, wrap), f[k], ms[k], sp, wrap)
    &&& forall|j: int|
        0 <= j < stack_run(f, ms, f.len() as int, sp, wrap).headers.len() ==> in_i32(
            stack_run(f, ms, f.len() as int, sp, wrap).nat_w - (#[trigger] stack_run(
                f,
                ms,
                f.len() as int,
                sp,
                wrap,
            ).headers[j]).0.x,
        )
}

/// One step's share of [`stack_fits`].
proof fn lemma_step_fits<'a>(f: Seq<FlowItem<'a>>, ms: Seq<ParaBox>, sp: int, wrap: Option<i32>, k: int)
    requires
        stack_fits(f, ms, sp, wrap),
        0 <= k < f.len(),
    ensures
        f.len() == ms.len(),
        step_fits(stack_run(f, ms, k, sp, wrap), f[k], ms[k], sp, wrap),
{
    reveal(stack_fits);
    let _ = ms[k];
}

/// A header's share of [`stack_fits`].
proof fn lemma_header_fits<'a>(f: Seq<FlowItem<'a>>, ms: Seq<ParaBox>, sp: int, wrap: Option<i32>, j: int)
    requires
        stack_fits(f, ms, sp, wrap),
        0 <= j < stack_run(f, ms, f.len() as int, sp, wrap).headers.len(),
    ensures
        in_i32(stack_run(f, ms, f.len() as int, sp, wrap).nat_w - stack_run(f, ms, f.len() as int, sp, wrap).headers[j].0.x),
{
    reveal(stack_fits);
}

/// Gap above a flow item: the paragraph spacing, except above a paragraph or
/// header that comes first.
pub open spec fn lead_gap<'a>(it: FlowItem<'a>, sp: int, first: bool) -> int {
    match it {
        FlowItem::Divider { .. } => sp,
        _ => if first {
            0
        } else {
            sp
        },
    }
}

/// How far a flow item moves the pen down: its gap above and its height (a
/// divider is one pixel with the spacing below it too).
pub open spec fn advance<'a>(it: FlowItem<'a>, m: ParaBox, sp: int, first: bool) -> int {
    match it {
        FlowItem::Divider { .. } => sp + 1 + sp,
        _ => lead_gap(it, sp, first) + m.height,
    }
}

/// The sum of the advances of the first `n` flow items.
pub open spec fn stacked_height<'a>(f: Seq<FlowItem<'a>>, ms: Seq<ParaBox>, n: int, sp: int) -> int
    decreases n,
{
    if n <= 0 {
        0
    } else {
        stacked_height(f, ms, n - 1, sp) + advance(f[n - 1], ms[n - 1], sp, n - 1 == 0)
    }
}

/// The widest of the first `n` paragraphs and headers (0 if none is wider).
pub open spec fn stacked_width<'a>(f: Seq<FlowItem<'a>>, ms: Seq<ParaBox>, n: int) -> int
    decreases n,
{
    if n <= 0 {
        0
    } else {
        let w = stacked_width(f, ms, n - 1);
        match f[n - 1] {
            FlowItem::Divider { .. } => w,
            _ => if ms[n - 1].width > w {
                ms[n - 1].width as int
            } else {
                w
            },
        }
    }
}

/// Stacking in closed form: after `n` items the pen is at the sum of their
/// advances, item `k` starts at the sum of the advances before it plus its own
/// gap above, and the natural width is the widest paragraph or header.
pub proof fn lemma_stack_closed_form<'a>(f: Seq<FlowItem<'a>>, ms: Seq<ParaBox>, n: int, sp: int, wrap: Option<i32>)
    requires
        0 <= n <= f.len(),
        f.len() == ms.len(),
    ensures
        stack_run(f, ms, n, sp, wrap).y == stacked_height(f, ms, n, sp),
        stack_run(f, ms, n, sp, wrap).nat_w == stacked_width(f, ms, n),
        stack_run(f, ms, n, sp, wrap).any == (n > 0),
        stack_run(f, ms, n, sp, wrap).tops.len() == n,
        forall|k: int|
            0 <= k < n ==> #[trigger] stack_run(f, ms, n, sp, wrap).tops[k] == (stacked_height(f, ms, k, sp)
                + lead_gap(f[k], sp, k == 0)) as i32,
    decreases n,
{
    if n > 0 {
        lemma_stack_closed_form(f, ms, n - 1, sp, wrap);
        let prev = stack_run(f, ms, n - 1, sp, wrap);
        let cur = stack_run(f, ms, n, sp, wrap);
        assert(cur == stack_step(prev, f[n - 1], ms[n - 1], sp, wrap));
        assert forall|k: int| 0 <= k < n implies #[trigger] cur.tops[k] == (stacked_height(f, ms, k, sp)
            + lead_gap(f[k], sp, k == 0)) as i32 by {
            if k < n - 1 {
                assert(cur.tops[k] == prev.tops[k]);
            }
        }
    }
}

/// The stacked layout of a document.
pub struct BlockLayout {
    /// Top of each flow item: where a paragraph or header starts, or a divider's
    /// line.
    pub tops: Vec<i32>,
    /// Each divider's indent and line position; it extends to the right edge.
    pub dividers: Vec<(i32, i32)>,
    /// Each header's hit area and its section's collapse state.
    pub headers: Vec<(Rect, Signal<bool>)>,
    /// Widest line by total height.
    pub size: Size,
}

/// Stacks the flow items vertically; `ms[i]` is what paragraph or header `i` of
/// the flow occupies once its lines are laid out (ignored for dividers), `sp` the
/// paragraph spacing and `wrap` the available width, if bounded.
pub fn stack_blocks<'a>(f: &Vec<FlowItem<'a>>, ms: &Vec<ParaBox>, sp: i32, wrap: Option<i32>) -> (l: BlockLayout)
    requires
        stack_fits(f@, ms@, sp as int, wrap),
    ensures
        ({
            let st = stack_run(f@, ms@, f.len() as int, sp as int, wrap);
            &&& l.tops@ == st.tops
            &&& l.dividers@ == st.dividers
            &&& l.headers@.len() == st.headers.len()
            &&& forall|i: int| 0 <= i < st.headers.len() ==> l.headers@[i] == widen_header(#[trigger] st.headers[i], st.nat_w)
            &&& l.size.w == st.nat_w
            &&& l.size.h == st.y
        }),
{
    let mut y: i32 = 0;
    let mut nat_w: i32 = 0;
    let mut any = false;
    let mut tops: Vec<i32> = Vec::new();
    let mut dividers: Vec<(i32, i32)> = Vec::new();
    let mut headers: Vec<(Rect, Signal<bool>)> = Vec::new();
    let n = f.len();
    for i in 0..n
        invariant
            n == f.len(),
            stack_fits(f@, ms@, sp as int, wrap),
            ({
                let st = stack_run(f@, ms@, i as int, sp as int, wrap);
                &&& y == st.y
                &&& nat_w == st.nat_w
                &&& any == st.any
                &&& tops@ == st.tops
                &&& dividers@ == st.dividers
                &&& headers@ == st.headers
            }),
    {
        proof {
            lemma_step_fits(f@, ms@, sp as int, wrap, i as int);
        }
        let m = ms[i];
        let ghost prev = stack_run(f@, ms@, i as int, sp as int, wrap);
        match &f[i] {
            FlowItem::Para { indent, .. } => {
                let y1 = if any {
                    y + sp
                } else {
                    y
                };
                tops.push(y1);
                y = y1 + m.height;
                if m.width > nat_w {
                    nat_w = m.width;
                }
                any = true;
            },
            FlowItem::Divider { indent } => {
                let y1 = y + sp;
                tops.push(y1);
                dividers.push((*indent, y1));
                y = y1 + 1 + sp;
                any = true;
            },
            FlowItem::Header { indent, state, .. } => {
                let y1 = if any {
                    y + sp
                } else {
                    y
                };
                let w: i32 = match wrap {
                    Some(ww) => ww - *indent,
                    None => 0,
                };
                tops.push(y1);
                headers.push((Rect::new(*indent, y1, w, m.height), *state));
                y = y1 + m.height;
                if m.width > nat_w {
                    nat_w = m.width;
                }
                any = true;
            },
        }
        proof {
            let st = stack_run(f@, ms@, i + 1, sp as int, wrap);
            assert(st == stack_step(prev, f@[i as int], ms@[i as int], sp as int, wrap));
            assert(tops@ =~= st.tops);
            assert(dividers@ =~= st.dividers);
        }
    }
    let ghost fin = stack_run(f@, ms@, n as int, sp as int, wrap);
    // Without a bounded width, a header's hit area reaches to the natural width.
    let hn = headers.len();
    let mut out: Vec<(Rect, Signal<bool>)> = Vec::new();
    for k in 0..hn
        invariant
            hn == headers.len(),
            n == f.len(),
            headers@ == fin.headers,
            nat_w == fin.nat_w,
            stack_fits(f@, ms@, sp as int, wrap),
            fin == stack_run(f@, ms@, n as int, sp as int, wrap),
            out@.len() == k,
            forall|j: int| 0 <= j < k ==> out@[j] == widen_header(#[trigger] headers@[j], fin.nat_w),
    {
        let (r, st) = headers[k];
        proof {
            lemma_header_fits(f@, ms@, sp as int, wrap, k as int);
        }
        if r.w <= 0 {
            let d = nat_w - r.x;
            out.push((Rect::new(r.x, r.y, if d > 0 { d } else { 0 }, r.h), st));
        } else {
            out.push((r, st));
        }
    }
    BlockLayout { tops, dividers, headers: out, size: Size::new(nat_w, y) }
}

} // verus!
