//! The layout flow of a document: the blocks that take part in layout, in
//! order and with their indents, given the sections' collapse states.

use vstd::prelude::*;
use crate::rich::{Para, RichBlock, RichDoc};
use crate::signal::Signal;

verus! {

/// One entry of a document's layout flow: the blocks that take part in layout,
/// in order, with their indent. Children of a collapsed section are left out.
pub enum FlowItem<'a> {
    Para { para: &'a Para, indent: i32 },
    Divider { indent: i32 },
    /// A section's header line, laid out after its disclosure arrow.
    Header { para: &'a Para, indent: i32, collapsed: bool, state: Signal<bool> },
}

/// How deep sections nest in a block list (0 without sections).
pub open spec fn nest_depth(bs: Seq<RichBlock>) -> nat
    decreases bs, 0int,
{
    if bs.len() == 0 {
        0
    } else {
        let rest = nest_depth(bs.drop_last());
        let here = block_depth(bs.last());
        if rest >= here {
            rest
        } else {
            here
        }
    }
}

/// How deep sections nest in a block (1 for a section without nested sections).
pub open spec fn block_depth(b: RichBlock) -> nat
    decreases b, 1int,
{
    match b {
        RichBlock::Section(sec) => 1 + nest_depth(sec.children@),
        _ => 0,
    }
}

/// The collapse flag at position `k` of a snapshot; positions past its end count
/// as expanded (a snapshot shorter than the sections met leaves the rest
/// expanded).
pub open spec fn flag_at(flags: Seq<bool>, k: int) -> bool {
    0 <= k < flags.len() && flags[k]
}

/// The layout flow of a block list laid out at `indent`, where the sections met in
/// order take their collapse flags from `flags` starting at position `pos`;
/// also the position after the last flag used. Children of a section are
/// indented by `si` more and are left out when it is collapsed.
pub open spec fn flow_blocks<'a>(
    bs: Seq<RichBlock>,
    flags: Seq<bool>,
    pos: int,
    indent: int,
    si: int,
) -> (Seq<FlowItem<'a>>, int)
    decreases bs, 0int,
{
    if bs.len() == 0 {
        (Seq::empty(), pos)
    } else {
        let (head, p1) = flow_blocks(bs.drop_last(), flags, pos, indent, si);
        let (tail, p2) = flow_block(bs.last(), flags, p1, indent, si);
        (head + tail, p2)
    }
}

/// The layout flow of one block (see [`flow_blocks`]).
pub open spec fn flow_block<'a>(b: RichBlock, flags: Seq<bool>, pos: int, indent: int, si: int) -> (Seq<FlowItem<'a>>, int)
    decreases b, 1int,
{
    match b {
        RichBlock::Para(p) => (seq![FlowItem::Para { para: &p, indent: indent as i32 }], pos),
        RichBlock::Divider => (seq![FlowItem::Divider { indent: indent as i32 }], pos),
        RichBlock::Section(sec) => {
            let c = flag_at(flags, pos);
            let next = if pos < flags.len() {
                pos + 1
            } else {
                pos
            };
            let header = FlowItem::Header {
                para: &sec.header,
                indent: indent as i32,
                collapsed: c,
                state: sec.collapsed,
            };
            if c {
                (seq![header], next)
            } else {
                let (kids, p2) = flow_blocks(sec.children@, flags, next, indent + si, si);
                (seq![header] + kids, p2)
            }
        },
    }
}

/// The flag position after the flow of `bs` from `pos` (see [`flow_blocks`]).
pub open spec fn flow_pos(bs: Seq<RichBlock>, f: Seq<bool>, pos: int) -> int
    decreases bs, 0int,
{
    if bs.len() == 0 {
        pos
    } else {
        flow_block_pos(bs.last(), f, flow_pos(bs.drop_last(), f, pos))
    }
}

/// The flag position after one block's flow from `pos`.
pub open spec fn flow_block_pos(b: RichBlock, f: Seq<bool>, pos: int) -> int
    decreases b, 1int,
{
    match b {
        RichBlock::Section(sec) => {
            let next = if pos < f.len() {
                pos + 1
            } else {
                pos
            };
            if flag_at(f, pos) {
                next
            } else {
                flow_pos(sec.children@, f, next)
            }
        },
        _ => pos,
    }
}

/// The flow's flag position is [`flow_pos`], whatever the indents.
pub proof fn lemma_flow_pos(bs: Seq<RichBlock>, f: Seq<bool>, pos: int, indent: int, si: int)
    ensures
        flow_blocks(bs, f, pos, indent, si).1 == flow_pos(bs, f, pos),
    decreases bs, 0int,
{
    if bs.len() > 0 {
        lemma_flow_pos(bs.drop_last(), f, pos, indent, si);
        lemma_flow_block_pos(bs.last(), f, flow_pos(bs.drop_last(), f, pos), indent, si);
    }
}

/// One block's flow leaves the flag position at [`flow_block_pos`].
pub proof fn lemma_flow_block_pos(b: RichBlock, f: Seq<bool>, pos: int, indent: int, si: int)
    ensures
        flow_block(b, f, pos, indent, si).1 == flow_block_pos(b, f, pos),
    decreases b, 1int,
{
    if let RichBlock::Section(sec) = b {
        let next = if pos < f.len() {
            pos + 1
        } else {
            pos
        };
        lemma_flow_pos(sec.children@, f, next, indent + si, si);
    }
}

/// Every section that the flow of `bs` meets from flag position `pos` finds its
/// flag in `f` (none is taken as expanded for want of one).
pub open spec fn covered_blocks(bs: Seq<RichBlock>, f: Seq<bool>, pos: int) -> bool
    decreases bs, 0int,
{
    bs.len() == 0 || (covered_blocks(bs.drop_last(), f, pos) && covered_block(
        bs.last(),
        f,
        flow_pos(bs.drop_last(), f, pos),
    ))
}

/// A section meets its flag in `f` at `pos`, and an expanded one's children are
/// covered after it.
pub open spec fn covered_block(b: RichBlock, f: Seq<bool>, pos: int) -> bool
    decreases b, 1int,
{
    match b {
        RichBlock::Section(sec) => 0 <= pos < f.len() && (f[pos] || covered_blocks(
            sec.children@,
            f,
            pos + 1,
        )),
        _ => true,
    }
}

/// Extending the flags past those a covered flow reads changes nothing of it.
pub proof fn lemma_flow_frame(bs: Seq<RichBlock>, f: Seq<bool>, g: Seq<bool>, pos: int)
    requires
        covered_blocks(bs, f, pos),
        f.len() <= g.len(),
        forall|k: int| 0 <= k < f.len() ==> #[trigger] g[k] == f[k],
    ensures
        flow_pos(bs, g, pos) == flow_pos(bs, f, pos),
        covered_blocks(bs, g, pos),
    decreases bs, 0int,
{
    if bs.len() > 0 {
        lemma_flow_frame(bs.drop_last(), f, g, pos);
        lemma_flow_block_frame(bs.last(), f, g, flow_pos(bs.drop_last(), f, pos));
    }
}

/// One block's flow from a covered position ignores flags past those it reads.
pub proof fn lemma_flow_block_frame(b: RichBlock, f: Seq<bool>, g: Seq<bool>, pos: int)
    requires
        covered_block(b, f, pos),
        f.len() <= g.len(),
        forall|k: int| 0 <= k < f.len() ==> #[trigger] g[k] == f[k],
    ensures
        flow_block_pos(b, g, pos) == flow_block_pos(b, f, pos),
        covered_block(b, g, pos),
    decreases b, 1int,
{
    if let RichBlock::Section(sec) = b {
        assert(g[pos] == f[pos]);
        if !f[pos] {
            lemma_flow_frame(sec.children@, f, g, pos + 1);
        }
    }
}

/// The collapse states recorded in the headers of a flow, in order.
pub open spec fn header_flags<'a>(fl: Seq<FlowItem<'a>>) -> Seq<bool>
    decreases fl.len(),
{
    if fl.len() == 0 {
        Seq::empty()
    } else {
        header_flags(fl.drop_last()) + match fl.last() {
            FlowItem::Header { collapsed, .. } => seq![collapsed],
            _ => Seq::empty(),
        }
    }
}

/// The header state of a single flow item, if it is a header.
proof fn lemma_header_flags_single(x: FlowItem<'_>)
    ensures
        header_flags(seq![x]) == match x {
            FlowItem::Header { collapsed, .. } => seq![collapsed],
            _ => Seq::<bool>::empty(),
        },
{
    assert(seq![x].drop_last() =~= Seq::<FlowItem<'_>>::empty());
    assert(seq![x].last() == x);
    reveal_with_fuel(header_flags, 2);
    assert(header_flags(Seq::<FlowItem<'_>>::empty()) == Seq::<bool>::empty());
    assert(Seq::<bool>::empty() + match x {
        FlowItem::Header { collapsed, .. } => seq![collapsed],
        _ => Seq::<bool>::empty(),
    } =~= match x {
        FlowItem::Header { collapsed, .. } => seq![collapsed],
        _ => Seq::<bool>::empty(),
    });
}

/// The header states of two flows one after the other.
proof fn lemma_header_flags_concat<'a>(a: Seq<FlowItem<'a>>, b: Seq<FlowItem<'a>>)
    ensures
        header_flags(a + b) == header_flags(a) + header_flags(b),
    decreases b.len(),
{
    if b.len() == 0 {
        assert(a + b =~= a);
        assert(header_flags(a) + header_flags(b) =~= header_flags(a));
    } else {
        lemma_header_flags_concat(a, b.drop_last());
        assert((a + b).drop_last() =~= a + b.drop_last());
        assert((a + b).last() == b.last());
        assert(header_flags(a) + header_flags(b) =~= header_flags(a) + header_flags(b.drop_last()) + match b.last() {
            FlowItem::Header { collapsed, .. } => seq![collapsed],
            _ => Seq::empty(),
        });
    }
}

/// With a snapshot that covers the flow, the headers of the flow carry exactly
/// the snapshot's flags from `pos` on, in order: the layout and its key see the
/// same collapse states.
pub proof fn lemma_flow_header_flags(bs: Seq<RichBlock>, f: Seq<bool>, pos: int, indent: int, si: int)
    requires
        covered_blocks(bs, f, pos),
        0 <= pos <= f.len(),
    ensures
        pos <= flow_pos(bs, f, pos) <= f.len(),
        header_flags(flow_blocks(bs, f, pos, indent, si).0) == f.subrange(pos, flow_pos(bs, f, pos)),
    decreases bs, 0int,
{
    if bs.len() == 0 {
        assert(f.subrange(pos, pos) =~= Seq::<bool>::empty());
    } else {
        let d = bs.drop_last();
        lemma_flow_header_flags(d, f, pos, indent, si);
        lemma_flow_pos(d, f, pos, indent, si);
        let p1 = flow_pos(d, f, pos);
        lemma_block_header_flags(bs.last(), f, p1, indent, si);
        let (head, _) = flow_blocks(d, f, pos, indent, si);
        let (tail, _) = flow_block(bs.last(), f, p1, indent, si);
        lemma_header_flags_concat(head, tail);
        assert(f.subrange(pos, p1) + f.subrange(p1, flow_block_pos(bs.last(), f, p1)) =~= f.subrange(
            pos,
            flow_block_pos(bs.last(), f, p1),
        ));
    }
}

/// A snapshot as [`collapsed_states`](crate::richtext::collapsed_states) reads it
/// (covering the flow and used up by it) is exactly the sequence of collapse
/// states in the headers of the document's flow: the layout key and the layout
/// agree.
pub proof fn lemma_snapshot_is_header_states(bs: Seq<RichBlock>, r: Seq<bool>, si: int)
    requires
        covered_blocks(bs, r, 0),
        flow_pos(bs, r, 0) == r.len(),
    ensures
        header_flags(flow_blocks(bs, r, 0, 0, si).0) == r,
{
    lemma_flow_header_flags(bs, r, 0, 0, si);
    assert(r.subrange(0, r.len() as int) =~= r);
}

/// One block's part of [`lemma_flow_header_flags`].
pub proof fn lemma_block_header_flags(b: RichBlock, f: Seq<bool>, pos: int, indent: int, si: int)
    requires
        covered_block(b, f, pos),
        0 <= pos <= f.len(),
    ensures
        pos <= flow_block_pos(b, f, pos) <= f.len(),
        header_flags(flow_block(b, f, pos, indent, si).0) == f.subrange(pos, flow_block_pos(b, f, pos)),
    decreases b, 1int,
{
    match b {
        RichBlock::Section(sec) => {
            let h = FlowItem::Header { para: &sec.header, indent: indent as i32, collapsed: f[pos], state: sec.collapsed };
            lemma_header_flags_single(h);
            if f[pos] {
                assert(f.subrange(pos, pos + 1) =~= seq![f[pos]]);
            } else {
                lemma_flow_header_flags(sec.children@, f, pos + 1, indent + si, si);
                lemma_flow_pos(sec.children@, f, pos + 1, indent + si, si);
                let kids = flow_blocks(sec.children@, f, pos + 1, indent + si, si).0;
                lemma_header_flags_concat(seq![h], kids);
                assert(seq![f[pos]] + f.subrange(pos + 1, flow_pos(sec.children@, f, pos + 1)) =~= f.subrange(
                    pos,
                    flow_pos(sec.children@, f, pos + 1),
                ));
            }
        },
        RichBlock::Para(p) => {
            assert(f.subrange(pos, pos) =~= Seq::<bool>::empty());
            let fl = seq![FlowItem::Para { para: &p, indent: indent as i32 }];
            lemma_header_flags_single(fl[0]);
            assert(fl =~= seq![fl[0]]);
        },
        RichBlock::Divider => {
            assert(f.subrange(pos, pos) =~= Seq::<bool>::empty());
            let fl = seq![FlowItem::Divider { indent: indent as i32 }];
            lemma_header_flags_single(fl[0]);
            assert(fl =~= seq![fl[0]]);
        },
    }
}

/// A block list nests at least as deep as each of its blocks.
proof fn lemma_nest_depth_each(bs: Seq<RichBlock>, i: int)
    requires
        0 <= i < bs.len(),
    ensures
        block_depth(bs[i]) <= nest_depth(bs),
    decreases bs.len(),
{
    if i < bs.len() - 1 {
        lemma_nest_depth_each(bs.drop_last(), i);
        assert(bs.drop_last()[i] == bs[i]);
    }
}

/// The flow of the first `i + 1` blocks is that of the first `i` followed by that
/// of block `i`.
proof fn lemma_flow_step(bs: Seq<RichBlock>, i: int, flags: Seq<bool>, pos: int, indent: int, si: int)
    requires
        0 <= i < bs.len(),
    ensures
        ({
            let (head, p1) = flow_blocks(bs.take(i), flags, pos, indent, si);
            let (tail, p2) = flow_block(bs[i], flags, p1, indent, si);
            flow_blocks(bs.take(i + 1), flags, pos, indent, si) == (head + tail, p2)
        }),
{
    assert(bs.take(i + 1).drop_last() =~= bs.take(i));
    assert(bs.take(i + 1).last() == bs[i]);
}

/// Appends the layout flow of `bs` at `indent` to `out`, taking collapse flags
/// from `flags` at `pos`; returns the position after the flags used.
fn flow_into<'a>(
    bs: &'a Vec<RichBlock>,
    flags: &Vec<bool>,
    pos: usize,
    indent: i32,
    si: i32,
    out: &mut Vec<FlowItem<'a>>,
) -> (p2: usize)
    requires
        pos <= flags.len(),
        i32::MIN <= indent + si * nest_depth(bs@) <= i32::MAX,
    ensures
        final(out)@ == old(out)@ + flow_blocks(bs@, flags@, pos as int, indent as int, si as int).0,
        p2 == flow_blocks(bs@, flags@, pos as int, indent as int, si as int).1,
        p2 <= flags.len(),
    decreases bs,
{
    let mut p = pos;
    let n = bs.len();
    let ghost start = old(out)@;
    for i in 0..n
        invariant
            n == bs.len(),
            pos <= flags.len(),
            i32::MIN <= indent + si * nest_depth(bs@) <= i32::MAX,
            p <= flags.len(),
            out@ == start + flow_blocks(bs@.take(i as int), flags@, pos as int, indent as int, si as int).0,
            p == flow_blocks(bs@.take(i as int), flags@, pos as int, indent as int, si as int).1,
    {
        let ghost before = out@;
        let ghost fb = flow_block(bs@[i as int], flags@, p as int, indent as int, si as int);
        proof {
            lemma_flow_step(bs@, i as int, flags@, pos as int, indent as int, si as int);
        }
        match &bs[i] {
            RichBlock::Para(para) => {
                out.push(FlowItem::Para { para, indent });
                proof {
                    assert(fb.0 =~= seq![FlowItem::Para { para, indent }]);
                }
            },
            RichBlock::Divider => {
                out.push(FlowItem::Divider { indent });
                proof {
                    assert(fb.0 =~= seq![FlowItem::Divider { indent }]);
                }
            },
            RichBlock::Section(sec) => {
                let c = p < flags.len() && flags[p];
                let next = if p < flags.len() {
                    p + 1
                } else {
                    p
                };
                let header = FlowItem::Header { para: &sec.header, indent, collapsed: c, state: sec.collapsed };
                let ghost hv = header;
                out.push(header);
                if c {
                    p = next;
                    proof {
                        assert(fb.0 =~= seq![hv]);
                    }
                } else {
                    proof {
                        lemma_nest_depth_each(bs@, i as int);
                        assert(decreases_to!(bs => bs@));
                        assert(decreases_to!(bs@ => bs@[i as int]));
                        let d = nest_depth(sec.children@);
                        let big = nest_depth(bs@);
                        // Between no nesting and the deepest, the indent moves one way.
                        assert(si * (d + 1) == si * d + si) by (nonlinear_arith);
                        assert((si >= 0 ==> 0 <= si * (d + 1) <= si * big) && (si < 0 ==> si * big <= si
                            * (d + 1) <= 0)) by (nonlinear_arith)
                            requires
                                0 <= d,
                                d + 1 <= big,
                        ;
                        assert((si >= 0 ==> 0 <= si <= si * big) && (si < 0 ==> si * big <= si <= 0))
                            by (nonlinear_arith)
                            requires
                                1 <= big,
                        ;
                    }
                    p = flow_into(&sec.children, flags, next, indent + si, si, out);
                    proof {
                        let kids = flow_blocks(sec.children@, flags@, next as int, indent + si, si as int).0;
                        assert(fb.0 =~= seq![hv] + kids);
                        assert(out@ =~= before + fb.0);
                    }
                }
            },
        }
        proof {
            assert(out@ =~= start + flow_blocks(bs@.take(i + 1), flags@, pos as int, indent as int, si as int).0);
        }
    }
    proof {
        assert(bs@.take(n as int) =~= bs@);
    }
    p
}

/// The layout flow of a document, given the collapse flags of its sections in the
/// order they are met (see [`crate::richtext::collapsed_states`]); `si` is the indent of
/// a section's children.
pub fn doc_flow<'a>(doc: &'a RichDoc, flags: &Vec<bool>, si: i32) -> (f: Vec<FlowItem<'a>>)
    requires
        i32::MIN <= si * nest_depth(doc.blocks()) <= i32::MAX,
    ensures
        f@ == flow_blocks(doc.blocks(), flags@, 0, 0, si as int).0,
{
    let mut out: Vec<FlowItem<'a>> = Vec::new();
    let _ = flow_into(doc.block_list(), flags, 0, 0, si, &mut out);
    proof {
        assert(out@ =~= flow_blocks(doc.blocks(), flags@, 0, 0, si as int).0);
    }
    out
}

/// A collapsed section takes part in layout with its header alone: none of its
/// children are laid out, and exactly one collapse flag is used.
pub proof fn lemma_collapsed_section_header_only<'a>(b: RichBlock, flags: Seq<bool>, pos: int, indent: int, si: int)
    requires
        b is Section,
        0 <= pos < flags.len(),
        flags[pos],
    ensures
        flow_block::<'a>(b, flags, pos, indent, si).0.len() == 1,
        flow_block::<'a>(b, flags, pos, indent, si).0[0] is Header,
        flow_block::<'a>(b, flags, pos, indent, si).1 == pos + 1,
{
}

/// Two sections with the same header and collapse state, whatever their
/// children.
pub open spec fn same_but_children(a: RichBlock, b: RichBlock) -> bool {
    &&& a is Section
    &&& b is Section
    &&& a->Section_0.header == b->Section_0.header
    &&& a->Section_0.collapsed == b->Section_0.collapsed
}

/// A collapsed section hides all its descendants: in a block list, when the
/// section at `k` meets a set flag, giving it any other children (none at all,
/// for one) leaves the whole flow, and the flags it uses, unchanged.
pub proof fn lemma_collapsed_children_ignored<'a>(
    bs: Seq<RichBlock>,
    bs2: Seq<RichBlock>,
    k: int,
    f: Seq<bool>,
    pos: int,
    indent: int,
    si: int,
)
    requires
        bs2.len() == bs.len(),
        0 <= k < bs.len(),
        forall|j: int| 0 <= j < bs.len() && j != k ==> #[trigger] bs2[j] == bs[j],
        same_but_children(bs[k], bs2[k]),
        flag_at(f, flow_pos(bs.take(k), f, pos)),
    ensures
        flow_blocks::<'a>(bs2, f, pos, indent, si) == flow_blocks::<'a>(bs, f, pos, indent, si),
    decreases bs.len(),
{
    let n = bs.len() - 1;
    let d = bs.drop_last();
    let d2 = bs2.drop_last();
    if k == n {
        assert(d2 =~= d);
        assert(bs.take(k) =~= d);
        lemma_flow_pos(d, f, pos, indent, si);
        let p1 = flow_pos(d, f, pos);
        let a = bs.last()->Section_0;
        let b = bs2.last()->Section_0;
        assert(flow_block::<'a>(bs.last(), f, p1, indent, si).0 == seq![
            FlowItem::Header { para: &a.header, indent: indent as i32, collapsed: true, state: a.collapsed },
        ]);
        assert(flow_block::<'a>(bs2.last(), f, p1, indent, si).0 == seq![
            FlowItem::Header { para: &b.header, indent: indent as i32, collapsed: true, state: b.collapsed },
        ]);
    } else {
        assert(d.take(k) =~= bs.take(k));
        assert forall|j: int| 0 <= j < d.len() && j != k implies #[trigger] d2[j] == d[j] by {
            assert(d2[j] == bs2[j] && d[j] == bs[j]);
        }
        lemma_collapsed_children_ignored(d, d2, k, f, pos, indent, si);
        assert(bs2.last() == bs.last());
    }
}

/// The flag position after a section's own flag at `pos` is used.
pub open spec fn after_flag(f: Seq<bool>, pos: int) -> int {
    if pos < f.len() {
        pos + 1
    } else {
        pos
    }
}

/// `bs2` is `bs` except for the children of the section reached by `path`: the
/// path's first index picks a block of `bs`, each further index a child of the
/// section picked before. Every block off the path, and the header and state of
/// every section on it, are the same.
pub open spec fn differ_only_at(bs: Seq<RichBlock>, bs2: Seq<RichBlock>, path: Seq<int>) -> bool
    decreases path.len(),
{
    &&& path.len() > 0
    &&& bs2.len() == bs.len()
    &&& 0 <= path[0] < bs.len()
    &&& forall|j: int| 0 <= j < bs.len() && j != path[0] ==> #[trigger] bs2[j] == bs[j]
    &&& same_but_children(bs[path[0]], bs2[path[0]])
    &&& path.len() > 1 ==> differ_only_at(
        bs[path[0]]->Section_0.children@,
        bs2[path[0]]->Section_0.children@,
        path.drop_first(),
    )
}

/// The section reached by `path` in `bs` (laid out with flags `f` from `pos`)
/// takes no part in the layout of its children: it meets a set flag itself, or
/// one of the sections around it does.
pub open spec fn hidden_at(bs: Seq<RichBlock>, f: Seq<bool>, pos: int, path: Seq<int>) -> bool
    decreases path.len(),
{
    &&& path.len() > 0
    &&& 0 <= path[0] < bs.len()
    &&& bs[path[0]] is Section
    &&& {
        let p = flow_pos(bs.take(path[0]), f, pos);
        ||| flag_at(f, p)
        ||| (path.len() > 1 && hidden_at(
            bs[path[0]]->Section_0.children@,
            f,
            after_flag(f, p),
            path.drop_first(),
        ))
    }
}

/// One block's part of [`lemma_hidden_children_ignored`].
proof fn lemma_hidden_children_ignored_block<'a>(
    b: RichBlock,
    b2: RichBlock,
    path: Seq<int>,
    f: Seq<bool>,
    pos: int,
    indent: int,
    si: int,
)
    requires
        path.len() > 0,
        same_but_children(b, b2),
        path.len() > 1 ==> differ_only_at(
            b->Section_0.children@,
            b2->Section_0.children@,
            path.drop_first(),
        ),
        flag_at(f, pos) || (path.len() > 1 && hidden_at(
            b->Section_0.children@,
            f,
            after_flag(f, pos),
            path.drop_first(),
        )),
    ensures
        flow_block::<'a>(b2, f, pos, indent, si) == flow_block::<'a>(b, f, pos, indent, si),
    decreases path.len(), 0int,
{
    let a = b->Section_0;
    let c = b2->Section_0;
    if flag_at(f, pos) {
        assert(flow_block::<'a>(b, f, pos, indent, si).0 == seq![
            FlowItem::Header { para: &a.header, indent: indent as i32, collapsed: true, state: a.collapsed },
        ]);
        assert(flow_block::<'a>(b2, f, pos, indent, si).0 == seq![
            FlowItem::Header { para: &c.header, indent: indent as i32, collapsed: true, state: c.collapsed },
        ]);
    } else {
        lemma_hidden_children_ignored_list(
            a.children@,
            c.children@,
            path.drop_first(),
            f,
            after_flag(f, pos),
            indent + si,
            si,
        );
    }
}

/// The list part of [`lemma_hidden_children_ignored`].
proof fn lemma_hidden_children_ignored_list<'a>(
    bs: Seq<RichBlock>,
    bs2: Seq<RichBlock>,
    path: Seq<int>,
    f: Seq<bool>,
    pos: int,
    indent: int,
    si: int,
)
    requires
        differ_only_at(bs, bs2, path),
        hidden_at(bs, f, pos, path),
    ensures
        flow_blocks::<'a>(bs2, f, pos, indent, si) == flow_blocks::<'a>(bs, f, pos, indent, si),
    decreases path.len(), bs.len() + 1,
{
    let k = path[0];
    let n = bs.len() - 1;
    let d = bs.drop_last();
    let d2 = bs2.drop_last();
    if k == n {
        assert(d2 =~= d);
        assert(bs.take(k) =~= d);
        lemma_flow_pos(d, f, pos, indent, si);
        lemma_hidden_children_ignored_block(
            bs.last(),
            bs2.last(),
            path,
            f,
            flow_pos(d, f, pos),
            indent,
            si,
        );
    } else {
        assert(d.take(k) =~= bs.take(k));
        assert(d[k] == bs[k] && d2[k] == bs2[k]);
        assert forall|j: int| 0 <= j < d.len() && j != k implies #[trigger] d2[j] == d[j] by {
            assert(d2[j] == bs2[j] && d[j] == bs[j]);
        }
        assert(differ_only_at(d, d2, path));
        assert(hidden_at(d, f, pos, path));
        lemma_hidden_children_ignored_list(d, d2, path, f, pos, indent, si);
        assert(bs2.last() == bs.last());
    }
}

/// A collapsed section hides its descendants at any depth: when the section
/// reached by `path` (through nested sections) takes no part in the layout of
/// its children, because it or a section around it meets a set flag, giving it
/// any other children leaves the whole flow, and the flags it uses, unchanged.
pub proof fn lemma_hidden_children_ignored<'a>(
    bs: Seq<RichBlock>,
    bs2: Seq<RichBlock>,
    path: Seq<int>,
    f: Seq<bool>,
    pos: int,
    indent: int,
    si: int,
)
    requires
        differ_only_at(bs, bs2, path),
        hidden_at(bs, f, pos, path),
    ensures
        flow_blocks::<'a>(bs2, f, pos, indent, si) == flow_blocks::<'a>(bs, f, pos, indent, si),
{
    lemma_hidden_children_ignored_list(bs, bs2, path, f, pos, indent, si);
}

} // verus!
