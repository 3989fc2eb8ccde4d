//! Breaking a paragraph's measured pieces into lines, greedily, and the laws
//! the result obeys.

use vstd::prelude::*;

verus! {

/// Kind of a measured piece of a paragraph.
#[derive(Clone, Copy, Debug, PartialEq, Eq, Structural)]
pub enum PieceKind {
    /// Unbreakable content: a word, one CJK character, a whole chip, or a
    /// section's disclosure arrow.
    Word,
    /// Whitespace: dropped at the start of a line, never the cause of a break,
    /// trimmed from the end of a line.
    Space,
    /// Forced line break.
    Newline,
}

/// A measured piece: kind, box width (text width plus any chip padding) and
/// whether it has something to draw even when blank (background, chip,
/// underline or strike-through).
#[derive(Clone, Copy, Debug, PartialEq, Eq, Structural)]
pub struct Piece {
    pub kind: PieceKind,
    pub w: i32,
    pub visual: bool,
}

/// A piece placed on a line at `x` (relative to the content's left edge). The
/// piece is drawn unless it is whitespace with nothing to draw; it still counts
/// for the line's vertical metrics.
#[derive(Clone, Copy, Debug, PartialEq, Eq, Structural)]
pub struct Placed {
    pub piece: usize,
    pub x: i32,
    pub line: usize,
    pub emit: bool,
}

/// A line of the paragraph.
#[derive(Clone, Copy, Debug, PartialEq, Eq, Structural)]
pub enum LineKind {
    /// A line with placed pieces; `end_x` is where its last piece ends.
    Text { end_x: i32 },
    /// An empty line made by a line feed that followed nothing on its line; its
    /// height is that of the line feed's style.
    Gap { piece: usize },
}

/// Total width of pieces `a..b`.
pub open spec fn sum_w(p: Seq<Piece>, a: int, b: int) -> int
    decreases b - a,
{
    if b <= a {
        0
    } else {
        sum_w(p, a, b - 1) + p[b - 1].w
    }
}

/// End of `a..b` once trailing whitespace is dropped.
pub open spec fn trim_end(p: Seq<Piece>, a: int, b: int) -> int
    decreases b - a,
{
    if b <= a {
        a
    } else if p[b - 1].kind == PieceKind::Space {
        trim_end(p, a, b - 1)
    } else {
        b
    }
}

/// Whether a placed piece is drawn.
pub open spec fn emits(pc: Piece) -> bool {
    !(pc.kind == PieceKind::Space && !pc.visual)
}

/// State of the line breaker: placed pieces and finished lines so far, the
/// pending line `start..` (the pieces seen since it began) and the pen position.
pub struct BreakState {
    pub items: Seq<Placed>,
    pub lines: Seq<LineKind>,
    pub start: int,
    pub x: int,
}

/// The pieces `a..k` placed from `x0` on line number `line`.
pub open spec fn placed_run(p: Seq<Piece>, a: int, k: int, x0: int, line: int) -> Seq<Placed> {
    Seq::new(
        (k - a) as nat,
        |j: int|
            Placed {
                piece: (a + j) as usize,
                x: (x0 + sum_w(p, a, a + j)) as i32,
                line: line as usize,
                emit: emits(p[a + j]),
            },
    )
}

/// Ends the pending line `a..b`: trailing whitespace is dropped; a line left
/// empty produces nothing.
pub open spec fn flush_spec(p: Seq<Piece>, st: BreakState, b: int, x0: int) -> BreakState {
    let k = trim_end(p, st.start, b);
    if k == st.start {
        st
    } else {
        BreakState {
            items: st.items + placed_run(p, st.start, k, x0, st.lines.len() as int),
            lines: st.lines.push(LineKind::Text { end_x: (x0 + sum_w(p, st.start, k)) as i32 }),
            ..st
        }
    }
}

/// One piece through the greedy line breaker.
pub open spec fn step_spec(p: Seq<Piece>, st: BreakState, i: int, x0: int, wrap: Option<i32>) -> BreakState {
    let pc = p[i];
    match pc.kind {
        PieceKind::Newline => {
            let f = flush_spec(p, st, i, x0);
            BreakState {
                lines: if st.x == x0 {
                    f.lines.push(LineKind::Gap { piece: i as usize })
                } else {
                    f.lines
                },
                start: i + 1,
                x: x0,
                ..f
            }
        },
        PieceKind::Space => if st.start == i {
            BreakState { start: i + 1, ..st }
        } else {
            BreakState { x: st.x + pc.w, ..st }
        },
        PieceKind::Word => if wrap is Some && st.start < i && st.x + pc.w > wrap->0 {
            let f = flush_spec(p, st, i, x0);
            BreakState { start: i, x: x0 + pc.w, ..f }
        } else {
            BreakState { x: st.x + pc.w, ..st }
        },
    }
}

/// The breaker's state after the first `n` pieces.
pub open spec fn run_spec(p: Seq<Piece>, n: int, x0: int, wrap: Option<i32>) -> BreakState
    decreases n,
{
    if n <= 0 {
        BreakState { items: Seq::empty(), lines: Seq::empty(), start: 0, x: x0 }
    } else {
        step_spec(p, run_spec(p, n - 1, x0, wrap), n - 1, x0, wrap)
    }
}

/// The lines of a paragraph: every piece run through the breaker, then the last
/// line ended.
pub open spec fn break_spec(p: Seq<Piece>, x0: int, wrap: Option<i32>) -> BreakState {
    flush_spec(p, run_spec(p, p.len() as int, x0, wrap), p.len() as int, x0)
}

/// Every run of pieces, laid from `x0`, ends within `i32`.
pub open spec fn pieces_fit(p: Seq<Piece>, x0: int) -> bool {
    forall|a: int, b: int|
        0 <= a <= b <= p.len() ==> i32::MIN <= x0 + #[trigger] sum_w(p, a, b) <= i32::MAX
}

/// No piece has a negative width.
pub open spec fn widths_nonneg(p: Seq<Piece>) -> bool {
    forall|i: int| 0 <= i < p.len() ==> 0 <= (#[trigger] p[i]).w
}

/// The result of breaking a paragraph into lines.
pub struct LineBreaks {
    pub items: Vec<Placed>,
    pub lines: Vec<LineKind>,
}

/// Splitting a range's width at a midpoint.
pub proof fn lemma_sum_w_split(p: Seq<Piece>, a: int, m: int, b: int)
    requires
        a <= m <= b,
    ensures
        sum_w(p, a, b) == sum_w(p, a, m) + sum_w(p, m, b),
    decreases b - m,
{
    if b > m {
        lemma_sum_w_split(p, a, m, b - 1);
    }
}

/// With widths not negative, every range has a width of at least 0.
pub proof fn lemma_sum_w_nonneg(p: Seq<Piece>, a: int, b: int)
    requires
        0 <= a,
        b <= p.len(),
        widths_nonneg(p),
    ensures
        0 <= sum_w(p, a, b),
    decreases b - a,
{
    if b > a {
        lemma_sum_w_nonneg(p, a, b - 1);
    }
}

/// The breaker's pen is always at the line's start plus the width of the pending
/// pieces, and the pending line never starts past the pieces seen.
pub proof fn lemma_run_pen(p: Seq<Piece>, n: int, x0: int, wrap: Option<i32>)
    requires
        0 <= n <= p.len(),
    ensures
        0 <= run_spec(p, n, x0, wrap).start <= n,
        run_spec(p, n, x0, wrap).x == x0 + sum_w(p, run_spec(p, n, x0, wrap).start, n),
    decreases n,
{
    if n > 0 {
        lemma_run_pen(p, n - 1, x0, wrap);
        assert(sum_w(p, n, n) == 0);
        assert(sum_w(p, n - 1, n) == p[n - 1].w) by {
            reveal_with_fuel(sum_w, 2);
        }
    }
}

/// Ends the pending line `start..b` (see [`flush_spec`]).
fn flush_exec(
    p: &Vec<Piece>,
    items: &mut Vec<Placed>,
    lines: &mut Vec<LineKind>,
    start: usize,
    b: usize,
    x0: i32,
)
    requires
        start <= b <= p.len(),
        pieces_fit(p@, x0 as int),
    ensures
        ({
            let f = flush_spec(
                p@,
                BreakState { items: old(items)@, lines: old(lines)@, start: start as int, x: 0 },
                b as int,
                x0 as int,
            );
            final(items)@ == f.items && final(lines)@ == f.lines
        }),
{
    let mut k = b;
    while k > start && p[k - 1].kind == PieceKind::Space
        invariant
            start <= k <= b <= p.len(),
            trim_end(p@, start as int, b as int) == trim_end(p@, start as int, k as int),
        decreases k,
    {
        k = k - 1;
    }
    if k == start {
        return;
    }
    let line = lines.len();
    let ghost base = items@;
    let mut x: i32 = x0;
    let mut j = start;
    while j < k
        invariant
            start <= j <= k <= b <= p.len(),
            pieces_fit(p@, x0 as int),
            line == lines.len(),
            x == x0 + sum_w(p@, start as int, j as int),
            items@ == base + placed_run(p@, start as int, j as int, x0 as int, line as int),
        decreases k - j,
    {
        proof {
            assert(i32::MIN <= x0 + sum_w(p@, start as int, j + 1) <= i32::MAX);
        }
        let pc = p[j];
        items.push(
            Placed {
                piece: j,
                x,
                line,
                emit: !(pc.kind == PieceKind::Space && !pc.visual),
            },
        );
        x = x + pc.w;
        proof {
            assert(placed_run(p@, start as int, j + 1, x0 as int, line as int) =~= placed_run(
                p@,
                start as int,
                j as int,
                x0 as int,
                line as int,
            ).push(
                Placed {
                    piece: j,
                    x: (x0 + sum_w(p@, start as int, j as int)) as i32,
                    line,
                    emit: emits(p@[j as int]),
                },
            ));
        }
        j = j + 1;
    }
    lines.push(LineKind::Text { end_x: x });
}

/// Breaks a paragraph's measured pieces into lines, greedily: a piece of content
/// that would end past `wrap` starts a new line unless it is first on its line;
/// whitespace never starts a line nor causes a break; a line feed always ends the
/// line. Lines start at `x0`.
pub fn break_lines(p: &Vec<Piece>, x0: i32, wrap: Option<i32>) -> (r: LineBreaks)
    requires
        pieces_fit(p@, x0 as int),
    ensures
        r.items@ == break_spec(p@, x0 as int, wrap).items,
        r.lines@ == break_spec(p@, x0 as int, wrap).lines,
{
    let mut items: Vec<Placed> = Vec::new();
    let mut lines: Vec<LineKind> = Vec::new();
    let mut start: usize = 0;
    let mut x: i32 = x0;
    let n = p.len();
    for i in 0..n
        invariant
            n == p.len(),
            pieces_fit(p@, x0 as int),
            items@ == run_spec(p@, i as int, x0 as int, wrap).items,
            lines@ == run_spec(p@, i as int, x0 as int, wrap).lines,
            start == run_spec(p@, i as int, x0 as int, wrap).start,
            x == run_spec(p@, i as int, x0 as int, wrap).x,
    {
        proof {
            lemma_run_pen(p@, i as int, x0 as int, wrap);
            lemma_sum_w_split(p@, start as int, i as int, i + 1);
            assert(i32::MIN <= x0 + sum_w(p@, start as int, i + 1) <= i32::MAX);
            assert(i32::MIN <= x0 + sum_w(p@, i as int, i + 1) <= i32::MAX);
            assert(sum_w(p@, i as int, i + 1) == p@[i as int].w) by {
                reveal_with_fuel(sum_w, 2);
            }
        }
        let pc = p[i];
        match pc.kind {
            PieceKind::Newline => {
                let was_empty = x == x0;
                flush_exec(p, &mut items, &mut lines, start, i, x0);
                if was_empty {
                    lines.push(LineKind::Gap { piece: i });
                }
                start = i + 1;
                x = x0;
            },
            PieceKind::Space => {
                if start == i {
                    start = i + 1;
                } else {
                    x = x + pc.w;
                }
            },
            PieceKind::Word => {
                let wraps = match wrap {
                    Some(w) => start < i && x + pc.w > w,
                    None => false,
                };
                if wraps {
                    flush_exec(p, &mut items, &mut lines, start, i, x0);
                    start = i;
                    x = x0 + pc.w;
                } else {
                    x = x + pc.w;
                }
            },
        }
    }
    proof {
        lemma_run_pen(p@, n as int, x0 as int, wrap);
    }
    flush_exec(p, &mut items, &mut lines, start, n, x0);
    LineBreaks { items, lines }
}

/// Placed pieces come in increasing piece order, all before `bound`.
#[verifier::opaque]
pub open spec fn items_ordered(items: Seq<Placed>, bound: int) -> bool {
    &&& forall|a: int, b: int|
        #![trigger items[a], items[b]]
        0 <= a < b < items.len() ==> items[a].piece < items[b].piece
    &&& forall|k: int| 0 <= k < items.len() ==> (#[trigger] items[k]).piece < bound
}

/// Placed pieces are content or whitespace, never line feeds.
#[verifier::opaque]
pub open spec fn items_content(p: Seq<Piece>, items: Seq<Placed>) -> bool {
    forall|k: int|
        0 <= k < items.len() ==> (#[trigger] items[k]).piece < p.len() && p[items[k].piece as int].kind
            != PieceKind::Newline
}

/// Every content piece before `upto` is placed.
#[verifier::opaque]
pub open spec fn words_placed(p: Seq<Piece>, items: Seq<Placed>, upto: int) -> bool {
    forall|j: int|
        0 <= j < upto && (#[trigger] p[j]).kind == PieceKind::Word ==> exists|k: int|
            0 <= k < items.len() && (#[trigger] items[k]).piece == j
}

/// With a bounded width, every placed piece but the first of its line ends within
/// the width.
#[verifier::opaque]
pub open spec fn items_fit(p: Seq<Piece>, items: Seq<Placed>, wrap: Option<i32>) -> bool {
    wrap matches Some(w) ==> forall|k: int|
        #![trigger items[k]]
        0 < k < items.len() && items[k - 1].line == items[k].line ==> items[k].x + p[items[k].piece as int].w <= w
}

/// Line numbers of placed pieces never decrease and name lines already made.
#[verifier::opaque]
pub open spec fn items_lined(items: Seq<Placed>, nlines: int) -> bool {
    &&& forall|k: int| 0 <= k < items.len() ==> (#[trigger] items[k]).line < nlines
    &&& forall|a: int, b: int|
        #![trigger items[a], items[b]]
        0 <= a < b < items.len() ==> items[a].line <= items[b].line
}

/// Every line begins and ends with content: no whitespace at either edge.
#[verifier::opaque]
pub open spec fn edges_content(p: Seq<Piece>, items: Seq<Placed>) -> bool {
    &&& forall|k: int|
        #![trigger items[k]]
        0 <= k < items.len() && (k == 0 || items[k - 1].line != items[k].line) ==> p[items[k].piece as int].kind
            == PieceKind::Word
    &&& forall|k: int|
        #![trigger items[k]]
        0 <= k < items.len() && (k == items.len() - 1 || items[k + 1].line != items[k].line)
            ==> p[items[k].piece as int].kind == PieceKind::Word
}

/// The pending line `start..i` begins with content, holds no line feed, and (with
/// a bounded width) each content piece after its first ends within the width.
#[verifier::opaque]
pub open spec fn pending_ok(p: Seq<Piece>, x0: int, wrap: Option<i32>, start: int, i: int) -> bool {
    &&& start < i ==> p[start].kind == PieceKind::Word
    &&& forall|j: int| start <= j < i ==> (#[trigger] p[j]).kind != PieceKind::Newline
    &&& wrap matches Some(w) ==> forall|j: int|
        start < j < i && (#[trigger] p[j]).kind == PieceKind::Word ==> x0 + sum_w(p, start, j + 1) <= w
}

/// What holds of the placed pieces of a breaker state.
pub open spec fn placed_inv(p: Seq<Piece>, wrap: Option<i32>, items: Seq<Placed>, nlines: int, done: int) -> bool {
    &&& items_ordered(items, done)
    &&& items_content(p, items)
    &&& words_placed(p, items, done)
    &&& items_fit(p, items, wrap)
    &&& items_lined(items, nlines)
    &&& edges_content(p, items)
}

/// What holds of the breaker after `i` pieces.
pub open spec fn break_inv(p: Seq<Piece>, x0: int, wrap: Option<i32>, st: BreakState, i: int) -> bool {
    &&& 0 <= st.start <= i <= p.len()
    &&& placed_inv(p, wrap, st.items, st.lines.len() as int, st.start)
    &&& pending_ok(p, x0, wrap, st.start, i)
}

/// Trimming drops only whitespace, and what it keeps ends with something else.
proof fn lemma_trim_end_props(p: Seq<Piece>, a: int, b: int)
    requires
        0 <= a <= b <= p.len(),
    ensures
        a <= trim_end(p, a, b) <= b,
        forall|j: int| trim_end(p, a, b) <= j < b ==> (#[trigger] p[j]).kind == PieceKind::Space,
        trim_end(p, a, b) > a ==> p[trim_end(p, a, b) - 1].kind != PieceKind::Space,
    decreases b - a,
{
    if b > a && p[b - 1].kind == PieceKind::Space {
        lemma_trim_end_props(p, a, b - 1);
    }
}

/// A width range grows with its end, widths being non-negative.
proof fn lemma_sum_w_mono(p: Seq<Piece>, a: int, b: int, c: int)
    requires
        0 <= a <= b <= c <= p.len(),
        widths_nonneg(p),
    ensures
        sum_w(p, a, b) <= sum_w(p, a, c),
{
    lemma_sum_w_split(p, a, b, c);
    lemma_sum_w_nonneg(p, b, c);
}

/// The placed pieces of a run: consecutive pieces from `a`, on one line, each at
/// the start position plus the width before it.
proof fn lemma_run_facts(p: Seq<Piece>, a: int, k: int, x0: int, line: int)
    requires
        0 <= a <= k <= p.len() <= usize::MAX,
        0 <= line <= usize::MAX,
        pieces_fit(p, x0),
    ensures
        forall|m: int|
            0 <= m < k - a ==> {
                &&& (#[trigger] placed_run(p, a, k, x0, line)[m]).piece == a + m
                &&& placed_run(p, a, k, x0, line)[m].line == line
                &&& placed_run(p, a, k, x0, line)[m].x == x0 + sum_w(p, a, a + m)
            },
{
    assert forall|m: int| 0 <= m < k - a implies (#[trigger] placed_run(p, a, k, x0, line)[m]).x == x0
        + sum_w(p, a, a + m) by {
        assert(i32::MIN <= x0 + sum_w(p, a, a + m) <= i32::MAX);
    }
}

/// A line ended from a state of [`break_inv`] at `b`.
pub open spec fn flush_ok(p: Seq<Piece>, x0: int, wrap: Option<i32>, st: BreakState, b: int) -> bool {
    let f = flush_spec(p, st, b, x0);
    &&& placed_inv(p, wrap, f.items, f.lines.len() as int, b)
    &&& f.lines.len() >= st.lines.len()
}

/// The appended run seen from the whole sequence.
proof fn lemma_append_index(old: Seq<Placed>, run: Seq<Placed>)
    ensures
        forall|m: int| 0 <= m < old.len() ==> #[trigger] (old + run)[m] == old[m],
        forall|m: int| old.len() <= m < old.len() + run.len() ==> #[trigger] (old + run)[m] == run[m - old.len()],
{
}

/// Ending a line keeps the order of placed pieces.
proof fn lemma_flush_ordered(p: Seq<Piece>, x0: int, st: BreakState, b: int)
    requires
        0 <= st.start <= b <= p.len() <= usize::MAX,
        st.lines.len() <= usize::MAX,
        pieces_fit(p, x0),
        items_ordered(st.items, st.start),
    ensures
        items_ordered(flush_spec(p, st, b, x0).items, b),
{
    reveal(items_ordered);
    let a = st.start;
    lemma_trim_end_props(p, a, b);
    let k = trim_end(p, a, b);
    if k > a {
        let old = st.items;
        let run = placed_run(p, a, k, x0, st.lines.len() as int);
        lemma_run_facts(p, a, k, x0, st.lines.len() as int);
        lemma_append_index(old, run);
        let it = old + run;
        assert forall|x: int, y: int|
            #![trigger it[x], it[y]]
            0 <= x < y < it.len() implies it[x].piece < it[y].piece by {
            if y >= old.len() && x < old.len() {
                assert(old[x].piece < a);
                assert(run[y - old.len()].piece == a + (y - old.len()));
            } else if x >= old.len() {
                assert(run[y - old.len()].piece == a + (y - old.len()));
                assert(run[x - old.len()].piece == a + (x - old.len()));
            }
        }
        assert forall|m: int| 0 <= m < it.len() implies (#[trigger] it[m]).piece < b by {
            if m >= old.len() {
                assert(run[m - old.len()].piece == a + (m - old.len()));
            }
        }
    }
}

/// Ending a line places only pieces of the pending line, which holds no line
/// feed.
proof fn lemma_flush_content(p: Seq<Piece>, x0: int, wrap: Option<i32>, st: BreakState, b: int)
    requires
        0 <= st.start <= b <= p.len() <= usize::MAX,
        st.lines.len() <= usize::MAX,
        pieces_fit(p, x0),
        items_content(p, st.items),
        pending_ok(p, x0, wrap, st.start, b),
    ensures
        items_content(p, flush_spec(p, st, b, x0).items),
{
    reveal(items_content);
    reveal(pending_ok);
    let a = st.start;
    lemma_trim_end_props(p, a, b);
    let k = trim_end(p, a, b);
    if k > a {
        let old = st.items;
        let run = placed_run(p, a, k, x0, st.lines.len() as int);
        lemma_run_facts(p, a, k, x0, st.lines.len() as int);
        lemma_append_index(old, run);
        let it = old + run;
        assert forall|m: int| 0 <= m < it.len() implies (#[trigger] it[m]).piece < p.len()
            && p[it[m].piece as int].kind != PieceKind::Newline by {
            if m >= old.len() {
                let j = a + (m - old.len());
                assert(run[m - old.len()].piece == j);
                assert(p[j].kind != PieceKind::Newline);
            }
        }
    }
}

/// Ending a line places every content piece of the pending line.
proof fn lemma_flush_words(p: Seq<Piece>, x0: int, st: BreakState, b: int)
    requires
        0 <= st.start <= b <= p.len() <= usize::MAX,
        st.lines.len() <= usize::MAX,
        pieces_fit(p, x0),
        words_placed(p, st.items, st.start),
    ensures
        words_placed(p, flush_spec(p, st, b, x0).items, b),
{
    reveal(words_placed);
    let a = st.start;
    lemma_trim_end_props(p, a, b);
    let k = trim_end(p, a, b);
    let old = st.items;
    let it = flush_spec(p, st, b, x0).items;
    if k == a {
        assert forall|j: int| 0 <= j < b && (#[trigger] p[j]).kind == PieceKind::Word implies exists|m: int|
            0 <= m < it.len() && (#[trigger] it[m]).piece == j by {
            if j >= a {
                assert(p[j].kind == PieceKind::Space);
            }
        }
    } else {
        let run = placed_run(p, a, k, x0, st.lines.len() as int);
        lemma_run_facts(p, a, k, x0, st.lines.len() as int);
        lemma_append_index(old, run);
        assert forall|j: int| 0 <= j < b && (#[trigger] p[j]).kind == PieceKind::Word implies exists|m: int|
            0 <= m < it.len() && (#[trigger] it[m]).piece == j by {
            if j < a {
                let m = choose|m: int| 0 <= m < old.len() && (#[trigger] old[m]).piece == j;
                assert(it[m] == old[m]);
            } else if j < k {
                let m = old.len() + (j - a);
                assert(it[m] == run[j - a]);
                assert(run[j - a].piece == j);
            } else {
                assert(p[j].kind == PieceKind::Space);
            }
        }
    }
}

/// Ending a line gives its pieces a new line number, after all earlier ones.
proof fn lemma_flush_lined(p: Seq<Piece>, x0: int, st: BreakState, b: int)
    requires
        0 <= st.start <= b <= p.len() <= usize::MAX,
        st.lines.len() < usize::MAX,
        pieces_fit(p, x0),
        items_lined(st.items, st.lines.len() as int),
    ensures
        items_lined(flush_spec(p, st, b, x0).items, flush_spec(p, st, b, x0).lines.len() as int),
        flush_spec(p, st, b, x0).lines.len() >= st.lines.len(),
{
    reveal(items_lined);
    let a = st.start;
    lemma_trim_end_props(p, a, b);
    let k = trim_end(p, a, b);
    if k > a {
        let old = st.items;
        let ln = st.lines.len() as int;
        let run = placed_run(p, a, k, x0, ln);
        lemma_run_facts(p, a, k, x0, ln);
        lemma_append_index(old, run);
        let it = old + run;
        assert forall|m: int| 0 <= m < it.len() implies (#[trigger] it[m]).line < ln + 1 by {
            if m >= old.len() {
                assert(run[m - old.len()].line == ln);
            }
        }
        assert forall|x: int, y: int|
            #![trigger it[x], it[y]]
            0 <= x < y < it.len() implies it[x].line <= it[y].line by {
            if y >= old.len() {
                assert(run[y - old.len()].line == ln);
                if x >= old.len() {
                    assert(run[x - old.len()].line == ln);
                }
            }
        }
    }
}

/// Ending a line keeps every line's edges content: the new line starts with the
/// pending line's first piece and ends with the last piece kept.
proof fn lemma_flush_edges(p: Seq<Piece>, x0: int, wrap: Option<i32>, st: BreakState, b: int)
    requires
        0 <= st.start <= b <= p.len() <= usize::MAX,
        st.lines.len() <= usize::MAX,
        pieces_fit(p, x0),
        edges_content(p, st.items),
        items_lined(st.items, st.lines.len() as int),
        pending_ok(p, x0, wrap, st.start, b),
    ensures
        edges_content(p, flush_spec(p, st, b, x0).items),
{
    reveal(edges_content);
    reveal(pending_ok);
    reveal(items_lined);
    let a = st.start;
    lemma_trim_end_props(p, a, b);
    let k = trim_end(p, a, b);
    if k > a {
        let old = st.items;
        let ln = st.lines.len() as int;
        let run = placed_run(p, a, k, x0, ln);
        lemma_run_facts(p, a, k, x0, ln);
        lemma_append_index(old, run);
        let it = old + run;
        assert forall|m: int|
            #![trigger it[m]]
            0 <= m < it.len() && (m == 0 || it[m - 1].line != it[m].line) implies p[it[m].piece as int].kind
                == PieceKind::Word by {
            if m > old.len() {
                assert(run[m - old.len()].line == ln);
                assert(run[m - 1 - old.len()].line == ln);
            } else if m == old.len() {
                assert(run[0].piece == a);
            } else if m > 0 {
                assert(it[m - 1] == old[m - 1]);
            }
        }
        assert forall|m: int|
            #![trigger it[m]]
            0 <= m < it.len() && (m == it.len() - 1 || it[m + 1].line != it[m].line) implies p[it[m].piece as int].kind
                == PieceKind::Word by {
            if m < old.len() - 1 {
                assert(it[m + 1] == old[m + 1]);
            } else if m == old.len() - 1 {
            } else if m < it.len() - 1 {
                assert(run[m - old.len()].line == ln);
                assert(run[m + 1 - old.len()].line == ln);
            } else {
                assert(run[m - old.len()].piece == a + (m - old.len()));
                assert(it[m].piece == k - 1);
            }
        }
    }
}

/// Ending a line keeps every placed piece but the first of its line within a
/// bounded width.
proof fn lemma_flush_fit(p: Seq<Piece>, x0: int, wrap: Option<i32>, st: BreakState, b: int)
    requires
        0 <= st.start <= b <= p.len() <= usize::MAX,
        st.lines.len() <= usize::MAX,
        pieces_fit(p, x0),
        widths_nonneg(p),
        items_fit(p, st.items, wrap),
        items_lined(st.items, st.lines.len() as int),
        pending_ok(p, x0, wrap, st.start, b),
    ensures
        items_fit(p, flush_spec(p, st, b, x0).items, wrap),
{
    reveal(items_fit);
    reveal(pending_ok);
    reveal(items_lined);
    let a = st.start;
    lemma_trim_end_props(p, a, b);
    let k = trim_end(p, a, b);
    if k > a && wrap is Some {
        let w = wrap->0;
        let old = st.items;
        let ln = st.lines.len() as int;
        let run = placed_run(p, a, k, x0, ln);
        lemma_run_facts(p, a, k, x0, ln);
        lemma_append_index(old, run);
        let it = old + run;
        assert forall|m: int|
            #![trigger it[m]]
            0 < m < it.len() && it[m - 1].line == it[m].line implies it[m].x + p[it[m].piece as int].w
                <= w by {
            if m == old.len() {
                assert(run[0].line == ln);
                assert(old[m - 1].line < ln);
            } else if m > old.len() {
                let j = a + (m - old.len());
                assert(run[m - old.len()].piece == j);
                assert(run[m - old.len()].x == x0 + sum_w(p, a, j));
                assert(sum_w(p, a, j + 1) == sum_w(p, a, j) + p[j].w);
                lemma_sum_w_mono(p, a, j + 1, k);
                assert(p[k - 1].kind == PieceKind::Word);
                assert(a < k - 1);
                assert(x0 + sum_w(p, a, k) <= w);
            }
        }
    }
}

/// Ending a line from a state of [`break_inv`] keeps the properties of the placed
/// pieces, now up to `b`.
proof fn lemma_flush_inv(p: Seq<Piece>, x0: int, wrap: Option<i32>, st: BreakState, b: int)
    requires
        break_inv(p, x0, wrap, st, b),
        pieces_fit(p, x0),
        widths_nonneg(p),
        p.len() <= usize::MAX,
        st.lines.len() < usize::MAX,
    ensures
        flush_ok(p, x0, wrap, st, b),
{
    lemma_flush_ordered(p, x0, st, b);
    lemma_flush_content(p, x0, wrap, st, b);
    lemma_flush_words(p, x0, st, b);
    lemma_flush_lined(p, x0, st, b);
    lemma_flush_edges(p, x0, wrap, st, b);
    lemma_flush_fit(p, x0, wrap, st, b);
}

/// The breaker makes at most two lines per piece.
proof fn lemma_run_lines(p: Seq<Piece>, n: int, x0: int, wrap: Option<i32>)
    requires
        0 <= n <= p.len(),
    ensures
        run_spec(p, n, x0, wrap).lines.len() <= 2 * n,
    decreases n,
{
    if n > 0 {
        lemma_run_lines(p, n - 1, x0, wrap);
    }
}

/// [`break_inv`] holds of the breaker after every number of pieces.
proof fn lemma_run_inv(p: Seq<Piece>, x0: int, wrap: Option<i32>, n: int)
    requires
        0 <= n <= p.len(),
        2 * p.len() < usize::MAX,
        pieces_fit(p, x0),
        widths_nonneg(p),
    ensures
        break_inv(p, x0, wrap, run_spec(p, n, x0, wrap), n),
    decreases n,
{
    lemma_run_pen(p, n, x0, wrap);
    if n == 0 {
        reveal(items_ordered);
        reveal(items_content);
        reveal(words_placed);
        reveal(items_fit);
        reveal(items_lined);
        reveal(edges_content);
        reveal(pending_ok);
    } else {
        let i = n - 1;
        lemma_run_inv(p, x0, wrap, i);
        lemma_run_pen(p, i, x0, wrap);
        lemma_run_lines(p, i, x0, wrap);
        let st = run_spec(p, i, x0, wrap);
        let nx = run_spec(p, n, x0, wrap);
        let pc = p[i];
        match pc.kind {
            PieceKind::Newline => {
                lemma_flush_inv(p, x0, wrap, st, i);
                let f = flush_spec(p, st, i, x0);
                // A gap line adds no piece; the pending line restarts empty past
                // the line feed, which is not content.
                assert(nx.items == f.items);
                assert(words_placed(p, nx.items, n)) by {
                    reveal(words_placed);
                    assert forall|j: int| 0 <= j < n && (#[trigger] p[j]).kind == PieceKind::Word implies exists|m: int|
                        0 <= m < nx.items.len() && (#[trigger] nx.items[m]).piece == j by {
                        assert(j < i);
                    }
                }
                assert(items_ordered(nx.items, n)) by {
                    reveal(items_ordered);
                }
                assert(items_lined(nx.items, nx.lines.len() as int)) by {
                    reveal(items_lined);
                }
                assert(pending_ok(p, x0, wrap, n, n)) by {
                    reveal(pending_ok);
                }
            },
            PieceKind::Space => {
                if st.start == i {
                    assert(words_placed(p, nx.items, nx.start)) by {
                        reveal(words_placed);
                        assert(nx.items == st.items);
                        assert forall|j: int| 0 <= j < nx.start && (#[trigger] p[j]).kind == PieceKind::Word implies exists|m: int|
                            0 <= m < nx.items.len() && (#[trigger] nx.items[m]).piece == j by {
                            assert(j < i);
                            assert(j < st.start);
                            let m = choose|m: int| 0 <= m < st.items.len() && (#[trigger] st.items[m]).piece == j;
                            assert(nx.items[m] == st.items[m]);
                        }
                    }
                    assert(items_ordered(nx.items, nx.start)) by {
                        reveal(items_ordered);
                    }
                    assert(pending_ok(p, x0, wrap, n, n)) by {
                        reveal(pending_ok);
                    }
                } else {
                    assert(pending_ok(p, x0, wrap, nx.start, n)) by {
                        reveal(pending_ok);
                        if wrap is Some {
                            assert forall|j: int|
                                nx.start < j < n && (#[trigger] p[j]).kind == PieceKind::Word implies x0 + sum_w(p, nx.start, j + 1) <= wrap->0 by {
                                assert(j < i);
                            }
                        }
                    }
                }
            },
            PieceKind::Word => {
                if wrap is Some && st.start < i && st.x + pc.w > wrap->0 {
                    lemma_flush_inv(p, x0, wrap, st, i);
                    assert(pending_ok(p, x0, wrap, i, n)) by {
                        reveal(pending_ok);
                    }
                } else {
                    assert(pending_ok(p, x0, wrap, nx.start, n)) by {
                        reveal(pending_ok);
                        if wrap is Some {
                            let w = wrap->0;
                            assert forall|j: int|
                                nx.start < j < n && (#[trigger] p[j]).kind == PieceKind::Word implies x0 + sum_w(p, nx.start, j + 1) <= w by {
                                if j == i {
                                    assert(sum_w(p, st.start, i + 1) == sum_w(p, st.start, i) + p[i].w);
                                }
                            }
                        }
                    }
                }
            },
        }
    }
}

/// Laws of the line breaker. Placed pieces keep their order; every content piece
/// is placed, and nothing but content and whitespace is; with a bounded width,
/// every placed piece that does not begin its line ends within the width; and no
/// line begins or ends with whitespace. (The fit law needs widths that are not
/// negative: a negative width could pull a later piece back inside.)
pub proof fn lemma_break_laws(p: Seq<Piece>, x0: int, wrap: Option<i32>)
    requires
        pieces_fit(p, x0),
        widths_nonneg(p),
        2 * p.len() < usize::MAX,
    ensures
        ({
            let r = break_spec(p, x0, wrap);
            &&& items_ordered(r.items, p.len() as int)
            &&& items_content(p, r.items)
            &&& words_placed(p, r.items, p.len() as int)
            &&& items_fit(p, r.items, wrap)
            &&& items_lined(r.items, r.lines.len() as int)
            &&& edges_content(p, r.items)
        }),
{
    lemma_run_inv(p, x0, wrap, p.len() as int);
    lemma_run_lines(p, p.len() as int, x0, wrap);
    lemma_flush_inv(p, x0, wrap, run_spec(p, p.len() as int, x0, wrap), p.len() as int);
}

} // verus!
