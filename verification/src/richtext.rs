//! Interaction of the rich-text widget: hit-testing section headers, hover and
//! press tracking, and the section states that the layout depends on.

use vstd::prelude::*;
use crate::geometry::{Point, Rect};
use crate::signal::Signal;
use crate::event::{CursorShape, Key, KeyEvent, PointerKind};
use crate::rich::RichBlock;
use crate::layout::flow::{covered_blocks, covered_block, flow_pos, flow_block_pos, lemma_flow_frame};

verus! {

/// The point `pos` (absolute) relative to the content's top-left corner.
pub open spec fn to_local(content: Rect, pos: Point) -> Point {
    Point { x: (pos.x - content.x) as i32, y: (pos.y - content.y) as i32 }
}

/// The first header (in layout order) whose area contains the absolute position
/// `pos`, when the content was last painted at `content`; header areas are
/// relative to the content's top-left corner.
pub fn header_at(headers: &Vec<(Rect, Signal<bool>)>, content: Rect, pos: Point) -> (r: Option<usize>)
    requires
        i32::MIN <= pos.x - content.x <= i32::MAX,
        i32::MIN <= pos.y - content.y <= i32::MAX,
    ensures
        r matches Some(i) ==> {
            &&& i < headers.len()
            &&& headers@[i as int].0.spec_contains(to_local(content, pos))
            &&& forall|j: int| 0 <= j < i ==> !(#[trigger] headers@[j]).0.spec_contains(to_local(content, pos))
        },
        r is None ==> forall|j: int|
            0 <= j < headers.len() ==> !(#[trigger] headers@[j]).0.spec_contains(to_local(content, pos)),
{
    let local = Point::new(pos.x - content.x, pos.y - content.y);
    let n = headers.len();
    for i in 0..n
        invariant
            n == headers.len(),
            local == to_local(content, pos),
            forall|j: int| 0 <= j < i ==> !(#[trigger] headers@[j]).0.spec_contains(local),
    {
        if headers[i].0.contains(local) {
            return Some(i);
        }
    }
    None
}

/// What the host is asked to do after a pointer event on the rich text.
#[derive(Clone, Copy, Debug, PartialEq, Eq, Structural)]
pub enum RichAction {
    Nothing,
    /// Route further pointer events here (a header was pressed).
    Capture,
    /// Stop routing pointer events here.
    Release,
    /// Stop routing pointer events here, and flip the collapse state of the
    /// header with this index (released over the header that was pressed).
    ReleaseAndToggle(usize),
}

/// Hover and press tracking of the section headers.
#[derive(Clone, Copy, Debug, PartialEq, Eq, Structural)]
pub struct HeaderTracker {
    /// Header under the pointer.
    pub hover: Option<usize>,
    /// Header pressed and not yet released.
    pub pressed: Option<usize>,
}

/// The tracker's change and answer for one pointer event; `hit` is the header
/// under the pointer: the new tracker, whether the event was consumed, and the
/// request to the host.
pub open spec fn track_step(t: HeaderTracker, kind: PointerKind, hit: Option<usize>) -> (HeaderTracker, bool, RichAction) {
    match kind {
        PointerKind::Move | PointerKind::Enter => (HeaderTracker { hover: hit, ..t }, false, RichAction::Nothing),
        PointerKind::Leave => (HeaderTracker { hover: None, ..t }, false, RichAction::Nothing),
        PointerKind::Down => match hit {
            Some(i) => (HeaderTracker { pressed: Some(i), ..t }, true, RichAction::Capture),
            None => (t, false, RichAction::Nothing),
        },
        PointerKind::Up => match t.pressed {
            Some(i) => (
                HeaderTracker { pressed: None, ..t },
                true,
                if hit == Some(i) {
                    RichAction::ReleaseAndToggle(i)
                } else {
                    RichAction::Release
                },
            ),
            None => (t, false, RichAction::Nothing),
        },
        PointerKind::Wheel => (t, false, RichAction::Nothing),
    }
}

impl HeaderTracker {
    pub fn new() -> (t: Self)
        ensures
            t.hover is None,
            t.pressed is None,
    {
        HeaderTracker { hover: None, pressed: None }
    }

    /// Reacts to a pointer event of the given kind with `hit` the header under
    /// the pointer. A press on a header captures the pointer; releasing it over
    /// the same header flips that section.
    pub fn on_pointer(&mut self, kind: PointerKind, hit: Option<usize>) -> (r: (bool, RichAction))
        ensures
            ({
                let (t, handled, action) = track_step(*old(self), kind, hit);
                *final(self) == t && r == (handled, action)
            }),
    {
        match kind {
            PointerKind::Move | PointerKind::Enter => {
                self.hover = hit;
                (false, RichAction::Nothing)
            },
            PointerKind::Leave => {
                self.hover = None;
                (false, RichAction::Nothing)
            },
            PointerKind::Down => match hit {
                Some(i) => {
                    self.pressed = Some(i);
                    (true, RichAction::Capture)
                },
                None => (false, RichAction::Nothing),
            },
            PointerKind::Up => match self.pressed {
                Some(i) => {
                    self.pressed = None;
                    if hit == Some(i) {
                        (true, RichAction::ReleaseAndToggle(i))
                    } else {
                        (true, RichAction::Release)
                    }
                },
                None => (false, RichAction::Nothing),
            },
            PointerKind::Wheel => (false, RichAction::Nothing),
        }
    }

    /// A hand over a header, an arrow elsewhere.
    pub fn cursor(&self) -> (c: CursorShape)
        ensures
            c == (if self.hover is Some {
                CursorShape::Hand
            } else {
                CursorShape::Arrow
            }),
    {
        if self.hover.is_some() {
            CursorShape::Hand
        } else {
            CursorShape::Arrow
        }
    }
}

/// Pressing a header and releasing the pointer over the same header flips that
/// section (and releases the pointer); releasing elsewhere only releases it.
pub proof fn lemma_click_toggles(t: HeaderTracker, i: usize, up_hit: Option<usize>)
    ensures
        ({
            let (t1, h1, a1) = track_step(t, PointerKind::Down, Some(i));
            let (t2, h2, a2) = track_step(t1, PointerKind::Up, up_hit);
            &&& h1 && a1 == RichAction::Capture
            &&& h2
            &&& t2.pressed is None
            &&& a2 == (if up_hit == Some(i) {
                RichAction::ReleaseAndToggle(i)
            } else {
                RichAction::Release
            })
        }),
{
}

/// A release with no header pressed is not consumed and changes nothing.
pub proof fn lemma_release_without_press(t: HeaderTracker, hit: Option<usize>)
    requires
        t.pressed is None,
    ensures
        track_step(t, PointerKind::Up, hit) == (t, false, RichAction::Nothing),
{
}

/// A press outside every header, and any pointer event other than a press or a
/// release, is not consumed and asks nothing of the host; moving, entering and
/// leaving only change the hovered header, and never what is pressed.
pub proof fn lemma_pointer_not_consumed(t: HeaderTracker, kind: PointerKind, hit: Option<usize>)
    requires
        kind != PointerKind::Up,
        kind == PointerKind::Down ==> hit is None,
    ensures
        ({
            let (t1, h, a) = track_step(t, kind, hit);
            &&& !h
            &&& a == RichAction::Nothing
            &&& t1.pressed == t.pressed
        }),
{
}

/// Keyboard focus among the section headers (an index in layout order).
#[derive(Clone, Copy, Debug, PartialEq, Eq, Structural)]
pub struct HeaderFocus {
    pub current: Option<usize>,
}

/// The focus as it stands among `n` headers: one past the last counts as none.
pub open spec fn focus_in(f: Option<usize>, n: usize) -> Option<usize> {
    match f {
        Some(i) => if i < n {
            Some(i)
        } else {
            None
        },
        None => None,
    }
}

/// The answer to a key among `n` headers: the new focus, whether the key was
/// consumed, and the header whose section to flip. `Down` and `Up` move the focus
/// to the next or previous header (from none, to the first or the last) and stop
/// at the ends; `Enter` and `Space` flip the focused header's section. Released
/// keys, other keys, and a document without headers are not consumed.
pub open spec fn focus_step(f: Option<usize>, ev: KeyEvent, n: usize) -> (Option<usize>, bool, Option<usize>) {
    let cur = focus_in(f, n);
    if !ev.pressed || n == 0 {
        (cur, false, None)
    } else {
        match ev.key {
            Key::Down => (
                Some(
                    match cur {
                        Some(i) => if i + 1 < n {
                            (i + 1) as usize
                        } else {
                            i
                        },
                        None => 0usize,
                    },
                ),
                true,
                None,
            ),
            Key::Up => (
                Some(
                    match cur {
                        Some(i) => if i > 0 {
                            (i - 1) as usize
                        } else {
                            0usize
                        },
                        None => (n - 1) as usize,
                    },
                ),
                true,
                None,
            ),
            Key::Enter | Key::Space => match cur {
                Some(i) => (cur, true, Some(i)),
                None => (cur, false, None),
            },
            _ => (cur, false, None),
        }
    }
}

impl HeaderFocus {
    pub fn new() -> (f: Self)
        ensures
            f.current is None,
    {
        HeaderFocus { current: None }
    }

    /// Reacts to a key with `n` headers laid out; answers whether the key was
    /// consumed and which header's section to flip.
    pub fn on_key(&mut self, ev: KeyEvent, n: usize) -> (r: (bool, Option<usize>))
        ensures
            ({
                let (f, handled, flip) = focus_step(old(self).current, ev, n);
                &&& final(self).current == f
                &&& r == (handled, flip)
            }),
    {
        let cur = match self.current {
            Some(i) => if i < n {
                Some(i)
            } else {
                None
            },
            None => None,
        };
        self.current = cur;
        if !ev.pressed || n == 0 {
            return (false, None);
        }
        match ev.key {
            Key::Down => {
                self.current = Some(
                    match cur {
                        Some(i) => if i + 1 < n {
                            i + 1
                        } else {
                            i
                        },
                        None => 0,
                    },
                );
                (true, None)
            },
            Key::Up => {
                self.current = Some(
                    match cur {
                        Some(i) => if i > 0 {
                            i - 1
                        } else {
                            0
                        },
                        None => n - 1,
                    },
                );
                (true, None)
            },
            Key::Enter | Key::Space => match cur {
                Some(i) => (true, Some(i)),
                None => (false, None),
            },
            _ => (false, None),
        }
    }
}

/// The focus always names a header that exists, and `Enter` or `Space` flips
/// exactly the focused header's section and moves nothing.
pub proof fn lemma_focus_step(f: Option<usize>, ev: KeyEvent, n: usize)
    ensures
        ({
            let (g, handled, flip) = focus_step(f, ev, n);
            &&& g matches Some(i) ==> i < n
            &&& flip matches Some(i) ==> i < n && g == Some(i) && handled
            &&& (ev.pressed && (ev.key == Key::Enter || ev.key == Key::Space)) ==> flip == focus_in(f, n)
            &&& (ev.key == Key::Enter || ev.key == Key::Space) ==> g == focus_in(f, n)
        }),
{
}

/// Flips a section's collapse state.
pub fn toggle(state: Signal<bool>) {
    let v = state.get();
    state.set(!v);
}

/// Reads the collapse state of each section met in document order, not entering
/// collapsed sections: the order in which the layout flow consumes them. The
/// flags appended are exactly those the flow of `blocks` uses: every section it
/// meets finds its flag, and no flag is left over.
pub fn collapsed_states(blocks: &Vec<RichBlock>, out: &mut Vec<bool>)
    ensures
        old(out).len() <= final(out).len(),
        forall|k: int| 0 <= k < old(out).len() ==> #[trigger] final(out)@[k] == old(out)@[k],
        covered_blocks(blocks@, final(out)@, old(out).len() as int),
        flow_pos(blocks@, final(out)@, old(out).len() as int) == final(out).len(),
    decreases blocks,
{
    let ghost start = out@;
    let n = blocks.len();
    for i in 0..n
        invariant
            n == blocks.len(),
            start.len() <= out.len(),
            forall|k: int| 0 <= k < start.len() ==> #[trigger] out@[k] == start[k],
            covered_blocks(blocks@.take(i as int), out@, start.len() as int),
            flow_pos(blocks@.take(i as int), out@, start.len() as int) == out.len(),
    {
        let ghost before = out@;
        let ghost pre = blocks@.take(i as int);
        proof {
            assert(blocks@.take(i + 1).drop_last() =~= pre);
            assert(blocks@.take(i + 1).last() == blocks@[i as int]);
        }
        match &blocks[i] {
            RichBlock::Section(sec) => {
                let c = sec.collapsed.get();
                out.push(c);
                proof {
                    lemma_flow_frame(pre, before, out@, start.len() as int);
                }
                if !c {
                    proof {
                        assert(decreases_to!(blocks => blocks@));
                        assert(decreases_to!(blocks@ => blocks@[i as int]));
                    }
                    let ghost mid = out@;
                    collapsed_states(&sec.children, out);
                    proof {
                        assert forall|k: int| 0 <= k < before.len() implies #[trigger] out@[k] == before[k] by {
                            assert(mid[k] == before[k]);
                        }
                        lemma_flow_frame(pre, before, out@, start.len() as int);
                        assert(out@[before.len() as int] == c);
                    }
                }
                proof {
                    assert(covered_block(blocks@[i as int], out@, before.len() as int));
                    assert(flow_block_pos(blocks@[i as int], out@, before.len() as int) == out.len());
                }
            },
            _ => {},
        }
        proof {
            assert forall|k: int| 0 <= k < start.len() implies #[trigger] out@[k] == start[k] by {
                assert(before[k] == start[k]);
            }
            assert(covered_blocks(pre, out@, start.len() as int));
            assert(flow_pos(pre, out@, start.len() as int) == before.len());
            assert(covered_block(blocks@[i as int], out@, before.len() as int));
            assert(flow_block_pos(blocks@[i as int], out@, before.len() as int) == out.len());
            let t = blocks@.take(i + 1);
            assert(t.drop_last() == pre);
            assert(covered_blocks(t, out@, start.len() as int));
        }
    }
    proof {
        assert(blocks@.take(n as int) =~= blocks@);
    }
}

} // verus!
