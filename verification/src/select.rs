//! Dropdown selector: shows the current option and, when activated, a popup list
//! in which choosing an entry sets the bound selection index.
//!
//! Options come either as plain strings or as rich items (subtitle, badge,
//! clickable trailing icon); the two sources are stored separately.

use vstd::prelude::*;
use std::rc::Rc;
use crate::geometry::{Rect, Size};
use crate::signal::{signal, Signal};
use crate::theme::{DropdownTheme, Intent, Palette};
use crate::geometry::Color;
use crate::event::{Event, Key, KeyEvent, PointerEvent, PointerKind};

verus! {

/// Horizontal padding on each side of the collapsed control.
pub const PAD_X: i32 = 12;
/// Width of the chevron area at the right.
pub const CHEVRON_W: i32 = 18;
/// Horizontal padding inside the collapsed badge pill.
pub const BADGE_PAD_X: i32 = 8;
/// Height of the collapsed badge pill.
pub const BADGE_H: i32 = 20;
/// Gap between the option text and the badge pill.
pub const BADGE_GAP: i32 = 8;

/// Something run when a trailing icon is clicked.
pub trait OnClick {
    fn on_click(&self);
}

/// A rich option: main label, optional second line, optional trailing badge
/// (display only) and optional trailing clickable icon.
#[derive(Clone)]
pub struct DropdownItem {
    pub label: String,
    pub subtitle: Option<String>,
    pub badge: Option<(String, Intent)>,
    pub trailing_icon: Option<(String, Rc<dyn OnClick>)>,
}

impl DropdownItem {
    pub fn new(label: String) -> (it: Self)
        ensures
            it.label == label,
            it.subtitle is None,
            it.badge is None,
            it.trailing_icon is None,
    {
        DropdownItem { label, subtitle: None, badge: None, trailing_icon: None }
    }

    /// Second line of smaller text (the expanded list shows two lines).
    pub fn subtitle(self, s: String) -> (it: Self)
        ensures
            it.label == self.label,
            it.subtitle == Some(s),
            it.badge == self.badge,
            it.trailing_icon == self.trailing_icon,
    {
        DropdownItem { subtitle: Some(s), ..self }
    }

    /// Trailing badge pill, shown in the list and on the collapsed control when
    /// this item is the current one.
    pub fn badge(self, text: String, intent: Intent) -> (it: Self)
        ensures
            it.label == self.label,
            it.subtitle == self.subtitle,
            it.badge == Some((text, intent)),
            it.trailing_icon == self.trailing_icon,
    {
        DropdownItem { badge: Some((text, intent)), ..self }
    }

    /// Trailing icon in the expanded list; clicking it runs `on_click` and does
    /// not select the item.
    pub fn trailing_icon(self, icon: String, on_click: Rc<dyn OnClick>) -> (it: Self)
        ensures
            it.label == self.label,
            it.subtitle == self.subtitle,
            it.badge == self.badge,
            it.trailing_icon == Some((icon, on_click)),
    {
        let pair = (icon, on_click);
        DropdownItem {
            label: self.label,
            subtitle: self.subtitle,
            badge: self.badge,
            trailing_icon: Some(pair),
        }
    }
}

impl From<String> for DropdownItem {
    fn from(s: String) -> (it: Self) {
        Self::new(s)
    }
}

impl vstd::std_specs::convert::FromSpecImpl<String> for DropdownItem {
    open spec fn obeys_from_spec() -> bool {
        true
    }

    open spec fn from_spec(s: String) -> DropdownItem {
        DropdownItem { label: s, subtitle: None, badge: None, trailing_icon: None }
    }
}

impl<'a> From<&'a str> for DropdownItem {
    fn from(s: &'a str) -> (it: Self)
        ensures
            it.label@ == s@,
            it.subtitle is None,
            it.badge is None,
            it.trailing_icon is None,
    {
        Self::new(s.to_owned())
    }
}

impl<'a> vstd::std_specs::convert::FromSpecImpl<&'a str> for DropdownItem {
    /// Strings are not built in specifications, so the result is described by the
    /// `ensures` of `from` instead.
    open spec fn obeys_from_spec() -> bool {
        false
    }

    open spec fn from_spec(s: &'a str) -> DropdownItem {
        choose|it: DropdownItem| it.label@ == s@
    }
}

/// An entry of the popup list built when the dropdown opens.
pub struct MenuItem {
    pub label: String,
    pub subtitle: Option<String>,
    pub badge: Option<(String, Intent)>,
    pub trailing_icon: Option<(String, Rc<dyn OnClick>)>,
    /// The entry is the current selection.
    pub checked: bool,
    /// Choosing the entry sets the selection to this index.
    pub select: usize,
}

/// Where the options come from.
pub enum OptionSource {
    Plain(Signal<Vec<String>>),
    Rich(Signal<Vec<DropdownItem>>),
}

/// What the host is asked to do after an event.
#[derive(Clone, Copy, Debug, PartialEq, Eq, Structural)]
pub enum DropdownAction {
    Nothing,
    /// Repaint (hover changed).
    Repaint,
    /// Move keyboard focus to the dropdown.
    Focus,
    /// Build the popup list with [`Dropdown::open`] and show it under the control.
    OpenMenu,
}

/// Where the collapsed control draws its parts.
#[derive(Clone, Copy, Debug, PartialEq, Eq, Structural)]
pub struct DropdownPaintLayout {
    /// The badge pill of the current item, if it has a badge.
    pub badge: Option<Rect>,
    /// The area of the current option's text.
    pub text: Rect,
}

/// Colours the collapsed control is painted with.
#[derive(Clone, Copy, Debug, PartialEq, Eq, Structural)]
pub struct DropdownColors {
    pub bg: Color,
    pub text: Color,
    pub chevron: Color,
    pub border: Color,
}

/// Measured text widths of one option: its label and, for a rich item with a
/// badge, the badge text.
#[derive(Clone, Copy, Debug, PartialEq, Eq, Structural)]
pub struct OptionWidth {
    pub label_w: i32,
    pub badge_w: Option<i32>,
}

/// The index shown as current: the selection clamped into the list, 0 for an
/// empty list.
pub open spec fn clamp_index(selected: int, len: int) -> int {
    if selected < len {
        selected
    } else if len > 0 {
        len - 1
    } else {
        0
    }
}

/// Label shown for a plain list and a selection: the clamped entry, or the empty
/// string for an empty list.
pub open spec fn plain_current(list: Seq<String>, selected: int) -> Seq<char> {
    if list.len() == 0 {
        Seq::empty()
    } else {
        list[clamp_index(selected, list.len() as int)]@
    }
}

/// Label shown for a rich list and a selection.
pub open spec fn rich_current(items: Seq<DropdownItem>, selected: int) -> Seq<char> {
    if items.len() == 0 {
        Seq::empty()
    } else {
        items[clamp_index(selected, items.len() as int)].label@
    }
}

/// Badge shown on the collapsed control: that of the clamped rich item.
pub open spec fn rich_current_badge(items: Seq<DropdownItem>, selected: int) -> Option<(String, Intent)> {
    if items.len() == 0 {
        None
    } else {
        items[clamp_index(selected, items.len() as int)].badge
    }
}

/// The text of a badge, if there is one.
pub open spec fn badge_text(b: Option<(String, Intent)>) -> Option<String> {
    match b {
        Some((t, _)) => Some(t),
        None => None,
    }
}

/// The icon text of a trailing icon, if there is one.
pub open spec fn icon_label(t: Option<(String, Rc<dyn OnClick>)>) -> Option<String> {
    match t {
        Some((icon, _)) => Some(icon),
        None => None,
    }
}

/// `m` is the popup list of a plain option list with current index `cur`: one
/// entry per option, with its label only, checked exactly at `cur`, each
/// selecting its own index.
pub open spec fn is_plain_menu(m: Seq<MenuItem>, list: Seq<String>, cur: int) -> bool {
    &&& m.len() == list.len()
    &&& forall|i: int|
        0 <= i < m.len() ==> {
            &&& (#[trigger] m[i]).label == list[i]
            &&& m[i].subtitle is None
            &&& m[i].badge is None
            &&& m[i].trailing_icon is None
            &&& m[i].checked == (i == cur)
            &&& m[i].select == i
        }
}

/// `m` is the popup list of a rich option list with current index `cur`: one
/// entry per item, carrying its label, subtitle, badge and icon, checked exactly
/// at `cur`, each selecting its own index.
pub open spec fn is_rich_menu(m: Seq<MenuItem>, items: Seq<DropdownItem>, cur: int) -> bool {
    &&& m.len() == items.len()
    &&& forall|i: int|
        0 <= i < m.len() ==> {
            &&& (#[trigger] m[i]).label == items[i].label
            &&& m[i].subtitle == items[i].subtitle
            &&& m[i].badge == items[i].badge
            &&& m[i].trailing_icon == items[i].trailing_icon
            &&& m[i].checked == (i == cur)
            &&& m[i].select == i
        }
}

/// `m` is what opening a plain list with current index `cur` gives: no popup
/// exactly for an empty list, else its popup list.
pub open spec fn is_plain_popup(m: Option<Vec<MenuItem>>, list: Seq<String>, cur: int) -> bool {
    &&& (m is None) == (list.len() == 0)
    &&& (m matches Some(v) ==> is_plain_menu(v@, list, cur))
}

/// `m` is what opening a rich list with current index `cur` gives: no popup
/// exactly for an empty list, else its popup list.
pub open spec fn is_rich_popup(m: Option<Vec<MenuItem>>, items: Seq<DropdownItem>, cur: int) -> bool {
    &&& (m is None) == (items.len() == 0)
    &&& (m matches Some(v) ==> is_rich_menu(v@, items, cur))
}

/// `t` is the texts to measure of a plain option list: each label, no badge.
pub open spec fn is_plain_texts(t: Seq<(String, Option<String>)>, list: Seq<String>) -> bool {
    &&& t.len() == list.len()
    &&& forall|i: int| 0 <= i < t.len() ==> (#[trigger] t[i]) == (list[i], None::<String>)
}

/// `t` is the texts to measure of a rich option list: each label and badge text.
pub open spec fn is_rich_texts(t: Seq<(String, Option<String>)>, items: Seq<DropdownItem>) -> bool {
    &&& t.len() == items.len()
    &&& forall|i: int|
        0 <= i < t.len() ==> (#[trigger] t[i]) == (items[i].label, badge_text(items[i].badge))
}

/// Width one option needs: its label plus, with a badge, the pill and the gap.
pub open spec fn option_box_w(o: OptionWidth) -> int {
    o.label_w + match o.badge_w {
        Some(b) => b + 2 * BADGE_PAD_X + BADGE_GAP,
        None => 0,
    }
}

/// Widest option, and never less than 0.
pub open spec fn max_option_w(ws: Seq<OptionWidth>) -> int
    decreases ws.len(),
{
    if ws.len() == 0 {
        0
    } else {
        let rest = max_option_w(ws.drop_last());
        let last = option_box_w(ws.last());
        if last > rest {
            last
        } else {
            rest
        }
    }
}

/// The state change and answer of the dropdown to one event: the new hover flag,
/// whether the event was consumed, and what the host is asked to do.
pub open spec fn dropdown_step(hover: bool, bounds: Rect, ev: Event) -> (bool, bool, DropdownAction) {
    match ev {
        Event::Pointer(p) => match p.kind {
            PointerKind::Enter => (true, true, DropdownAction::Repaint),
            PointerKind::Leave => (false, true, DropdownAction::Repaint),
            PointerKind::Down => (hover, true, DropdownAction::Focus),
            PointerKind::Up => if bounds.spec_contains(p.pos) {
                (false, true, DropdownAction::OpenMenu)
            } else {
                (hover, true, DropdownAction::Nothing)
            },
            _ => (hover, false, DropdownAction::Nothing),
        },
        Event::Key(k) => if k.pressed && (k.key == Key::Enter || k.key == Key::Space || k.key
            == Key::Down) {
            (hover, true, DropdownAction::OpenMenu)
        } else {
            (hover, false, DropdownAction::Nothing)
        },
        Event::Other => (hover, false, DropdownAction::Nothing),
    }
}

/// How the dropdown answers input. A pressed Enter, Space or Down opens the
/// popup; any other key, or a released one, is not consumed; keys never change
/// hover. Entering sets hover and leaving clears it, both asking for a repaint; a
/// press asks for focus; a release inside the control opens the popup and clears
/// hover, one outside is consumed and does nothing; other pointer events are not
/// consumed and change nothing.
pub proof fn lemma_dropdown_input(hover: bool, bounds: Rect, k: KeyEvent, p: PointerEvent)
    ensures
        (k.pressed && (k.key == Key::Enter || k.key == Key::Space || k.key == Key::Down))
            ==> dropdown_step(hover, bounds, Event::Key(k)) == (hover, true, DropdownAction::OpenMenu),
        !(k.pressed && (k.key == Key::Enter || k.key == Key::Space || k.key == Key::Down))
            ==> dropdown_step(hover, bounds, Event::Key(k)) == (hover, false, DropdownAction::Nothing),
        p.kind == PointerKind::Enter ==> dropdown_step(hover, bounds, Event::Pointer(p)) == (
            true,
            true,
            DropdownAction::Repaint,
        ),
        p.kind == PointerKind::Leave ==> dropdown_step(hover, bounds, Event::Pointer(p)) == (
            false,
            true,
            DropdownAction::Repaint,
        ),
        p.kind == PointerKind::Down ==> dropdown_step(hover, bounds, Event::Pointer(p)) == (
            hover,
            true,
            DropdownAction::Focus,
        ),
        (p.kind == PointerKind::Up && bounds.x <= p.pos.x < bounds.x + bounds.w && bounds.y <= p.pos.y
            < bounds.y + bounds.h) ==> dropdown_step(hover, bounds, Event::Pointer(p)) == (
            false,
            true,
            DropdownAction::OpenMenu,
        ),
        (p.kind == PointerKind::Up && !(bounds.x <= p.pos.x < bounds.x + bounds.w && bounds.y
            <= p.pos.y < bounds.y + bounds.h)) ==> dropdown_step(hover, bounds, Event::Pointer(p)) == (
            hover,
            true,
            DropdownAction::Nothing,
        ),
        (p.kind == PointerKind::Move || p.kind == PointerKind::Wheel) ==> dropdown_step(
            hover,
            bounds,
            Event::Pointer(p),
        ) == (hover, false, DropdownAction::Nothing),
        dropdown_step(hover, bounds, Event::Other) == (hover, false, DropdownAction::Nothing),
{
}

/// The widest option bounds every option, is no less than 0, and is the width of
/// one of them unless it is 0.
pub proof fn lemma_max_option_w(ws: Seq<OptionWidth>)
    ensures
        max_option_w(ws) >= 0,
        forall|i: int| 0 <= i < ws.len() ==> max_option_w(ws) >= option_box_w(#[trigger] ws[i]),
        max_option_w(ws) == 0 || exists|i: int|
            0 <= i < ws.len() && max_option_w(ws) == option_box_w(#[trigger] ws[i]),
    decreases ws.len(),
{
    if ws.len() > 0 {
        let d = ws.drop_last();
        lemma_max_option_w(d);
        assert forall|i: int| 0 <= i < ws.len() implies max_option_w(ws) >= option_box_w(#[trigger] ws[i]) by {
            if i < d.len() {
                assert(ws[i] == d[i]);
            }
        }
        if max_option_w(ws) != 0 {
            if max_option_w(ws) == option_box_w(ws.last()) {
                assert(ws[ws.len() - 1] == ws.last());
            } else {
                let j = choose|j: int| 0 <= j < d.len() && max_option_w(d) == option_box_w(#[trigger] d[j]);
                assert(ws[j] == d[j]);
            }
        }
    }
}

/// Width of the collapsed badge pill for a badge text of width `text_w`.
pub open spec fn badge_pill_w(text_w: Option<i32>) -> int {
    match text_w {
        Some(w) => w + 2 * BADGE_PAD_X,
        None => 0,
    }
}

/// Rust's `/` on integers: the quotient rounded toward zero.
pub open spec fn div_toward_zero(a: int, b: int) -> int
    recommends
        b > 0,
{
    if a >= 0 {
        a / b
    } else {
        -((-a) / b)
    }
}

/// Where the collapsed control draws the badge of the current item and its text.
pub open spec fn spec_paint_layout(bounds: Rect, badge_text_w: Option<i32>) -> (Option<(int, int, int, int)>, (int, int, int, int)) {
    let bw = badge_pill_w(badge_text_w);
    let badge = match badge_text_w {
        Some(_) => Some((
            bounds.x + bounds.w - PAD_X - CHEVRON_W - bw,
            bounds.y + div_toward_zero(bounds.h - BADGE_H, 2),
            bw,
            BADGE_H as int,
        )),
        None => None,
    };
    let reserve = if bw > 0 {
        bw + BADGE_GAP
    } else {
        0
    };
    (badge, (bounds.x + PAD_X, bounds.y as int, bounds.w - 2 * PAD_X - CHEVRON_W - reserve, bounds.h as int))
}

/// The rectangle as a tuple of integers.
pub open spec fn rect_tuple(r: Rect) -> (int, int, int, int) {
    (r.x as int, r.y as int, r.w as int, r.h as int)
}

/// Every coordinate of the paint layout fits in an `i32`.
pub open spec fn paint_layout_fits(bounds: Rect, badge_text_w: Option<i32>) -> bool {
    let bw = badge_pill_w(badge_text_w);
    &&& i32::MIN <= bw <= i32::MAX
    &&& i32::MIN <= bounds.x + bounds.w - PAD_X - CHEVRON_W - bw <= i32::MAX
    &&& i32::MIN <= bounds.x + bounds.w <= i32::MAX
    &&& i32::MIN <= bounds.x + bounds.w - PAD_X <= i32::MAX
    &&& i32::MIN <= bounds.x + bounds.w - PAD_X - CHEVRON_W <= i32::MAX
    &&& i32::MIN <= bounds.h - BADGE_H
    &&& i32::MIN <= bounds.y + div_toward_zero(bounds.h - BADGE_H, 2) <= i32::MAX
    &&& bounds.x + PAD_X <= i32::MAX
    &&& i32::MIN <= bw + BADGE_GAP <= i32::MAX
    &&& i32::MIN <= bounds.w - 2 * PAD_X
    &&& i32::MIN <= bounds.w - 2 * PAD_X - CHEVRON_W
    &&& i32::MIN <= bounds.w - 2 * PAD_X - CHEVRON_W - (if bw > 0 { bw + BADGE_GAP } else { 0 })
        <= i32::MAX
}

/// The index shown as current.
pub fn clamped_index(selected: usize, len: usize) -> (i: usize)
    ensures
        i == clamp_index(selected as int, len as int),
        len > 0 ==> i < len,
{
    let last = if len > 0 {
        len - 1
    } else {
        0
    };
    if selected < last {
        selected
    } else {
        last
    }
}

/// Current label of a plain option list.
pub fn plain_label(list: &Vec<String>, selected: usize) -> (r: String)
    ensures
        r@ == plain_current(list@, selected as int),
{
    if list.len() == 0 {
        return String::new();
    }
    let i = clamped_index(selected, list.len());
    list[i].clone()
}

/// Current label of a rich option list.
pub fn rich_label(items: &Vec<DropdownItem>, selected: usize) -> (r: String)
    ensures
        r@ == rich_current(items@, selected as int),
{
    if items.len() == 0 {
        return String::new();
    }
    let i = clamped_index(selected, items.len());
    items[i].label.clone()
}

/// Badge of the current rich option.
pub fn rich_badge(items: &Vec<DropdownItem>, selected: usize) -> (r: Option<(String, Intent)>)
    ensures
        r == rich_current_badge(items@, selected as int),
{
    if items.len() == 0 {
        return None;
    }
    let i = clamped_index(selected, items.len());
    match &items[i].badge {
        Some((t, k)) => Some((t.clone(), *k)),
        None => None,
    }
}

/// `Rc::clone`: a second handle to the same value, so the clone equals the
/// original.
#[verifier::external_body]
fn rc_clone<T: ?Sized>(r: &Rc<T>) -> (c: Rc<T>)
    ensures
        c == *r,
{
    Rc::clone(r)
}

/// The popup for a plain list: none for an empty list, else one entry per
/// option.
pub fn plain_open(list: &Vec<String>, cur: usize) -> (m: Option<Vec<MenuItem>>)
    ensures
        is_plain_popup(m, list@, cur as int),
{
    if list.len() == 0 {
        return None;
    }
    let v = plain_menu(list, cur);
    let r = Some(v);
    assert(is_plain_menu(r->0@, list@, cur as int));
    r
}

/// The popup for a rich list: none for an empty list, else one entry per item.
pub fn rich_open(items: &Vec<DropdownItem>, cur: usize) -> (m: Option<Vec<MenuItem>>)
    ensures
        is_rich_popup(m, items@, cur as int),
{
    if items.len() == 0 {
        return None;
    }
    let v = rich_menu(items, cur);
    let r = Some(v);
    assert(is_rich_menu(r->0@, items@, cur as int));
    r
}

/// Popup entries for a plain list: one per option, the current one checked.
pub fn plain_menu(list: &Vec<String>, cur: usize) -> (m: Vec<MenuItem>)
    ensures
        m.len() == list.len(),
        forall|i: int|
            0 <= i < m.len() ==> {
                &&& (#[trigger] m@[i]).label == list@[i]
                &&& m@[i].subtitle is None
                &&& m@[i].badge is None
                &&& m@[i].trailing_icon is None
                &&& m@[i].checked == (i == cur)
                &&& m@[i].select == i
            },
{
    let mut m: Vec<MenuItem> = Vec::new();
    let n = list.len();
    for i in 0..n
        invariant
            n == list.len(),
            m.len() == i,
            forall|j: int|
                0 <= j < i ==> {
                    &&& (#[trigger] m@[j]).label == list@[j]
                    &&& m@[j].subtitle is None
                    &&& m@[j].badge is None
                    &&& m@[j].trailing_icon is None
                    &&& m@[j].checked == (j == cur)
                    &&& m@[j].select == j
                },
    {
        m.push(
            MenuItem {
                label: list[i].clone(),
                subtitle: None,
                badge: None,
                trailing_icon: None,
                checked: i == cur,
                select: i,
            },
        );
    }
    m
}

/// Popup entries for a rich list: label, subtitle, badge and trailing icon of
/// each item, the current one checked.
pub fn rich_menu(items: &Vec<DropdownItem>, cur: usize) -> (m: Vec<MenuItem>)
    ensures
        m.len() == items.len(),
        forall|i: int|
            0 <= i < m.len() ==> {
                &&& (#[trigger] m@[i]).label == items@[i].label
                &&& m@[i].subtitle == items@[i].subtitle
                &&& m@[i].badge == items@[i].badge
                &&& m@[i].trailing_icon == items@[i].trailing_icon
                &&& m@[i].checked == (i == cur)
                &&& m@[i].select == i
            },
{
    let mut m: Vec<MenuItem> = Vec::new();
    let n = items.len();
    for i in 0..n
        invariant
            n == items.len(),
            m.len() == i,
            forall|j: int|
                0 <= j < i ==> {
                    &&& (#[trigger] m@[j]).label == items@[j].label
                    &&& m@[j].subtitle == items@[j].subtitle
                    &&& m@[j].badge == items@[j].badge
                    &&& m@[j].trailing_icon == items@[j].trailing_icon
                    &&& m@[j].checked == (j == cur)
                    &&& m@[j].select == j
                },
    {
        let it = &items[i];
        let subtitle = match &it.subtitle {
            Some(s) => Some(s.clone()),
            None => None,
        };
        let badge = match &it.badge {
            Some((t, k)) => Some((t.clone(), *k)),
            None => None,
        };
        let trailing_icon = match &it.trailing_icon {
            Some((icon, cb)) => Some((icon.clone(), rc_clone(cb))),
            None => None,
        };
        m.push(
            MenuItem {
                label: it.label.clone(),
                subtitle,
                badge,
                trailing_icon,
                checked: i == cur,
                select: i,
            },
        );
    }
    m
}

/// The texts a plain list asks to measure: each label, no badge.
pub fn plain_texts(list: &Vec<String>) -> (t: Vec<(String, Option<String>)>)
    ensures
        t.len() == list.len(),
        forall|i: int| 0 <= i < t.len() ==> (#[trigger] t@[i]) == (list@[i], None::<String>),
{
    let mut t: Vec<(String, Option<String>)> = Vec::new();
    let n = list.len();
    for i in 0..n
        invariant
            n == list.len(),
            t.len() == i,
            forall|j: int| 0 <= j < i ==> (#[trigger] t@[j]) == (list@[j], None::<String>),
    {
        t.push((list[i].clone(), None));
    }
    t
}

/// The texts a rich list asks to measure: each label and its badge text.
pub fn rich_texts(items: &Vec<DropdownItem>) -> (t: Vec<(String, Option<String>)>)
    ensures
        t.len() == items.len(),
        forall|i: int|
            0 <= i < t.len() ==> (#[trigger] t@[i]) == (items@[i].label, badge_text(items@[i].badge)),
{
    let mut t: Vec<(String, Option<String>)> = Vec::new();
    let n = items.len();
    for i in 0..n
        invariant
            n == items.len(),
            t.len() == i,
            forall|j: int|
                0 <= j < i ==> (#[trigger] t@[j]) == (items@[j].label, badge_text(items@[j].badge)),
    {
        let it = &items[i];
        let b = match &it.badge {
            Some((text, _)) => Some(text.clone()),
            None => None,
        };
        t.push((it.label.clone(), b));
    }
    t
}

/// Natural size of the collapsed control: the widest option plus padding and
/// chevron; the height is the font size plus 16.
pub fn measure_options(widths: &Vec<OptionWidth>, font_px: i32) -> (s: Size)
    requires
        forall|i: int|
            0 <= i < widths.len() ==> {
                &&& ((#[trigger] widths@[i]).badge_w matches Some(b) ==> b + 2 * BADGE_PAD_X
                    + BADGE_GAP <= i32::MAX)
                &&& i32::MIN <= option_box_w(widths@[i])
                &&& option_box_w(widths@[i]) + 2 * PAD_X + CHEVRON_W <= i32::MAX
            },
        font_px + 16 <= i32::MAX,
    ensures
        s.w == max_option_w(widths@) + 2 * PAD_X + CHEVRON_W,
        s.h == font_px + 16,
        s.w >= 2 * PAD_X + CHEVRON_W,
        forall|i: int|
            0 <= i < widths.len() ==> s.w >= option_box_w(#[trigger] widths@[i]) + 2 * PAD_X + CHEVRON_W,
        s.w == 2 * PAD_X + CHEVRON_W || exists|i: int|
            0 <= i < widths.len() && s.w == option_box_w(#[trigger] widths@[i]) + 2 * PAD_X + CHEVRON_W,
{
    proof {
        lemma_max_option_w(widths@);
    }
    let mut w: i32 = 0;
    let n = widths.len();
    for i in 0..n
        invariant
            n == widths.len(),
            forall|j: int|
                0 <= j < widths.len() ==> {
                    &&& ((#[trigger] widths@[j]).badge_w matches Some(b) ==> b + 2 * BADGE_PAD_X
                        + BADGE_GAP <= i32::MAX)
                    &&& i32::MIN <= option_box_w(widths@[j])
                    &&& option_box_w(widths@[j]) + 2 * PAD_X + CHEVRON_W <= i32::MAX
                },
            w == max_option_w(widths@.take(i as int)),
            0 <= w,
            w + 2 * PAD_X + CHEVRON_W <= i32::MAX,
    {
        let o = widths[i];
        let mut iw = o.label_w;
        match o.badge_w {
            Some(b) => {
                iw = iw + (b + 2 * BADGE_PAD_X + BADGE_GAP);
            },
            None => {},
        }
        assert(widths@.take(i + 1).drop_last() =~= widths@.take(i as int));
        if iw > w {
            w = iw;
        }
    }
    assert(widths@.take(n as int) =~= widths@);
    Size::new(w + 2 * PAD_X + CHEVRON_W, font_px + 16)
}

/// Where the collapsed control draws the current item's badge (when it has one,
/// `badge_text_w` is the measured width of its text) and the current text.
pub fn paint_layout(bounds: Rect, badge_text_w: Option<i32>) -> (l: DropdownPaintLayout)
    requires
        paint_layout_fits(bounds, badge_text_w),
    ensures
        (match l.badge {
            Some(r) => Some(rect_tuple(r)),
            None => None,
        }) == spec_paint_layout(bounds, badge_text_w).0,
        rect_tuple(l.text) == spec_paint_layout(bounds, badge_text_w).1,
{
    let bw: i32 = match badge_text_w {
        Some(t) => t + 2 * BADGE_PAD_X,
        None => 0,
    };
    let badge = match badge_text_w {
        Some(_) => Some(
            Rect::new(
                bounds.x + bounds.w - PAD_X - CHEVRON_W - bw,
                bounds.y + (bounds.h - BADGE_H) / 2,
                bw,
                BADGE_H,
            ),
        ),
        None => None,
    };
    let reserve: i32 = if bw > 0 {
        bw + BADGE_GAP
    } else {
        0
    };
    let text = Rect::new(
        bounds.x + PAD_X,
        bounds.y,
        bounds.w - 2 * PAD_X - CHEVRON_W - reserve,
        bounds.h,
    );
    DropdownPaintLayout { badge, text }
}

/// The dropdown control: an option source, the bound selection and hover state.
pub struct Dropdown {
    options: OptionSource,
    selected: Signal<usize>,
    hover: bool,
}

impl Dropdown {
    /// The option source.
    pub closed spec fn source(&self) -> &OptionSource {
        &self.options
    }

    /// The bound selection.
    pub closed spec fn selection(&self) -> Signal<usize> {
        self.selected
    }

    /// Whether the pointer is over the control.
    pub closed spec fn hovered(&self) -> bool {
        self.hover
    }

    /// Plain options held in a fresh signal.
    pub fn new(options: Vec<String>, selected: Signal<usize>) -> (d: Self)
        ensures
            d.source() is Plain,
            d.selection() == selected,
            !d.hovered(),
    {
        Self::with_plain_signal(signal(options), selected)
    }

    /// Reactive options: the list is read from `options` at every use, so a write
    /// to it shows at the next measure or paint.
    pub fn new_reactive(options: Signal<Vec<String>>, selected: Signal<usize>) -> (d: Self)
        ensures
            d.source() == OptionSource::Plain(options),
            d.selection() == selected,
            !d.hovered(),
    {
        Self::with_plain_signal(options, selected)
    }

    /// Rich options held in a fresh signal.
    pub fn with_items(items: Vec<DropdownItem>, selected: Signal<usize>) -> (d: Self)
        ensures
            d.source() is Rich,
            d.selection() == selected,
            !d.hovered(),
    {
        Self::with_rich_signal(signal(items), selected)
    }

    /// Reactive rich options read from `items` at every use.
    pub fn with_items_reactive(items: Signal<Vec<DropdownItem>>, selected: Signal<usize>) -> (d: Self)
        ensures
            d.source() == OptionSource::Rich(items),
            d.selection() == selected,
            !d.hovered(),
    {
        Self::with_rich_signal(items, selected)
    }

    fn with_plain_signal(options: Signal<Vec<String>>, selected: Signal<usize>) -> (d: Self)
        ensures
            d.source() == OptionSource::Plain(options),
            d.selection() == selected,
            !d.hovered(),
    {
        Dropdown { options: OptionSource::Plain(options), selected, hover: false }
    }

    fn with_rich_signal(options: Signal<Vec<DropdownItem>>, selected: Signal<usize>) -> (d: Self)
        ensures
            d.source() == OptionSource::Rich(options),
            d.selection() == selected,
            !d.hovered(),
    {
        Dropdown { options: OptionSource::Rich(options), selected, hover: false }
    }

    /// The bound selection signal.
    pub fn selected_signal(&self) -> (s: Signal<usize>)
        ensures
            s == self.selection(),
    {
        self.selected
    }

    /// Label of the current option, read from the signals now: the selection is
    /// clamped into the list and an empty list gives the empty string (see
    /// [`plain_label`] and [`rich_label`]).
    pub fn current(&self) -> (r: String)
        ensures
            self.source() is Plain ==> exists|list: Seq<String>, sel: usize|
                r@ == #[trigger] plain_current(list, sel as int),
            self.source() is Rich ==> exists|items: Seq<DropdownItem>, sel: usize|
                r@ == #[trigger] rich_current(items, sel as int),
    {
        let sel = self.selected.get();
        match &self.options {
            OptionSource::Plain(opts) => {
                let list = opts.get();
                let r = plain_label(&list, sel);
                assert(r@ == plain_current(list@, sel as int));
                r
            },
            OptionSource::Rich(items) => {
                let list = items.get();
                let r = rich_label(&list, sel);
                assert(r@ == rich_current(list@, sel as int));
                r
            },
        }
    }

    /// Badge of the current option: that of the clamped rich item, and always
    /// `None` for plain options.
    pub fn current_badge(&self) -> (r: Option<(String, Intent)>)
        ensures
            self.source() is Plain ==> r is None,
            self.source() is Rich ==> exists|items: Seq<DropdownItem>, sel: usize|
                r == #[trigger] rich_current_badge(items, sel as int),
    {
        match &self.options {
            OptionSource::Plain(_) => None,
            OptionSource::Rich(items) => {
                let sel = self.selected.get();
                let list = items.get();
                let r = rich_badge(&list, sel);
                assert(r == rich_current_badge(list@, sel as int));
                r
            },
        }
    }

    /// The texts to measure for the natural size, one pair (label, badge text) per
    /// current option; the widths measured from them go to [`measure_options`].
    pub fn option_texts(&self) -> (t: Vec<(String, Option<String>)>)
        ensures
            self.source() is Plain ==> forall|i: int| 0 <= i < t.len() ==> (#[trigger] t@[i]).1 is None,
            self.source() is Plain ==> exists|list: Seq<String>| #[trigger] is_plain_texts(t@, list),
            self.source() is Rich ==> exists|items: Seq<DropdownItem>| #[trigger] is_rich_texts(t@, items),
    {
        match &self.options {
            OptionSource::Plain(opts) => {
                let list = opts.get();
                let t = plain_texts(&list);
                assert(is_plain_texts(t@, list@));
                t
            },
            OptionSource::Rich(items) => {
                let list = items.get();
                let t = rich_texts(&list);
                assert(is_rich_texts(t@, list@));
                t
            },
        }
    }

    /// The popup entries for the current options, or `None` when there are none
    /// (an empty list opens nothing).
    pub fn open(&self) -> (m: Option<Vec<MenuItem>>)
        ensures
            m matches Some(v) ==> v.len() > 0,
            self.source() is Plain ==> exists|list: Seq<String>, cur: usize|
                #[trigger] is_plain_popup(m, list, cur as int),
            self.source() is Rich ==> exists|items: Seq<DropdownItem>, cur: usize|
                #[trigger] is_rich_popup(m, items, cur as int),
    {
        let cur = self.selected.get();
        match &self.options {
            OptionSource::Plain(opts) => {
                let list = opts.get();
                let m = plain_open(&list, cur);
                assert(is_plain_popup(m, list@, cur as int));
                m
            },
            OptionSource::Rich(items_sig) => {
                let list = items_sig.get();
                let m = rich_open(&list, cur);
                assert(is_rich_popup(m, list@, cur as int));
                m
            },
        }
    }

    /// The border is highlighted when the control is focused or hovered.
    pub fn border_highlight(&self, focused: bool) -> (b: bool)
        ensures
            b == (focused || self.hovered()),
    {
        focused || self.hover
    }

    /// Reacts to one event; `bounds` is the control's rectangle.
    pub fn on_event(&mut self, bounds: Rect, ev: &Event) -> (r: (bool, DropdownAction))
        ensures
            ({
                let (h, handled, action) = dropdown_step(old(self).hovered(), bounds, *ev);
                &&& final(self).hovered() == h
                &&& r == (handled, action)
            }),
            final(self).source() == old(self).source(),
            final(self).selection() == old(self).selection(),
    {
        match ev {
            Event::Pointer(p) => match p.kind {
                PointerKind::Enter => {
                    self.hover = true;
                    (true, DropdownAction::Repaint)
                },
                PointerKind::Leave => {
                    self.hover = false;
                    (true, DropdownAction::Repaint)
                },
                PointerKind::Down => (true, DropdownAction::Focus),
                PointerKind::Up => {
                    if bounds.contains(p.pos) {
                        // Once the popup is open the host owns the pointer and no
                        // Leave arrives, so hover is cleared here.
                        self.hover = false;
                        (true, DropdownAction::OpenMenu)
                    } else {
                        (true, DropdownAction::Nothing)
                    }
                },
                _ => (false, DropdownAction::Nothing),
            },
            Event::Key(k) => {
                if k.pressed && (k.key == Key::Enter || k.key == Key::Space || k.key == Key::Down) {
                    (true, DropdownAction::OpenMenu)
                } else {
                    (false, DropdownAction::Nothing)
                }
            },
            Event::Other => (false, DropdownAction::Nothing),
        }
    }

    /// Colours of the collapsed control: when disabled, a weaker background and
    /// text and chevron in the disabled colour; the border is highlighted when
    /// focused or hovered.
    pub fn colors(&self, focused: bool, enabled: bool, th: &DropdownTheme, pal: &Palette) -> (c: DropdownColors)
        ensures
            c.bg == (if enabled { th.bg } else { pal.surface_alt }),
            c.text == (if enabled { th.text } else { pal.text_disabled }),
            c.chevron == (if enabled { th.chevron } else { pal.text_disabled }),
            c.border == (if focused || self.hovered() { th.border_focus } else { th.border }),
    {
        DropdownColors {
            bg: if enabled {
                th.bg
            } else {
                pal.surface_alt
            },
            text: if enabled {
                th.text
            } else {
                pal.text_disabled
            },
            chevron: if enabled {
                th.chevron
            } else {
                pal.text_disabled
            },
            border: if self.border_highlight(focused) {
                th.border_focus
            } else {
                th.border
            },
        }
    }

    /// The dropdown takes keyboard focus.
    pub fn focusable(&self) -> (b: bool)
        ensures
            b,
    {
        true
    }
}

} // verus!
