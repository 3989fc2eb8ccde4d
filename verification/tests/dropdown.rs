use std::rc::Rc;
use windui::event::{Event, Key, KeyEvent, PointerEvent, PointerKind};
use windui::select::{
    clamped_index, measure_options, paint_layout, plain_label, plain_menu, plain_open, rich_badge,
    rich_label, rich_menu, rich_open, DropdownAction, OptionWidth, BADGE_GAP, BADGE_H, BADGE_PAD_X, CHEVRON_W, PAD_X,
};
use windui::{signal, Color, Dropdown, DropdownItem, DropdownTheme, Intent, OnClick, Palette, Point, Rect};

struct Noop;
impl OnClick for Noop {
    fn on_click(&self) {}
}

fn strings(v: &[&str]) -> Vec<String> {
    v.iter().map(|s| s.to_string()).collect()
}

fn rich_items() -> Vec<DropdownItem> {
    vec![
        DropdownItem::new("免费版".to_string()).badge("当前".to_string(), Intent::Neutral),
        DropdownItem::new("专业版".to_string())
            .subtitle("解锁全部导出格式".to_string())
            .badge("推荐".to_string(), Intent::Primary),
        DropdownItem::new("团队版".to_string()).trailing_icon("🗑".to_string(), Rc::new(Noop)),
    ]
}

#[test]
fn clamped_index_keeps_in_range_and_clamps_past_end() {
    assert_eq!(clamped_index(1, 3), 1);
    assert_eq!(clamped_index(7, 3), 2);
    assert_eq!(clamped_index(0, 0), 0);
    assert_eq!(clamped_index(5, 0), 0);
}

#[test]
fn plain_label_clamps_and_empty_is_blank() {
    let l = strings(&["a", "b", "c"]);
    assert_eq!(plain_label(&l, 0), "a");
    assert_eq!(plain_label(&l, 9), "c");
    assert_eq!(plain_label(&vec![], 3), "");
}

#[test]
fn rich_label_and_badge_follow_the_clamped_item() {
    let items = rich_items();
    assert_eq!(rich_label(&items, 1), "专业版");
    assert_eq!(rich_badge(&items, 1), Some(("推荐".to_string(), Intent::Primary)));
    assert_eq!(rich_label(&items, 10), "团队版");
    assert_eq!(rich_badge(&items, 10), None);
    assert_eq!(rich_label(&vec![], 0), "");
    assert_eq!(rich_badge(&vec![], 0), None);
}

#[test]
fn current_badge_of_plain_options_is_none() {
    let dd = Dropdown::new(strings(&["x", "y"]), signal(1usize));
    assert_eq!(dd.current_badge(), None);
    assert_eq!(dd.current(), "y");
}

#[test]
fn rich_dropdown_shows_badge_of_current_item() {
    let sel = signal(0usize);
    let dd = Dropdown::with_items(rich_items(), sel);
    assert_eq!(dd.current(), "免费版");
    assert_eq!(dd.current_badge(), Some(("当前".to_string(), Intent::Neutral)));
    sel.set(2);
    assert_eq!(dd.current_badge(), None);
}

#[test]
fn menu_checks_the_current_entry_and_selects_by_index() {
    let m = plain_menu(&strings(&["低", "中", "高"]), 1);
    assert_eq!(m.len(), 3);
    assert_eq!(m.iter().map(|e| e.checked).collect::<Vec<_>>(), vec![false, true, false]);
    assert_eq!(m.iter().map(|e| e.select).collect::<Vec<_>>(), vec![0, 1, 2]);
    assert_eq!(m[2].label, "高");
    let r = rich_menu(&rich_items(), 2);
    assert_eq!(r[1].subtitle.as_deref(), Some("解锁全部导出格式"));
    assert_eq!(r[0].badge, Some(("当前".to_string(), Intent::Neutral)));
    assert_eq!(r[2].trailing_icon.as_ref().map(|t| t.0.clone()), Some("🗑".to_string()));
    assert!(r[2].checked && !r[0].checked);
}

#[test]
fn open_builds_nothing_for_an_empty_list() {
    let opts = signal(Vec::<String>::new());
    let sel = signal(0usize);
    let dd = Dropdown::new_reactive(opts, sel);
    assert!(dd.open().is_none());
    opts.set(strings(&["a", "b"]));
    let m = dd.open().expect("menu");
    assert_eq!(m.len(), 2);
    assert!(m[0].checked);
    dd.selected_signal().set(m[1].select);
    assert_eq!(dd.current(), "b");
}

#[test]
fn measure_takes_widest_option_with_badge_pill() {
    let ws = vec![
        OptionWidth { label_w: 60, badge_w: None },
        OptionWidth { label_w: 50, badge_w: Some(20) },
    ];
    let s = measure_options(&ws, 14);
    assert_eq!(s.w, 50 + 20 + 2 * BADGE_PAD_X + BADGE_GAP + 2 * PAD_X + CHEVRON_W);
    assert_eq!(s.w, 136);
    assert_eq!(s.h, 30);
}

#[test]
fn option_texts_list_labels_and_badges() {
    let dd = Dropdown::with_items(rich_items(), signal(0usize));
    let t = dd.option_texts();
    assert_eq!(t[0], ("免费版".to_string(), Some("当前".to_string())));
    assert_eq!(t[2], ("团队版".to_string(), None));
}

#[test]
fn paint_layout_places_badge_left_of_chevron() {
    let b = Rect::new(10, 20, 200, 32);
    let l = paint_layout(b, Some(24));
    let bw = 24 + 2 * BADGE_PAD_X;
    assert_eq!(l.badge, Some(Rect::new(10 + 200 - PAD_X - CHEVRON_W - bw, 20 + (32 - BADGE_H) / 2, bw, BADGE_H)));
    assert_eq!(l.badge, Some(Rect::new(140, 26, 40, 20)));
    assert_eq!(l.text, Rect::new(22, 20, 200 - 24 - 18 - (40 + BADGE_GAP), 32));
    let plain = paint_layout(b, None);
    assert_eq!(plain.badge, None);
    assert_eq!(plain.text, Rect::new(22, 20, 158, 32));
    // Rounds toward zero when the control is shorter than the badge.
    let short = paint_layout(Rect::new(0, 0, 100, 15), Some(0));
    assert_eq!(short.badge.unwrap().y, -2);
}

#[test]
fn pointer_and_keys_drive_the_dropdown() {
    let mut dd = Dropdown::new(strings(&["a"]), signal(0usize));
    let b = Rect::new(0, 0, 100, 30);
    let ptr = |kind, x, y| Event::Pointer(PointerEvent { kind, pos: Point::new(x, y) });
    assert_eq!(dd.on_event(b, &ptr(PointerKind::Enter, 5, 5)), (true, DropdownAction::Repaint));
    assert!(dd.border_highlight(false));
    assert_eq!(dd.on_event(b, &ptr(PointerKind::Down, 5, 5)), (true, DropdownAction::Focus));
    assert_eq!(dd.on_event(b, &ptr(PointerKind::Up, 5, 5)), (true, DropdownAction::OpenMenu));
    assert!(!dd.border_highlight(false), "opening clears hover");
    assert_eq!(dd.on_event(b, &ptr(PointerKind::Up, 500, 5)), (true, DropdownAction::Nothing));
    assert_eq!(dd.on_event(b, &ptr(PointerKind::Move, 5, 5)), (false, DropdownAction::Nothing));
    let key = |key, pressed| Event::Key(KeyEvent { key, pressed });
    assert_eq!(dd.on_event(b, &key(Key::Space, true)), (true, DropdownAction::OpenMenu));
    assert_eq!(dd.on_event(b, &key(Key::Down, true)), (true, DropdownAction::OpenMenu));
    assert_eq!(dd.on_event(b, &key(Key::Enter, false)), (false, DropdownAction::Nothing));
    assert_eq!(dd.on_event(b, &key(Key::Escape, true)), (false, DropdownAction::Nothing));
    assert_eq!(dd.on_event(b, &ptr(PointerKind::Enter, 5, 5)).0, true);
    assert_eq!(dd.on_event(b, &ptr(PointerKind::Leave, 500, 5)), (true, DropdownAction::Repaint));
    assert!(dd.border_highlight(true) && !dd.border_highlight(false));
    assert!(dd.focusable());
}

#[test]
fn rect_contains_is_half_open() {
    let r = Rect::new(0, 20, 10, 14);
    assert!(r.contains(Point::new(0, 20)));
    assert!(r.contains(Point::new(9, 33)));
    assert!(!r.contains(Point::new(10, 25)));
    assert!(!r.contains(Point::new(5, 34)));
}

#[test]
fn colors_follow_enabled_focus_and_hover() {
    let c = |v| Color::rgba(v, v, v, 255);
    let pal = Palette { text: c(1), text_muted: c(2), text_disabled: c(3), accent: c(4), danger: c(5), surface_alt: c(6), divider: c(7) };
    let th = DropdownTheme { bg: c(10), text: c(11), chevron: c(12), border: c(13), border_focus: c(14) };
    let mut dd = Dropdown::new(strings(&["a"]), signal(0usize));
    let k = dd.colors(false, true, &th, &pal);
    assert_eq!((k.bg, k.text, k.chevron, k.border), (c(10), c(11), c(12), c(13)));
    let k = dd.colors(true, false, &th, &pal);
    assert_eq!((k.bg, k.text, k.chevron, k.border), (c(6), c(3), c(3), c(14)));
    let enter = Event::Pointer(PointerEvent { kind: PointerKind::Enter, pos: Point::new(1, 1) });
    dd.on_event(Rect::new(0, 0, 10, 10), &enter);
    assert_eq!(dd.colors(false, true, &th, &pal).border, c(14));
}

#[test]
fn item_from_string_has_only_a_label() {
    let it = DropdownItem::from("x".to_string());
    assert_eq!(it.label, "x");
    assert!(it.subtitle.is_none() && it.badge.is_none() && it.trailing_icon.is_none());
}

#[test]
fn plain_open_is_none_exactly_for_an_empty_list() {
    assert!(plain_open(&Vec::new(), 0).is_none());
    let m = plain_open(&strings(&["a", "b", "c"]), 1).expect("menu");
    assert_eq!(m.len(), 3);
    assert_eq!(m.iter().map(|e| e.select).collect::<Vec<_>>(), vec![0, 1, 2]);
    assert_eq!(m.iter().filter(|e| e.checked).count(), 1);
    assert!(m[1].checked);
    assert!(rich_open(&Vec::new(), 0).is_none());
}

#[test]
fn rich_open_keeps_each_items_callback() {
    let items = rich_items();
    let m = rich_open(&items, 0).expect("menu");
    let own = &items[2].trailing_icon.as_ref().expect("icon").1;
    let got = &m[2].trailing_icon.as_ref().expect("icon").1;
    assert!(Rc::ptr_eq(own, got), "the entry calls its own item's callback");
    assert!(m[0].trailing_icon.is_none() && m[1].trailing_icon.is_none());
}

#[test]
fn item_from_str_has_only_a_label() {
    let it = DropdownItem::from("专业版");
    assert_eq!(it.label, "专业版");
    assert!(it.subtitle.is_none() && it.badge.is_none() && it.trailing_icon.is_none());
    let a = DropdownItem::from(String::from("x"));
    let b = DropdownItem::from("x");
    assert_eq!(a.label, b.label);
}

#[test]
fn custom_intent_badge_follows_the_current_item() {
    let c = Color::rgba(0x12, 0x34, 0x56, 0xff);
    let items = vec![
        DropdownItem::new("a".to_string()),
        DropdownItem::new("b".to_string()).badge("自定义".to_string(), Intent::Custom(c)),
    ];
    assert_eq!(rich_badge(&items, 1), Some(("自定义".to_string(), Intent::Custom(c))));
    assert_eq!(rich_badge(&items, 0), None);
}
