use windui::event::{Key, KeyEvent};
use windui::layout::{
    doc_flow, needs_relayout, para_pieces, stack_blocks, BaseStyle, FlowItem, LayoutKey, ParaBox, PieceKind,
};
use windui::rich::{Para, RichDoc, SpanStyle};
use windui::richtext::{collapsed_states, HeaderFocus};
use windui::text::{tokenize, TokKind};
use windui::signal;

fn base() -> BaseStyle {
    BaseStyle { font_size: 14.0f32.to_bits(), font_weight: 400, font_family: None, line_height: None }
}

fn text_of(v: &[char]) -> String {
    v.iter().collect()
}

#[test]
fn header_pieces_start_with_the_arrow() {
    let doc = RichDoc::new();
    let p = Para::new().text("标题 one".to_string());
    let collapsed = para_pieces(&doc, &p, &base(), Some(true));
    assert_eq!(text_of(&collapsed[0].text), "▸ ");
    assert!(collapsed[0].chevron && collapsed[0].kind == PieceKind::Word);
    assert!(collapsed[0].style.fg.is_none());
    let expanded = para_pieces(&doc, &p, &base(), Some(false));
    assert_eq!(text_of(&expanded[0].text), "▾ ");
    let plain = para_pieces(&doc, &p, &base(), None);
    assert_eq!(plain.len() + 1, collapsed.len(), "only a header gets an arrow");
    assert!(plain.iter().all(|pl| !pl.chevron));
    let texts: Vec<String> = plain.iter().map(|pl| text_of(&pl.text)).collect();
    assert_eq!(texts, vec!["标", "题", " ", "one"]);
}

#[test]
fn chip_is_one_piece_even_with_spaces() {
    let doc = RichDoc::new();
    let p = Para::new()
        .text("see ".to_string())
        .span("new tag here".to_string(), SpanStyle::new().chip());
    let pl = para_pieces(&doc, &p, &base(), None);
    assert_eq!(pl.len(), 3, "two pieces before the chip, the chip whole");
    assert_eq!(text_of(&pl[2].text), "new tag here");
    assert!(pl[2].style.chip && pl[2].kind == PieceKind::Word);
}

#[test]
fn line_feed_pieces_match_line_feeds() {
    let s: Vec<char> = "a\n\nb c\n汉".chars().collect();
    let toks = tokenize(&s);
    let nl = toks.iter().filter(|t| t.kind == TokKind::Newline).count();
    assert_eq!(nl, 3);
}

#[test]
fn cut_of_joined_text_is_the_cuts_of_its_parts() {
    let a: Vec<char> = "ab c".chars().collect();
    let b: Vec<char> = "d 汉".chars().collect();
    let joined: Vec<char> = "ab c\nd 汉".chars().collect();
    let ta = tokenize(&a);
    let tb = tokenize(&b);
    let t = tokenize(&joined);
    assert_eq!(t.len(), ta.len() + 1 + tb.len());
    assert_eq!(&t[..ta.len()], &ta[..]);
    assert_eq!(t[ta.len()].kind, TokKind::Newline);
    assert_eq!((t[ta.len()].start, t[ta.len()].end), (4, 5));
    for (k, u) in tb.iter().enumerate() {
        let v = t[ta.len() + 1 + k];
        assert_eq!((v.kind, v.start, v.end), (u.kind, u.start + 5, u.end + 5));
    }
}

#[test]
fn relayout_only_when_key_changes() {
    let k1 = LayoutKey::new(Some(200), &base(), vec![false, true], (6, 16));
    let k2 = LayoutKey::new(Some(200), &base(), vec![false, true], (6, 16));
    let k3 = LayoutKey::new(Some(200), &base(), vec![false, false], (6, 16));
    assert!(needs_relayout(None, &k1));
    assert!(!needs_relayout(Some(&k1), &k2));
    assert!(needs_relayout(Some(&k1), &k3));
}

#[test]
fn keyboard_focus_moves_and_flips() {
    let press = |key| KeyEvent { key, pressed: true };
    let mut f = HeaderFocus::new();
    assert_eq!(f.on_key(press(Key::Enter), 3), (false, None), "nothing focused yet");
    assert_eq!(f.on_key(press(Key::Down), 3), (true, None));
    assert_eq!(f.current, Some(0));
    f.on_key(press(Key::Down), 3);
    f.on_key(press(Key::Down), 3);
    f.on_key(press(Key::Down), 3);
    assert_eq!(f.current, Some(2), "stops at the last header");
    assert_eq!(f.on_key(press(Key::Space), 3), (true, Some(2)));
    f.on_key(press(Key::Up), 3);
    assert_eq!(f.current, Some(1));
    assert_eq!(f.on_key(KeyEvent { key: Key::Enter, pressed: false }, 3), (false, None));
    assert_eq!(f.on_key(press(Key::Down), 0), (false, None), "no headers, no focus");
    assert_eq!(f.current, None);
}

#[test]
fn collapsed_children_do_not_change_flow() {
    let with = RichDoc::new().section(Para::new().text("头".to_string()), signal(true), |d| {
        d.para(Para::new().text("一".to_string())).section(Para::new().text("二".to_string()), signal(false), |e| e)
    });
    let without = RichDoc::new().section(Para::new().text("头".to_string()), signal(true), |d| d);
    let mut fa = Vec::new();
    collapsed_states(with.block_list(), &mut fa);
    let mut fb = Vec::new();
    collapsed_states(without.block_list(), &mut fb);
    assert_eq!(fa, fb, "the hidden nested section's flag is not read");
    let a = doc_flow(&with, &fa, 16);
    let b = doc_flow(&without, &fb, 16);
    assert_eq!(a.len(), 1);
    assert_eq!(b.len(), 1);
    assert!(matches!(a[0], FlowItem::Header { collapsed: true, .. }));
}

#[test]
fn tops_are_running_sums_of_advances() {
    let p = Para::new();
    let flow = vec![
        FlowItem::Para { para: &p, indent: 0 },
        FlowItem::Divider { indent: 0 },
        FlowItem::Para { para: &p, indent: 0 },
    ];
    let ms = vec![ParaBox { height: 14, width: 30 }, ParaBox { height: 0, width: 0 }, ParaBox { height: 20, width: 50 }];
    let l = stack_blocks(&flow, &ms, 6, Some(100));
    // 0; then 14 + 6; then 14 + (6 + 1 + 6) + 6.
    assert_eq!(l.tops, vec![0, 20, 33]);
    assert_eq!(l.size.h, 53);
    assert_eq!(l.size.w, 50);
}

#[test]
fn para_from_str_and_string_is_one_plain_span() {
    let a = Para::from("x y");
    let b = Para::from(String::from("x y"));
    assert_eq!(a.spans.len(), 1);
    assert_eq!(a.spans[0].text, "x y");
    assert_eq!(b.spans[0].text, a.spans[0].text);
    assert!(a.spans[0].named.is_none() && a.indent == 0);
}

#[test]
fn joining_the_pieces_gives_back_the_text() {
    let s: Vec<char> = "Hi  汉字\nok\n".chars().collect();
    let mut joined = String::new();
    for t in tokenize(&s) {
        if t.kind == TokKind::Newline {
            joined.push('\n');
        } else {
            joined.extend(&s[t.start..t.end]);
        }
    }
    assert_eq!(joined, "Hi  汉字\nok\n");
}

#[test]
fn nested_collapsed_children_do_not_change_flow() {
    let inner = |kids: bool| {
        move |d: RichDoc| {
            d.section(Para::new().text("内".to_string()), signal(true), move |e| {
                if kids { e.para(Para::new().text("藏".to_string())) } else { e }
            })
        }
    };
    let with = RichDoc::new().section(Para::new().text("外".to_string()), signal(false), inner(true));
    let without = RichDoc::new().section(Para::new().text("外".to_string()), signal(false), inner(false));
    let mut fa = Vec::new();
    collapsed_states(with.block_list(), &mut fa);
    let mut fb = Vec::new();
    collapsed_states(without.block_list(), &mut fb);
    assert_eq!(fa, vec![false, true]);
    assert_eq!(fa, fb);
    let a = doc_flow(&with, &fa, 16);
    let b = doc_flow(&without, &fb, 16);
    assert_eq!(a.len(), 2, "outer header and inner header only");
    assert_eq!(b.len(), 2);
    assert!(matches!(a[1], FlowItem::Header { collapsed: true, indent: 16, .. }));
}
