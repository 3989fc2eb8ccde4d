use windui::layout::{
    break_lines, doc_flow, para_pieces, resolve_span, stack_blocks, BaseStyle, FlowItem, LineKind, ParaBox, Piece,
};
use windui::rich::{Para, RichDoc, RichSpan, SpanStyle};
use windui::richtext::{header_at, toggle, collapsed_states, HeaderTracker, RichAction};
use windui::event::PointerKind;
use windui::{signal, Point, Rect};

/// Width the null text engine gives: characters × size × 0.6, rounded up.
fn null_w(chars: usize, size: f32) -> i32 {
    (chars as f32 * size * 0.6).ceil() as i32
}

/// The default 14px base style.
fn base14() -> BaseStyle {
    BaseStyle { font_size: 14.0f32.to_bits(), font_weight: 400, font_family: None, line_height: None }
}

/// Measured pieces of a paragraph in the default 14px style (the library cuts it,
/// after a disclosure arrow for a header); widths as the null text engine gives.
fn pieces_of(doc: &RichDoc, p: &Para, arrow: Option<bool>) -> Vec<Piece> {
    para_pieces(doc, p, &base14(), arrow)
        .iter()
        .map(|pl| Piece { kind: pl.kind, w: null_w(pl.text.len(), 14.0), visual: false })
        .collect()
}

/// Height (14px per line and per gap) and widest line of a paragraph.
fn para_box(doc: &RichDoc, p: &Para, x0: i32, wrap: Option<i32>, arrow: Option<bool>) -> ParaBox {
    let r = break_lines(&pieces_of(doc, p, arrow), x0, wrap);
    let mut width = 0;
    for l in &r.lines {
        if let LineKind::Text { end_x } = l {
            width = width.max(*end_x);
        }
    }
    ParaBox { height: 14 * r.lines.len() as i32, width }
}

fn doc_height(doc: &RichDoc, wrap: Option<i32>) -> (i32, Vec<(Rect, windui::Signal<bool>)>) {
    let mut flags = Vec::new();
    collapsed_states(doc.block_list(), &mut flags);
    let flow = doc_flow(doc, &flags, 16);
    let ms: Vec<ParaBox> = flow
        .iter()
        .map(|it| match it {
            FlowItem::Para { para, indent } => para_box(doc, para, indent + para.indent, wrap, None),
            FlowItem::Divider { .. } => ParaBox { height: 0, width: 0 },
            FlowItem::Header { para, indent, collapsed, .. } => {
                para_box(doc, para, indent + para.indent, wrap, Some(*collapsed))
            }
        })
        .collect();
    let l = stack_blocks(&flow, &ms, 6, wrap);
    (l.size.h, l.headers)
}

#[test]
fn cjk_wraps_at_width() {
    // 20 CJK characters of 9px: at 95px a line holds 10 (90 <= 95, the 11th ends at 99) -> 2 lines.
    let doc = RichDoc::new().para(Para::new().text("汉".repeat(20)));
    let (h, _) = doc_height(&doc, Some(95));
    assert_eq!(h, 28, "20 characters at 95px wrap into 2 lines of 14px");
}

#[test]
fn newline_forces_break() {
    let doc = RichDoc::new().para(Para::new().text("a\nb".to_string()));
    let (h, _) = doc_height(&doc, Some(200));
    assert_eq!(h, 28, "a line feed forces 2 lines");
}

#[test]
fn section_collapse_shrinks_and_click_toggles() {
    let collapsed = signal(false);
    let doc = RichDoc::new()
        .para(Para::new().text("正文".to_string()))
        .section(Para::new().text("例句".to_string()), collapsed, |d| {
            d.para(Para::new().text("第一句".to_string()))
        });
    // Expanded: body 14 + spacing 6 + header 14 + spacing 6 + child 14 = 54; collapsed: 34.
    let (h, headers) = doc_height(&doc, Some(200));
    assert_eq!(h, 54, "expanded height");

    // Click the header (y in [20, 34)).
    let content = Rect::new(0, 0, 200, 54);
    let at = Point::new(10, 25);
    let mut t = HeaderTracker::new();
    let hit = header_at(&headers, content, at);
    assert_eq!(hit, Some(0));
    let (_, a) = t.on_pointer(PointerKind::Down, hit);
    assert_eq!(a, RichAction::Capture);
    let (_, a) = t.on_pointer(PointerKind::Up, header_at(&headers, content, at));
    if let RichAction::ReleaseAndToggle(i) = a {
        toggle(headers[i].1);
    }
    assert!(collapsed.get(), "clicking the header flips the collapse signal");

    let (h, _) = doc_height(&doc, Some(200));
    assert_eq!(h, 34, "collapsed height is body plus header");
}

#[test]
fn collapsed_section_children_produce_no_frags() {
    let collapsed = signal(true);
    let doc = RichDoc::new().section(Para::new().text("头".to_string()), collapsed, |d| {
        d.para(Para::new().text("隐藏内容".to_string()))
    });
    let mut flags = Vec::new();
    collapsed_states(doc.block_list(), &mut flags);
    let flow = doc_flow(&doc, &flags, 16);
    assert_eq!(flow.len(), 1, "a collapsed section lays out its header only");
    let FlowItem::Header { para, .. } = &flow[0] else { panic!("header expected") };
    // Only the arrow and the header text make pieces; the children make none.
    let r = break_lines(&pieces_of(&doc, para, Some(true)), 0, Some(300));
    assert_eq!(r.items.iter().filter(|it| it.emit).count(), 2, "collapsed children produce nothing");
}

#[test]
fn named_style_resolves_and_inline_overrides() {
    let doc = RichDoc::new()
        .style("big".to_string(), SpanStyle::new().size(20.0f32.to_bits()).bold())
        .para(Para::new().styled_span("big".to_string(), "x".to_string(), SpanStyle::new().size(30.0f32.to_bits())));
    let base = base14();
    let span: &RichSpan = match &doc.block_list()[0] {
        windui::rich::RichBlock::Para(p) => &p.spans[0],
        _ => panic!("paragraph expected"),
    };
    let f = resolve_span(&doc, span, &base);
    assert_eq!(f32::from_bits(f.size), 30.0, "the inline size overrides the named one");
    assert_eq!(f.weight, 700, "fields not overridden come from the named style");
}

#[test]
fn spaces_do_not_trigger_wrap_and_drop_at_line_start() {
    // "aa bb" at 40px: aa (17) + space (9) = 26; bb would end at 43 > 40 -> new line, no leading space.
    let p = Para::new().text("aa bb".to_string());
    let r = break_lines(&pieces_of(&RichDoc::new(), &p, None), 0, Some(40));
    assert_eq!(r.lines.len() * 14, 28, "two lines");
    let drawn: Vec<_> = r.items.iter().filter(|it| it.emit).collect();
    assert_eq!(drawn.len(), 2, "whitespace makes no fragment");
    assert_eq!(drawn[1].x, 0, "the second line starts without indentation from the space");
}
