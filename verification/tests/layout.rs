use windui::layout::{break_lines, stack_blocks, doc_flow, FlowItem, LineKind, ParaBox, Piece, PieceKind};
use windui::rich::{Para, RichDoc};
use windui::richtext::{collapsed_states, header_at, HeaderTracker, RichAction};
use windui::event::{CursorShape, PointerKind};
use windui::{signal, Point, Rect};

fn w(w: i32) -> Piece {
    Piece { kind: PieceKind::Word, w, visual: false }
}
fn sp(w: i32) -> Piece {
    Piece { kind: PieceKind::Space, w, visual: false }
}
fn nl() -> Piece {
    Piece { kind: PieceKind::Newline, w: 0, visual: false }
}

#[test]
fn words_fit_or_start_a_line() {
    let p = vec![w(30), sp(5), w(30), sp(5), w(30)];
    let r = break_lines(&p, 0, Some(70));
    let xs: Vec<(usize, i32, usize)> = r.items.iter().map(|i| (i.piece, i.x, i.line)).collect();
    assert_eq!(xs, vec![(0, 0, 0), (1, 30, 0), (2, 35, 0), (4, 0, 1)]);
    assert_eq!(r.lines, vec![LineKind::Text { end_x: 65 }, LineKind::Text { end_x: 30 }]);
}

#[test]
fn an_overlong_word_still_takes_a_line() {
    let r = break_lines(&vec![w(100), w(10)], 5, Some(50));
    assert_eq!(r.lines, vec![LineKind::Text { end_x: 105 }, LineKind::Text { end_x: 15 }]);
}

#[test]
fn leading_spaces_drop_trailing_spaces_trim_and_empty_line_feeds_make_gaps() {
    let p = vec![sp(9), w(10), sp(9), nl(), nl(), w(7)];
    let r = break_lines(&p, 0, None);
    assert_eq!(r.lines, vec![LineKind::Text { end_x: 10 }, LineKind::Gap { piece: 4 }, LineKind::Text { end_x: 7 }]);
    assert_eq!(r.items.len(), 2);
}

#[test]
fn visual_spaces_are_drawn_plain_ones_are_not() {
    let p = vec![w(10), Piece { kind: PieceKind::Space, w: 5, visual: true }, sp(5), w(10)];
    let r = break_lines(&p, 0, None);
    assert_eq!(r.items.iter().map(|i| i.emit).collect::<Vec<_>>(), vec![true, true, false, true]);
    assert_eq!(r.items[3].x, 20);
}

#[test]
fn dividers_have_spacing_on_both_sides_and_headers_span_the_width() {
    let st = signal(false);
    let doc = RichDoc::new()
        .para(Para::new().text("a".to_string()))
        .divider()
        .section(Para::new().text("h".to_string()), st, |d| d.para(Para::new().text("c".to_string())));
    let mut flags = Vec::new();
    collapsed_states(doc.block_list(), &mut flags);
    assert_eq!(flags, vec![false]);
    let flow = doc_flow(&doc, &flags, 16);
    assert_eq!(flow.len(), 4);
    assert!(matches!(flow[3], FlowItem::Para { indent: 16, .. }));
    let ms = vec![ParaBox { height: 14, width: 9 }; 4];
    let l = stack_blocks(&flow, &ms, 6, Some(200));
    // a: 0..14, divider at 20 then 1 + 6 (27), header after the spacing at 33..47,
    // child at 53..67.
    assert_eq!(l.tops, vec![0, 20, 33, 53]);
    assert_eq!(l.dividers, vec![(0, 20)]);
    assert_eq!(l.headers[0].0, Rect::new(0, 33, 200, 14));
    assert_eq!(l.size.h, 67);
    assert_eq!(l.size.w, 9);
    // Unbounded width: the header reaches to the natural width.
    let l = stack_blocks(&flow, &ms, 6, None);
    assert_eq!(l.headers[0].0, Rect::new(0, 33, 9, 14));
}

#[test]
fn header_hit_testing_and_tracking() {
    let st = signal(true);
    let headers = vec![(Rect::new(0, 0, 50, 14), st), (Rect::new(0, 20, 50, 14), st)];
    let content = Rect::new(100, 100, 50, 40);
    assert_eq!(header_at(&headers, content, Point::new(110, 125)), Some(1));
    assert_eq!(header_at(&headers, content, Point::new(110, 116)), None);
    let mut t = HeaderTracker::new();
    assert_eq!(t.on_pointer(PointerKind::Move, Some(1)), (false, RichAction::Nothing));
    assert_eq!(t.cursor(), CursorShape::Hand);
    assert_eq!(t.on_pointer(PointerKind::Down, Some(1)), (true, RichAction::Capture));
    assert_eq!(t.on_pointer(PointerKind::Up, Some(0)), (true, RichAction::Release));
    assert_eq!(t.on_pointer(PointerKind::Up, Some(0)), (false, RichAction::Nothing));
    assert_eq!(t.on_pointer(PointerKind::Down, None), (false, RichAction::Nothing));
    assert_eq!(t.on_pointer(PointerKind::Leave, None), (false, RichAction::Nothing));
    assert_eq!(t.cursor(), CursorShape::Arrow);
}
