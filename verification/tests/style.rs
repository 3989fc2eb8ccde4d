use windui::layout::{divider_color, frag_colors, resolve_span, BaseStyle, FragStyle};
use windui::rich::{copy_style, Para, RichBlock, RichDoc, SpanStyle};
use windui::{signal, Color, Palette, RichColor, RichTheme};

fn base() -> BaseStyle {
    BaseStyle { font_size: 14.0f32.to_bits(), font_weight: 400, font_family: Some("Sans".to_string()), line_height: None }
}

#[test]
fn over_takes_set_fields_and_ors_flags() {
    let a = SpanStyle::new().size(20.0f32.to_bits()).underline();
    let b = SpanStyle::new().size(10.0f32.to_bits()).weight(600).family("Mono".to_string()).strike();
    let m = a.over(&b);
    assert_eq!(m.size, Some(20.0f32.to_bits()));
    assert_eq!(m.weight, Some(600));
    assert_eq!(m.family.as_deref(), Some("Mono"));
    assert!(m.underline && m.strike && !m.chip);
    // Identity and associativity on concrete values.
    assert_eq!(SpanStyle::new().over(&b), b);
    assert_eq!(b.over(&SpanStyle::new()), b);
    let c = SpanStyle::new().chip().fg(RichColor::Accent);
    assert_eq!(a.over(&b.over(&c)), a.over(&b).over(&c));
    assert_eq!(copy_style(&m), m);
}

#[test]
fn unregistered_name_resolves_to_base() {
    let doc = RichDoc::new().para(Para::new().styled("nope".to_string(), "x".to_string()));
    let RichBlock::Para(p) = &doc.block_list()[0] else { panic!() };
    let f = resolve_span(&doc, &p.spans[0], &base());
    assert_eq!(f.size, 14.0f32.to_bits());
    assert_eq!(f.weight, 400);
    assert_eq!(f.family.as_deref(), Some("Sans"));
    assert!(f.fg.is_none() && !f.chip);
}

#[test]
fn later_registration_replaces_and_children_styles_win() {
    let doc = RichDoc::new()
        .style("pos".to_string(), SpanStyle::new().weight(600))
        .style("pos".to_string(), SpanStyle::new().weight(700))
        .style("k".to_string(), SpanStyle::new().bold());
    assert_eq!(doc.named_style(&"pos".to_string()).unwrap().weight, Some(700));
    let doc = doc.section(Para::new().text("h".to_string()), signal(false), |d| {
        d.style("k".to_string(), SpanStyle::new().weight(300)).para(Para::new().text("c".to_string()))
    });
    assert_eq!(doc.named_style(&"k".to_string()).unwrap().weight, Some(300));
    assert_eq!(doc.named_style(&"pos".to_string()).unwrap().weight, Some(700));
    assert!(doc.named_style(&"none".to_string()).is_none());
    assert_eq!(doc.block_list().len(), 1);
    let copy = doc.clone();
    assert_eq!(copy.named_style(&"k".to_string()).unwrap().weight, Some(300));
    match &copy.block_list()[0] {
        RichBlock::Section(s) => assert_eq!(s.children.len(), 1),
        _ => panic!("section expected"),
    }
}

#[test]
fn builders_set_their_fields() {
    let s = SpanStyle::new().fg(RichColor::Muted).bg(RichColor::Fixed(Color::rgba(1, 2, 3, 4))).chip().strike();
    assert_eq!(s.fg, Some(RichColor::Muted));
    assert_eq!(s.bg, Some(RichColor::Fixed(Color::rgba(1, 2, 3, 4))));
    assert!(s.chip && s.strike && !s.underline);
    let p = Para::new().text("a".to_string()).span("b".to_string(), s.clone()).indent(12);
    assert_eq!(p.spans.len(), 2);
    assert_eq!(p.indent, 12);
    assert_eq!(p.spans[1].style, s);
    let d = RichDoc::new().para(p).divider();
    assert!(matches!(d.block_list()[1], RichBlock::Divider));
}

#[test]
fn rich_color_resolves_roles_and_keeps_fixed() {
    let c = |v| Color::rgba(v, v, v, 255);
    let pal = Palette {
        text: c(1),
        text_muted: c(2),
        text_disabled: c(3),
        accent: c(4),
        danger: c(5),
        surface_alt: c(6),
        divider: c(7),
    };
    assert_eq!(RichColor::Text.resolve(&pal), c(1));
    assert_eq!(RichColor::Muted.resolve(&pal), c(2));
    assert_eq!(RichColor::Accent.resolve(&pal), c(4));
    assert_eq!(RichColor::Danger.resolve(&pal), c(5));
    assert_eq!(RichColor::Fixed(c(9)).resolve(&pal), c(9));
    assert_eq!(RichColor::from(c(9)), RichColor::Fixed(c(9)));
}

#[test]
fn fragment_colors_pick_own_then_chip_then_text() {
    let c = |v| Color::rgba(v, v, v, 255);
    let pal = Palette { text: c(1), text_muted: c(2), text_disabled: c(3), accent: c(4), danger: c(5), surface_alt: c(6), divider: c(7) };
    let th = RichTheme { chip_bg: c(20), chip_fg: c(21), chevron: c(22), divider: c(23), para_spacing: 6, section_indent: 16 };
    let plain = FragStyle { size: 0, weight: 400, family: None, line_height: None, fg: None, bg: None, underline: false, strike: false, chip: false };
    let k = frag_colors(&plain, false, true, &pal, &th, c(9));
    assert_eq!((k.bg, k.fg), (None, c(9)));
    let chip = FragStyle { chip: true, ..plain.clone() };
    let k = frag_colors(&chip, false, true, &pal, &th, c(9));
    assert_eq!((k.bg, k.fg), (Some(c(20)), c(21)));
    let own = FragStyle { fg: Some(RichColor::Danger), bg: Some(RichColor::Muted), chip: true, ..plain.clone() };
    let k = frag_colors(&own, false, true, &pal, &th, c(9));
    assert_eq!((k.bg, k.fg), (Some(c(2)), c(5)));
    assert_eq!(frag_colors(&own, true, true, &pal, &th, c(9)).fg, c(22));
    assert_eq!(frag_colors(&own, true, false, &pal, &th, c(9)).fg, c(3));
    assert_eq!(divider_color(true, &pal, &th), c(23));
    assert_eq!(divider_color(false, &pal, &th), c(7));
}

#[test]
fn styles_compare_sizes_as_floats() {
    let z = SpanStyle::new().size(0.0f32.to_bits());
    let nz = SpanStyle::new().size((-0.0f32).to_bits());
    assert!(z == nz, "the two zeros are equal sizes");
    let nan = SpanStyle::new().size(f32::NAN.to_bits());
    assert!(nan != nan.clone(), "a NaN size equals nothing");
    assert!(SpanStyle::new().size(1.0f32.to_bits()) != SpanStyle::new().size(2.0f32.to_bits()));
    assert!(SpanStyle::new().size(1.0f32.to_bits()) != SpanStyle::new());
    assert!(SpanStyle::new().family("A".to_string()) != SpanStyle::new().family("B".to_string()));
    assert!(SpanStyle::new().bold().chip() == SpanStyle::new().bold().chip());
}
