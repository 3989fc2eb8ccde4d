//! Resolving a span's style: inline over named over the widget's base style.

use vstd::prelude::*;
use crate::rich::{RichDoc, RichSpan, SpanStyle, plain_style, spec_over};
use crate::theme::{Palette, RichColor, RichTheme};
use crate::geometry::Color;

verus! {

/// The widget's own text style, which unset span fields inherit. Sizes are `f32`
/// bits.
#[derive(Clone, Debug)]
pub struct BaseStyle {
    pub font_size: u32,
    pub font_weight: u16,
    pub font_family: Option<String>,
    pub line_height: Option<u32>,
}

/// The style of a piece with every inherited field filled in.
#[derive(Clone, Debug)]
pub struct FragStyle {
    pub size: u32,
    pub weight: u16,
    pub family: Option<String>,
    pub line_height: Option<u32>,
    pub fg: Option<RichColor>,
    pub bg: Option<RichColor>,
    pub underline: bool,
    pub strike: bool,
    pub chip: bool,
}

/// The style a span resolves to: its inline style over its named style (an
/// unregistered or absent name counts as the empty style), then the base style
/// for whatever is still unset.
pub open spec fn spec_resolve(span: RichSpan, styles: Map<Seq<char>, SpanStyle>, base: BaseStyle) -> FragStyle {
    let named = match span.named {
        Some(n) => if styles.contains_key(n@) {
            styles[n@]
        } else {
            plain_style()
        },
        None => plain_style(),
    };
    let s = spec_over(span.style, named);
    FragStyle {
        size: match s.size {
            Some(v) => v,
            None => base.font_size,
        },
        weight: match s.weight {
            Some(v) => v,
            None => base.font_weight,
        },
        family: if s.family is Some {
            s.family
        } else {
            base.font_family
        },
        line_height: base.line_height,
        fg: s.fg,
        bg: s.bg,
        underline: s.underline,
        strike: s.strike,
        chip: s.chip,
    }
}

/// Resolves the style of `span` in `doc` over `base`.
pub fn resolve_span(doc: &RichDoc, span: &RichSpan, base: &BaseStyle) -> (f: FragStyle)
    ensures
        f == spec_resolve(*span, doc.style_map(), *base),
{
    let named = match &span.named {
        Some(n) => match doc.named_style(n) {
            Some(st) => st,
            None => SpanStyle::new(),
        },
        None => SpanStyle::new(),
    };
    let s = span.style.over(&named);
    let family = match s.family {
        Some(f) => Some(f),
        None => match &base.font_family {
            Some(f) => Some(f.clone()),
            None => None,
        },
    };
    FragStyle {
        size: match s.size {
            Some(v) => v,
            None => base.font_size,
        },
        weight: match s.weight {
            Some(v) => v,
            None => base.font_weight,
        },
        family,
        line_height: base.line_height,
        fg: s.fg,
        bg: s.bg,
        underline: s.underline,
        strike: s.strike,
        chip: s.chip,
    }
}

/// Inline over named over base: a field that the span sets inline wins over its
/// named style; one it leaves unset comes from the registered named style, and
/// what neither sets comes from the widget's base style.
pub proof fn lemma_inline_over_named(span: RichSpan, styles: Map<Seq<char>, SpanStyle>, base: BaseStyle)
    ensures
        span.style.fg matches Some(c) ==> spec_resolve(span, styles, base).fg == Some(c),
        span.style.bg matches Some(c) ==> spec_resolve(span, styles, base).bg == Some(c),
        span.style.size matches Some(v) ==> spec_resolve(span, styles, base).size == v,
        span.style.weight matches Some(v) ==> spec_resolve(span, styles, base).weight == v,
        span.style.family is Some ==> spec_resolve(span, styles, base).family == span.style.family,
        span.named matches Some(name) ==> (styles.contains_key(name@) ==> {
            let ns = styles[name@];
            &&& span.style.fg is None ==> spec_resolve(span, styles, base).fg == ns.fg
            &&& span.style.bg is None ==> spec_resolve(span, styles, base).bg == ns.bg
            &&& span.style.size is None ==> (ns.size matches Some(v) ==> spec_resolve(span, styles, base).size == v)
            &&& span.style.weight is None ==> (ns.weight matches Some(v) ==> spec_resolve(span, styles, base).weight == v)
            &&& ns.chip ==> spec_resolve(span, styles, base).chip
        }),
        (span.named is None && span.style.fg is None) ==> spec_resolve(span, styles, base).fg is None,
        (span.named is None && span.style.size is None) ==> spec_resolve(span, styles, base).size == base.font_size,
        (span.named is None && span.style.weight is None) ==> spec_resolve(span, styles, base).weight == base.font_weight,
        span.style.chip ==> spec_resolve(span, styles, base).chip,
        spec_resolve(span, styles, base).line_height == base.line_height,
{
}

/// The colours a fragment is painted with.
#[derive(Clone, Copy, Debug, PartialEq, Eq, Structural)]
pub struct FragColors {
    /// Background (a highlight, or a chip's pill), if any.
    pub bg: Option<Color>,
    pub fg: Color,
}

/// A fragment's colours: its own background, else the chip default for a chip;
/// disabled text is greyed throughout, a disclosure arrow takes the arrow colour,
/// otherwise its own foreground, else the chip default for a chip, else `text`
/// (the widget's text colour).
pub open spec fn spec_frag_colors(st: FragStyle, chevron: bool, enabled: bool, pal: Palette, th: RichTheme, text: Color) -> FragColors {
    FragColors {
        bg: match st.bg {
            Some(rc) => Some(rc.spec_resolve(pal)),
            None => if st.chip {
                Some(th.chip_bg)
            } else {
                None
            },
        },
        fg: if !enabled {
            pal.text_disabled
        } else if chevron {
            th.chevron
        } else {
            match st.fg {
                Some(rc) => rc.spec_resolve(pal),
                None => if st.chip {
                    th.chip_fg
                } else {
                    text
                },
            }
        },
    }
}

/// How a fragment is coloured: its own background is always painted behind it,
/// chip or not; without one, a chip gets the chip background and other text
/// none. Disabled text is grey throughout; otherwise a disclosure arrow takes the
/// arrow colour, a fragment with its own colour takes that, and one without takes
/// the chip default (for a chip) or the widget's text colour.
pub proof fn lemma_frag_colors(st: FragStyle, chevron: bool, enabled: bool, pal: Palette, th: RichTheme, text: Color)
    ensures
        ({
            let c = spec_frag_colors(st, chevron, enabled, pal, th, text);
            &&& st.bg matches Some(rc) ==> c.bg == Some(rc.spec_resolve(pal))
            &&& (st.bg is None && st.chip) ==> c.bg == Some(th.chip_bg)
            &&& (st.bg is None && !st.chip) ==> c.bg is None
            &&& !enabled ==> c.fg == pal.text_disabled
            &&& (enabled && chevron) ==> c.fg == th.chevron
            &&& (enabled && !chevron) ==> (st.fg matches Some(rc) ==> c.fg == rc.spec_resolve(pal))
            &&& (enabled && !chevron && st.fg is None && st.chip) ==> c.fg == th.chip_fg
            &&& (enabled && !chevron && st.fg is None && !st.chip) ==> c.fg == text
        }),
{
}

/// Picks a fragment's colours (see [`spec_frag_colors`]).
pub fn frag_colors(st: &FragStyle, chevron: bool, enabled: bool, pal: &Palette, th: &RichTheme, text: Color) -> (c: FragColors)
    ensures
        c == spec_frag_colors(*st, chevron, enabled, *pal, *th, text),
{
    let bg = match st.bg {
        Some(rc) => Some(rc.resolve(pal)),
        None => if st.chip {
            Some(th.chip_bg)
        } else {
            None
        },
    };
    let fg = if !enabled {
        pal.text_disabled
    } else if chevron {
        th.chevron
    } else {
        match st.fg {
            Some(rc) => rc.resolve(pal),
            None => if st.chip {
                th.chip_fg
            } else {
                text
            },
        }
    };
    FragColors { bg, fg }
}

/// The divider colour: the theme's when enabled, the palette's divider otherwise.
pub fn divider_color(enabled: bool, pal: &Palette, th: &RichTheme) -> (c: Color)
    ensures
        c == (if enabled { th.divider } else { pal.divider }),
{
    if enabled {
        th.divider
    } else {
        pal.divider
    }
}

} // verus!
