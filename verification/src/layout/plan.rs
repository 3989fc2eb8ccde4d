//! The pieces a paragraph is cut into before they are measured: a section
//! header's disclosure arrow first, then each span in order, a chip whole and any
//! other span cut by the tokenizer.

use vstd::prelude::*;
use crate::rich::{copy_opt_string, Para, RichDoc, RichSpan, SpanStyle};
use crate::layout::resolve::{resolve_span, spec_resolve, BaseStyle, FragStyle};
use crate::layout::lines::PieceKind;
use crate::text::{tokenize, tokenizes, lemma_tokenizes_unique, lemma_tokens_in_bounds, Token, TokKind};

verus! {

/// A piece of a paragraph before measurement: its text, resolved style, how the
/// line breaker treats it, and whether it is a disclosure arrow.
pub struct PiecePlan {
    pub text: Vec<char>,
    pub style: FragStyle,
    pub kind: PieceKind,
    pub chevron: bool,
}

/// A planned piece as plain values.
pub open spec fn plan_view(p: PiecePlan) -> (Seq<char>, FragStyle, PieceKind, bool) {
    (p.text@, p.style, p.kind, p.chevron)
}

/// The disclosure arrow drawn before a header: pointing right when the section is
/// collapsed, down when it is expanded, followed by a space.
pub open spec fn arrow_glyph(collapsed: bool) -> Seq<char> {
    if collapsed {
        seq!['\u{25B8}', ' ']
    } else {
        seq!['\u{25BE}', ' ']
    }
}

/// The arrow's style: that of an unstyled span (the base style throughout) with no
/// colour of its own, so it takes the arrow colour.
pub open spec fn arrow_style(base: BaseStyle) -> FragStyle {
    FragStyle {
        size: base.font_size,
        weight: base.font_weight,
        family: base.font_family,
        line_height: base.line_height,
        fg: None,
        bg: None,
        underline: false,
        strike: false,
        chip: false,
    }
}

/// The cut of a text (there is exactly one, see [`tokenize`]).
pub open spec fn cut_of(s: Seq<char>) -> Seq<Token> {
    choose|t: Seq<Token>| tokenizes(s, s.len() as int, t)
}

/// How the line breaker treats a piece of the given kind.
pub open spec fn piece_kind_of(k: TokKind) -> PieceKind {
    match k {
        TokKind::Word => PieceKind::Word,
        TokKind::Space => PieceKind::Space,
        TokKind::Newline => PieceKind::Newline,
    }
}

/// A piece of the cut of `s` in style `fs`: its characters (none for a line
/// break).
pub open spec fn token_view(s: Seq<char>, t: Token, fs: FragStyle) -> (Seq<char>, FragStyle, PieceKind, bool) {
    (
        if t.kind == TokKind::Newline {
            Seq::empty()
        } else {
            s.subrange(t.start as int, t.end as int)
        },
        fs,
        piece_kind_of(t.kind),
        false,
    )
}

/// The pieces of one span whose style resolves to `fs`: a chip is one piece that
/// is never split, whatever it holds; other text is cut by the tokenizer.
pub open spec fn span_plan(s: Seq<char>, fs: FragStyle) -> Seq<(Seq<char>, FragStyle, PieceKind, bool)> {
    if fs.chip {
        seq![(s, fs, PieceKind::Word, false)]
    } else {
        cut_of(s).map_values(|t: Token| token_view(s, t, fs))
    }
}

/// The pieces of a list of spans, in order.
pub open spec fn spans_plan(spans: Seq<RichSpan>, styles: Map<Seq<char>, SpanStyle>, base: BaseStyle) -> Seq<
    (Seq<char>, FragStyle, PieceKind, bool),
>
    decreases spans.len(),
{
    if spans.len() == 0 {
        Seq::empty()
    } else {
        spans_plan(spans.drop_last(), styles, base) + span_plan(
            spans.last().text@,
            spec_resolve(spans.last(), styles, base),
        )
    }
}

/// The pieces of a paragraph: for a section header (`arrow` holds its collapse
/// state) the disclosure arrow comes first, as one unbreakable piece.
pub open spec fn para_plan(
    spans: Seq<RichSpan>,
    styles: Map<Seq<char>, SpanStyle>,
    base: BaseStyle,
    arrow: Option<bool>,
) -> Seq<(Seq<char>, FragStyle, PieceKind, bool)> {
    match arrow {
        Some(c) => seq![(arrow_glyph(c), arrow_style(base), PieceKind::Word, true)] + spans_plan(
            spans,
            styles,
            base,
        ),
        None => spans_plan(spans, styles, base),
    }
}

/// The characters of `s`, in order.
pub fn chars_of(s: &str) -> (v: Vec<char>)
    ensures
        v@ == s@,
{
    broadcast use vstd::string::axiom_spec_iter;

    let mut v: Vec<char> = Vec::new();
    for c in it: s.chars()
        invariant
            v@ == it.seq().take(it.index() as int),
    {
        v.push(c);
    }
    v
}

/// The characters `lo..hi` of `s`.
fn chars_between(s: &Vec<char>, lo: usize, hi: usize) -> (v: Vec<char>)
    requires
        lo <= hi <= s.len(),
    ensures
        v@ == s@.subrange(lo as int, hi as int),
{
    let mut v: Vec<char> = Vec::new();
    for i in lo..hi
        invariant
            hi <= s.len(),
            v@ == s@.subrange(lo as int, i as int),
    {
        v.push(s[i]);
    }
    v
}

/// A copy of a resolved style.
fn copy_frag_style(f: &FragStyle) -> (r: FragStyle)
    ensures
        r == *f,
{
    FragStyle {
        size: f.size,
        weight: f.weight,
        family: copy_opt_string(&f.family),
        line_height: f.line_height,
        fg: f.fg,
        bg: f.bg,
        underline: f.underline,
        strike: f.strike,
        chip: f.chip,
    }
}

/// The breaker's treatment of a token kind.
fn piece_kind(k: TokKind) -> (p: PieceKind)
    ensures
        p == piece_kind_of(k),
{
    match k {
        TokKind::Word => PieceKind::Word,
        TokKind::Space => PieceKind::Space,
        TokKind::Newline => PieceKind::Newline,
    }
}

/// Appends the pieces of one span.
fn push_span_pieces(out: &mut Vec<PiecePlan>, span: &RichSpan, fs: FragStyle)
    ensures
        final(out)@.map_values(|p: PiecePlan| plan_view(p)) == old(out)@.map_values(
            |p: PiecePlan| plan_view(p),
        ) + span_plan(span.text@, fs),
{
    let chars = chars_of(span.text.as_str());
    if fs.chip {
        out.push(PiecePlan { text: chars, style: fs, kind: PieceKind::Word, chevron: false });
        proof {
            assert(final(out)@.map_values(|p: PiecePlan| plan_view(p)) =~= old(out)@.map_values(
                |p: PiecePlan| plan_view(p),
            ) + span_plan(span.text@, fs));
        }
        return;
    }
    let toks = tokenize(&chars);
    proof {
        lemma_tokenizes_unique(chars@, chars@.len() as int, toks@, cut_of(chars@));
        lemma_tokens_in_bounds(chars@, chars@.len() as int, toks@);
    }
    let ghost before = out@.map_values(|p: PiecePlan| plan_view(p));
    let n = toks.len();
    for j in 0..n
        invariant
            n == toks.len(),
            toks@ == cut_of(chars@),
            chars@ == span.text@,
            !fs.chip,
            forall|k: int| #![trigger toks@[k]] 0 <= k < toks.len() ==> toks@[k].start < toks@[k].end && toks@[k].end <= chars.len(),
            out@.map_values(|p: PiecePlan| plan_view(p)) == before + toks@.take(j as int).map_values(
                |t: Token| token_view(chars@, t, fs),
            ),
    {
        let t = toks[j];
        let text = match t.kind {
            TokKind::Newline => Vec::new(),
            _ => chars_between(&chars, t.start, t.end),
        };
        let q = PiecePlan { text, style: copy_frag_style(&fs), kind: piece_kind(t.kind), chevron: false };
        assert(plan_view(q) == token_view(chars@, t, fs));
        let ghost prev = out@;
        out.push(q);
        proof {
            assert(out@ =~= prev.push(q));
            assert(out@.map_values(|p: PiecePlan| plan_view(p)) =~= prev.map_values(|p: PiecePlan| plan_view(p)).push(plan_view(q)));
            assert(toks@.take(j + 1).map_values(|t: Token| token_view(chars@, t, fs)) =~= toks@.take(j as int).map_values(|t: Token| token_view(chars@, t, fs)).push(token_view(chars@, t, fs)));
            assert(toks@.take(j + 1) =~= toks@.take(j as int).push(t));
            assert(out@.map_values(|p: PiecePlan| plan_view(p)) =~= before + toks@.take(j + 1).map_values(
                |t: Token| token_view(chars@, t, fs),
            ));
        }
    }
    proof {
        assert(toks@.take(n as int) =~= toks@);
    }
}

/// Cuts a paragraph into the pieces the line breaker takes, in order; for a
/// section header `arrow` is its collapse state and the disclosure arrow comes
/// first.
pub fn para_pieces(doc: &RichDoc, p: &Para, base: &BaseStyle, arrow: Option<bool>) -> (v: Vec<PiecePlan>)
    ensures
        v@.map_values(|q: PiecePlan| plan_view(q)) == para_plan(p.spans@, doc.style_map(), *base, arrow),
{
    let mut out: Vec<PiecePlan> = Vec::new();
    match arrow {
        Some(c) => {
            let glyph = if c {
                vec!['\u{25B8}', ' ']
            } else {
                vec!['\u{25BE}', ' ']
            };
            let family = copy_opt_string(&base.font_family);
            let style = FragStyle {
                size: base.font_size,
                weight: base.font_weight,
                family,
                line_height: base.line_height,
                fg: None,
                bg: None,
                underline: false,
                strike: false,
                chip: false,
            };
            out.push(PiecePlan { text: glyph, style, kind: PieceKind::Word, chevron: true });
        },
        None => {},
    }
    let ghost head = out@.map_values(|q: PiecePlan| plan_view(q));
    proof {
        assert(head =~= match arrow {
            Some(c) => seq![(arrow_glyph(c), arrow_style(*base), PieceKind::Word, true)],
            None => Seq::empty(),
        });
    }
    let n = p.spans.len();
    for i in 0..n
        invariant
            n == p.spans.len(),
            out@.map_values(|q: PiecePlan| plan_view(q)) == head + spans_plan(
                p.spans@.take(i as int),
                doc.style_map(),
                *base,
            ),
    {
        let span = &p.spans[i];
        let fs = resolve_span(doc, span, base);
        push_span_pieces(&mut out, span, fs);
        proof {
            let t = p.spans@.take(i + 1);
            assert(t.drop_last() =~= p.spans@.take(i as int));
            assert(t.last() == *span);
            assert(out@.map_values(|q: PiecePlan| plan_view(q)) =~= head + spans_plan(
                t,
                doc.style_map(),
                *base,
            ));
        }
    }
    proof {
        assert(p.spans@.take(n as int) =~= p.spans@);
    }
    out
}

} // verus!
