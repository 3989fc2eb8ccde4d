//! Rich-text document model: styled spans grouped into paragraphs, dividers and
//! collapsible sections, with a table of named styles.
//!
//! A span's style overrides field by field: the inline style over the named
//! style, the named style over the widget's base style. Sizes and line heights
//! are carried as the bit patterns of their `f32` values (`f32::to_bits`); they
//! are never computed with here.

use vstd::prelude::*;
use crate::signal::Signal;
use crate::theme::RichColor;

verus! {

/// Style of a span: every field optional, `None` inherits.
#[derive(Clone, Debug)]
pub struct SpanStyle {
    /// Font size in logical dp, as `f32` bits.
    pub size: Option<u32>,
    /// Font weight (400 regular, 600 semibold, 700 bold).
    pub weight: Option<u16>,
    pub family: Option<String>,
    pub fg: Option<RichColor>,
    pub bg: Option<RichColor>,
    pub underline: bool,
    pub strike: bool,
    pub chip: bool,
}

/// `==` on two `f32` values given by their bits: a NaN equals nothing, the two
/// zeros are equal, and any other two values are equal when their bits are.
pub open spec fn f32_bits_eq(a: u32, b: u32) -> bool {
    let ma = a & 0x7fff_ffffu32;
    let mb = b & 0x7fff_ffffu32;
    if ma > 0x7f80_0000u32 || mb > 0x7f80_0000u32 {
        false
    } else if ma == 0 && mb == 0 {
        true
    } else {
        a == b
    }
}

/// Compares two `f32` values given by their bits (see [`f32_bits_eq`]).
pub fn f32_bits_equal(a: u32, b: u32) -> (r: bool)
    ensures
        r == f32_bits_eq(a, b),
{
    let ma = a & 0x7fff_ffffu32;
    let mb = b & 0x7fff_ffffu32;
    if ma > 0x7f80_0000u32 || mb > 0x7f80_0000u32 {
        false
    } else if ma == 0 && mb == 0 {
        true
    } else {
        a == b
    }
}

/// Two styles are equal when every field is: sizes compared as `f32` values,
/// families by their text, the rest as values.
pub open spec fn span_style_eq(a: SpanStyle, b: SpanStyle) -> bool {
    &&& match (a.size, b.size) {
        (Some(x), Some(y)) => f32_bits_eq(x, y),
        (None, None) => true,
        _ => false,
    }
    &&& a.weight == b.weight
    &&& match (a.family, b.family) {
        (Some(x), Some(y)) => x@ == y@,
        (None, None) => true,
        _ => false,
    }
    &&& a.fg == b.fg
    &&& a.bg == b.bg
    &&& a.underline == b.underline
    &&& a.strike == b.strike
    &&& a.chip == b.chip
}

impl PartialEq for SpanStyle {
    fn eq(&self, other: &Self) -> (r: bool) {
        let size = match (self.size, other.size) {
            (Some(x), Some(y)) => f32_bits_equal(x, y),
            (None, None) => true,
            _ => false,
        };
        let family = match (&self.family, &other.family) {
            (Some(x), Some(y)) => *x == *y,
            (None, None) => true,
            _ => false,
        };
        let weight = match (self.weight, other.weight) {
            (Some(x), Some(y)) => x == y,
            (None, None) => true,
            _ => false,
        };
        let fg = match (self.fg, other.fg) {
            (Some(x), Some(y)) => x == y,
            (None, None) => true,
            _ => false,
        };
        let bg = match (self.bg, other.bg) {
            (Some(x), Some(y)) => x == y,
            (None, None) => true,
            _ => false,
        };
        size && weight && family && fg && bg && self.underline == other.underline && self.strike
            == other.strike && self.chip == other.chip
    }
}

impl vstd::std_specs::cmp::PartialEqSpecImpl for SpanStyle {
    open spec fn obeys_eq_spec() -> bool {
        true
    }

    open spec fn eq_spec(&self, other: &SpanStyle) -> bool {
        span_style_eq(*self, *other)
    }
}

/// The style with nothing set.
pub open spec fn plain_style() -> SpanStyle {
    SpanStyle {
        size: None,
        weight: None,
        family: None,
        fg: None,
        bg: None,
        underline: false,
        strike: false,
        chip: false,
    }
}

/// `a` over `b`: each field of `a` that is set wins, the others come from `b`;
/// the flags are set when set in either.
pub open spec fn spec_over(a: SpanStyle, b: SpanStyle) -> SpanStyle {
    SpanStyle {
        size: if a.size is Some { a.size } else { b.size },
        weight: if a.weight is Some { a.weight } else { b.weight },
        family: if a.family is Some { a.family } else { b.family },
        fg: if a.fg is Some { a.fg } else { b.fg },
        bg: if a.bg is Some { a.bg } else { b.bg },
        underline: a.underline || b.underline,
        strike: a.strike || b.strike,
        chip: a.chip || b.chip,
    }
}

/// How a style lies over another: each field that the upper style sets explicitly
/// wins, each it leaves unset comes from the lower one, and a flag is on when
/// either style turns it on.
pub proof fn lemma_over_explicit_wins(a: SpanStyle, b: SpanStyle)
    ensures
        a.size matches Some(v) ==> spec_over(a, b).size == Some(v),
        a.size is None ==> spec_over(a, b).size == b.size,
        a.weight matches Some(v) ==> spec_over(a, b).weight == Some(v),
        a.weight is None ==> spec_over(a, b).weight == b.weight,
        a.family matches Some(v) ==> spec_over(a, b).family == Some(v),
        a.family is None ==> spec_over(a, b).family == b.family,
        a.fg matches Some(v) ==> spec_over(a, b).fg == Some(v),
        a.fg is None ==> spec_over(a, b).fg == b.fg,
        a.bg matches Some(v) ==> spec_over(a, b).bg == Some(v),
        a.bg is None ==> spec_over(a, b).bg == b.bg,
        spec_over(a, b).underline <==> (a.underline || b.underline),
        spec_over(a, b).strike <==> (a.strike || b.strike),
        spec_over(a, b).chip <==> (a.chip || b.chip),
{
}

/// A copy of an optional string.
pub(crate) fn copy_opt_string(s: &Option<String>) -> (r: Option<String>)
    ensures
        r == *s,
{
    match s {
        Some(t) => Some(t.clone()),
        None => None,
    }
}

/// A copy of a style.
pub fn copy_style(s: &SpanStyle) -> (r: SpanStyle)
    ensures
        r == *s,
{
    SpanStyle {
        size: s.size,
        weight: s.weight,
        family: copy_opt_string(&s.family),
        fg: s.fg,
        bg: s.bg,
        underline: s.underline,
        strike: s.strike,
        chip: s.chip,
    }
}

impl Default for SpanStyle {
    fn default() -> (s: Self)
        ensures
            s == plain_style(),
    {
        SpanStyle {
            size: None,
            weight: None,
            family: None,
            fg: None,
            bg: None,
            underline: false,
            strike: false,
            chip: false,
        }
    }
}

impl SpanStyle {
    pub fn new() -> (s: Self)
        ensures
            s == plain_style(),
    {
        SpanStyle {
            size: None,
            weight: None,
            family: None,
            fg: None,
            bg: None,
            underline: false,
            strike: false,
            chip: false,
        }
    }

    /// Font size in logical dp, given as `f32` bits.
    pub fn size(self, size: u32) -> (s: Self)
        ensures
            s == (SpanStyle { size: Some(size), ..self }),
    {
        SpanStyle { size: Some(size), ..self }
    }

    /// Font weight (400 regular / 600 semibold / 700 bold).
    pub fn weight(self, weight: u16) -> (s: Self)
        ensures
            s == (SpanStyle { weight: Some(weight), ..self }),
    {
        SpanStyle { weight: Some(weight), ..self }
    }

    /// Bold: weight 700.
    pub fn bold(self) -> (s: Self)
        ensures
            s == (SpanStyle { weight: Some(700u16), ..self }),
    {
        self.weight(700)
    }

    /// Font family (for phonetic symbols and the like).
    pub fn family(self, family: String) -> (s: Self)
        ensures
            s == (SpanStyle { family: Some(family), ..self }),
    {
        SpanStyle { family: Some(family), ..self }
    }

    /// Foreground colour (a palette role or a fixed colour).
    pub fn fg(self, color: RichColor) -> (s: Self)
        ensures
            s == (SpanStyle { fg: Some(color), ..self }),
    {
        SpanStyle { fg: Some(color), ..self }
    }

    /// Background colour: a highlight behind the text, or the pill's fill for a
    /// chip.
    pub fn bg(self, color: RichColor) -> (s: Self)
        ensures
            s == (SpanStyle { bg: Some(color), ..self }),
    {
        SpanStyle { bg: Some(color), ..self }
    }

    /// Underline.
    pub fn underline(self) -> (s: Self)
        ensures
            s == (SpanStyle { underline: true, ..self }),
    {
        SpanStyle { underline: true, ..self }
    }

    /// Strike-through.
    pub fn strike(self) -> (s: Self)
        ensures
            s == (SpanStyle { strike: true, ..self }),
    {
        SpanStyle { strike: true, ..self }
    }

    /// Chip (pill): padding and fully rounded background; a chip is never split
    /// across lines.
    pub fn chip(self) -> (s: Self)
        ensures
            s == (SpanStyle { chip: true, ..self }),
    {
        SpanStyle { chip: true, ..self }
    }

    /// This style over `base`: the merge rule of a named style and an inline
    /// override.
    pub fn over(&self, base: &SpanStyle) -> (s: SpanStyle)
        ensures
            s == spec_over(*self, *base),
    {
        SpanStyle {
            size: if self.size.is_some() {
                self.size
            } else {
                base.size
            },
            weight: if self.weight.is_some() {
                self.weight
            } else {
                base.weight
            },
            family: if self.family.is_some() {
                copy_opt_string(&self.family)
            } else {
                copy_opt_string(&base.family)
            },
            fg: if self.fg.is_some() {
                self.fg
            } else {
                base.fg
            },
            bg: if self.bg.is_some() {
                self.bg
            } else {
                base.bg
            },
            underline: self.underline || base.underline,
            strike: self.strike || base.strike,
            chip: self.chip || base.chip,
        }
    }
}

/// The empty style is neutral on both sides of the merge.
pub proof fn lemma_over_identity(a: SpanStyle)
    ensures
        spec_over(plain_style(), a) == a,
        spec_over(a, plain_style()) == a,
{
}

/// Merging is associative: overriding in two steps is overriding once with the
/// merged override.
pub proof fn lemma_over_assoc(a: SpanStyle, b: SpanStyle, c: SpanStyle)
    ensures
        spec_over(a, spec_over(b, c)) == spec_over(spec_over(a, b), c),
{
}

/// Merging a style over itself changes nothing.
pub proof fn lemma_over_idempotent(a: SpanStyle)
    ensures
        spec_over(a, a) == a,
{
}

/// A run of text with a style: the text, the name of a style in the document's
/// table (its base) and an inline style (overriding the named one).
#[derive(Clone, Debug)]
pub struct RichSpan {
    pub text: String,
    pub named: Option<String>,
    pub style: SpanStyle,
}

/// A paragraph: its spans and the indent of its first line's start (logical px,
/// relative to the enclosing block's indent).
#[derive(Clone, Debug)]
pub struct Para {
    pub spans: Vec<RichSpan>,
    pub indent: i32,
}

impl Default for Para {
    fn default() -> (p: Self)
        ensures
            p.spans@ == Seq::<RichSpan>::empty(),
            p.indent == 0,
    {
        Para { spans: Vec::new(), indent: 0 }
    }
}

impl From<String> for Para {
    fn from(s: String) -> (p: Self)
        ensures
            p.spans@ == seq![RichSpan { text: s, named: None, style: plain_style() }],
            p.indent == 0,
    {
        Para::new().text(s)
    }
}

impl vstd::std_specs::convert::FromSpecImpl<String> for Para {
    /// A paragraph holds a `Vec`, which is not built in specifications, so the
    /// result is described by the `ensures` of `from` instead.
    open spec fn obeys_from_spec() -> bool {
        false
    }

    open spec fn from_spec(s: String) -> Para {
        choose|p: Para| p.spans@ == seq![RichSpan { text: s, named: None, style: plain_style() }]
    }
}

impl<'a> From<&'a str> for Para {
    fn from(s: &'a str) -> (p: Self)
        ensures
            p.spans.len() == 1,
            p.spans@[0].text@ == s@,
            p.spans@[0].named is None,
            p.spans@[0].style == plain_style(),
            p.indent == 0,
    {
        Para::new().text(s.to_owned())
    }
}

impl<'a> vstd::std_specs::convert::FromSpecImpl<&'a str> for Para {
    /// Strings are not built in specifications, so the result is described by the
    /// `ensures` of `from` instead.
    open spec fn obeys_from_spec() -> bool {
        false
    }

    open spec fn from_spec(s: &'a str) -> Para {
        choose|p: Para| p.spans.len() == 1 && p.spans@[0].text@ == s@
    }
}

impl Para {
    pub fn new() -> (p: Self)
        ensures
            p.spans@ == Seq::<RichSpan>::empty(),
            p.indent == 0,
    {
        Para { spans: Vec::new(), indent: 0 }
    }

    /// Text in the default style.
    pub fn text(self, s: String) -> (p: Self)
        ensures
            p.spans@ == self.spans@.push(RichSpan { text: s, named: None, style: plain_style() }),
            p.indent == self.indent,
    {
        let mut p = self;
        p.spans.push(RichSpan { text: s, named: None, style: SpanStyle::new() });
        p
    }

    /// Text in a named style (registered with [`RichDoc::style`]).
    pub fn styled(self, name: String, s: String) -> (p: Self)
        ensures
            p.spans@ == self.spans@.push(
                RichSpan { text: s, named: Some(name), style: plain_style() },
            ),
            p.indent == self.indent,
    {
        let mut p = self;
        p.spans.push(RichSpan { text: s, named: Some(name), style: SpanStyle::new() });
        p
    }

    /// Text in an inline style.
    pub fn span(self, s: String, style: SpanStyle) -> (p: Self)
        ensures
            p.spans@ == self.spans@.push(RichSpan { text: s, named: None, style }),
            p.indent == self.indent,
    {
        let mut p = self;
        p.spans.push(RichSpan { text: s, named: None, style });
        p
    }

    /// Text in a named style with inline overrides (set inline fields win).
    pub fn styled_span(self, name: String, s: String, style: SpanStyle) -> (p: Self)
        ensures
            p.spans@ == self.spans@.push(RichSpan { text: s, named: Some(name), style }),
            p.indent == self.indent,
    {
        let mut p = self;
        p.spans.push(RichSpan { text: s, named: Some(name), style });
        p
    }

    /// Paragraph indent in logical px.
    pub fn indent(self, px: i32) -> (p: Self)
        ensures
            p.spans@ == self.spans@,
            p.indent == px,
    {
        let mut p = self;
        p.indent = px;
        p
    }
}

/// A block of the document.
pub enum RichBlock {
    Para(Para),
    Divider,
    Section(Section),
}

/// A collapsible section: a header line (drawn after a disclosure arrow) and child
/// blocks that take no part in layout while collapsed. `collapsed` holds the
/// state (true = collapsed); clicking the header flips it.
pub struct Section {
    pub header: Para,
    pub children: Vec<RichBlock>,
    pub collapsed: Signal<bool>,
}

/// A copy of a span.
pub fn copy_span(sp: &RichSpan) -> (r: RichSpan)
    ensures
        r == *sp,
{
    RichSpan { text: sp.text.clone(), named: copy_opt_string(&sp.named), style: copy_style(&sp.style) }
}

/// A copy of a paragraph.
pub fn copy_para(p: &Para) -> (r: Para)
    ensures
        r.spans@ == p.spans@,
        r.indent == p.indent,
{
    let mut spans: Vec<RichSpan> = Vec::new();
    let n = p.spans.len();
    for i in 0..n
        invariant
            n == p.spans.len(),
            spans@ == p.spans@.take(i as int),
    {
        spans.push(copy_span(&p.spans[i]));
        proof {
            assert(spans@ =~= p.spans@.take(i + 1));
        }
    }
    proof {
        assert(p.spans@.take(n as int) =~= p.spans@);
    }
    Para { spans, indent: p.indent }
}

/// Two blocks with the same content: equal paragraphs and dividers, sections with
/// equal headers, the same state signal and children alike in turn.
pub open spec fn same_block(a: RichBlock, b: RichBlock) -> bool
    decreases a, 1int,
{
    match a {
        RichBlock::Para(p) => b matches RichBlock::Para(q) && p.spans@ == q.spans@ && p.indent
            == q.indent,
        RichBlock::Divider => b is Divider,
        RichBlock::Section(x) => b matches RichBlock::Section(y) && x.header.spans@
            == y.header.spans@ && x.header.indent == y.header.indent && x.collapsed == y.collapsed
            && same_blocks(x.children@, y.children@),
    }
}

/// Two block lists of equal length whose blocks are alike position by position.
pub open spec fn same_blocks(xs: Seq<RichBlock>, ys: Seq<RichBlock>) -> bool
    decreases xs, 0int,
{
    &&& xs.len() == ys.len()
    &&& xs.len() > 0 ==> same_blocks(xs.drop_last(), ys.drop_last()) && same_block(
        xs.last(),
        ys.last(),
    )
}

/// A deep copy of a block.
pub fn copy_block(b: &RichBlock) -> (r: RichBlock)
    ensures
        same_block(*b, r),
    decreases b,
{
    match b {
        RichBlock::Para(p) => RichBlock::Para(copy_para(p)),
        RichBlock::Divider => RichBlock::Divider,
        RichBlock::Section(sec) => {
            let children = copy_blocks(&sec.children);
            let header = copy_para(&sec.header);
            RichBlock::Section(Section { header, children, collapsed: sec.collapsed })
        },
    }
}

/// A deep copy of a block list.
pub fn copy_blocks(v: &Vec<RichBlock>) -> (r: Vec<RichBlock>)
    ensures
        same_blocks(v@, r@),
    decreases v,
{
    let mut r: Vec<RichBlock> = Vec::new();
    let n = v.len();
    for i in 0..n
        invariant
            n == v.len(),
            same_blocks(v@.take(i as int), r@),
    {
        proof {
            assert(decreases_to!(v => v@));
            assert(decreases_to!(v@ => v@[i as int]));
        }
        let c = copy_block(&v[i]);
        let ghost before = r@;
        r.push(c);
        proof {
            assert(v@.take(i + 1).drop_last() =~= v@.take(i as int));
            assert(r@.drop_last() =~= before);
        }
    }
    proof {
        assert(v@.take(n as int) =~= v@);
    }
    r
}

/// The map that a style table stands for: each name to the style last given
/// for it.
pub open spec fn table_map(t: Seq<(String, SpanStyle)>) -> Map<Seq<char>, SpanStyle>
    decreases t.len(),
{
    if t.len() == 0 {
        Map::empty()
    } else {
        table_map(t.drop_last()).insert(t.last().0@, t.last().1)
    }
}

/// No name occurs twice in the table.
pub open spec fn names_unique(t: Seq<(String, SpanStyle)>) -> bool {
    forall|i: int, j: int|
        #![trigger t[i], t[j]]
        0 <= i < t.len() && 0 <= j < t.len() && i != j ==> t[i].0@ != t[j].0@
}

/// A name is in the table's map exactly when an entry has it, and with unique
/// names the map gives that entry's style.
proof fn lemma_table_lookup(t: Seq<(String, SpanStyle)>, k: int)
    requires
        names_unique(t),
        0 <= k < t.len(),
    ensures
        table_map(t).contains_key(t[k].0@),
        table_map(t)[t[k].0@] == t[k].1,
    decreases t.len(),
{
    if k < t.len() - 1 {
        let d = t.drop_last();
        assert(d[k] == t[k]);
        lemma_table_lookup(d, k);
        assert(t[k].0@ != t.last().0@);
    }
}

/// A name that no entry has is not in the table's map.
proof fn lemma_table_absent(t: Seq<(String, SpanStyle)>, name: Seq<char>)
    requires
        forall|i: int| 0 <= i < t.len() ==> (#[trigger] t[i]).0@ != name,
    ensures
        !table_map(t).contains_key(name),
    decreases t.len(),
{
    if t.len() > 0 {
        let d = t.drop_last();
        assert forall|i: int| 0 <= i < d.len() implies (#[trigger] d[i]).0@ != name by {
            assert(d[i] == t[i]);
        }
        lemma_table_absent(d, name);
        assert(t[t.len() - 1].0@ != name);
    }
}

/// Replacing the style of an existing name in a table without repeated names is
/// an insert into its map.
proof fn lemma_table_replace(t: Seq<(String, SpanStyle)>, k: int, e: (String, SpanStyle))
    requires
        names_unique(t),
        0 <= k < t.len(),
        t[k].0@ == e.0@,
    ensures
        names_unique(t.update(k, e)),
        table_map(t.update(k, e)) == table_map(t).insert(e.0@, e.1),
    decreases t.len(),
{
    let u = t.update(k, e);
    assert forall|i: int, j: int|
        #![trigger u[i], u[j]]
        0 <= i < u.len() && 0 <= j < u.len() && i != j implies u[i].0@ != u[j].0@ by {
        assert(t[i].0@ != t[j].0@);
    }
    if k == t.len() - 1 {
        assert(u.drop_last() =~= t.drop_last());
    } else {
        let d = t.drop_last();
        lemma_table_replace(d, k, e);
        assert(u.drop_last() =~= d.update(k, e));
        assert(t.last().0@ != e.0@);
    }
    assert(table_map(u) =~= table_map(t).insert(e.0@, e.1));
}

/// Adds or replaces the style of `name` in a table without repeated names.
fn table_insert(t: &mut Vec<(String, SpanStyle)>, name: String, style: SpanStyle)
    requires
        names_unique(old(t)@),
    ensures
        names_unique(final(t)@),
        table_map(final(t)@) == table_map(old(t)@).insert(name@, style),
{
    let n = t.len();
    for i in 0..n
        invariant
            n == t.len(),
            t@ == old(t)@,
            names_unique(t@),
            forall|j: int| 0 <= j < i ==> (#[trigger] t@[j]).0@ != name@,
    {
        if t[i].0 == name {
            proof {
                lemma_table_replace(t@, i as int, (name, style));
            }
            t.set(i, (name, style));
            return;
        }
    }
    proof {
        let tt = t@.push((name, style));
        assert forall|i: int, j: int|
            #![trigger tt[i], tt[j]]
            0 <= i < tt.len() && 0 <= j < tt.len() && i != j implies tt[i].0@ != tt[j].0@ by {
            if i < t@.len() && j < t@.len() {
                assert(t@[i] == tt[i] && t@[j] == tt[j]);
            } else if i < t@.len() {
                assert(t@[i] == tt[i]);
            } else {
                assert(t@[j] == tt[j]);
            }
        }
        assert(tt.drop_last() =~= t@);
    }
    t.push((name, style));
}

/// The style registered under `name`, if any (a copy).
fn table_get(t: &Vec<(String, SpanStyle)>, name: &String) -> (r: Option<SpanStyle>)
    requires
        names_unique(t@),
    ensures
        r is Some <==> table_map(t@).contains_key(name@),
        r matches Some(st) ==> st == table_map(t@)[name@],
{
    let n = t.len();
    for i in 0..n
        invariant
            n == t.len(),
            names_unique(t@),
            forall|j: int| 0 <= j < i ==> (#[trigger] t@[j]).0@ != name@,
    {
        if t[i].0 == *name {
            proof {
                lemma_table_lookup(t@, i as int);
            }
            return Some(copy_style(&t[i].1));
        }
    }
    proof {
        lemma_table_absent(t@, name@);
    }
    None
}

/// A rich-text document: blocks and a table of named styles.
pub struct RichDoc {
    blocks: Vec<RichBlock>,
    styles: Vec<(String, SpanStyle)>,
}

impl RichDoc {
    #[verifier::type_invariant]
    spec fn inv(self) -> bool {
        names_unique(self.styles@)
    }

    /// The blocks, in order.
    pub closed spec fn blocks(self) -> Seq<RichBlock> {
        self.blocks@
    }

    /// The named styles: each registered name to its style.
    pub closed spec fn style_map(self) -> Map<Seq<char>, SpanStyle> {
        table_map(self.styles@)
    }

    pub fn new() -> (d: Self)
        ensures
            d.blocks() == Seq::<RichBlock>::empty(),
            d.style_map() == Map::<Seq<char>, SpanStyle>::empty(),
    {
        RichDoc { blocks: Vec::new(), styles: Vec::new() }
    }

    /// The blocks (borrowed).
    pub fn block_list(&self) -> (b: &Vec<RichBlock>)
        ensures
            b@ == self.blocks(),
    {
        &self.blocks
    }

    /// The style registered under `name`; an unregistered name has none.
    pub fn named_style(&self, name: &String) -> (r: Option<SpanStyle>)
        ensures
            r is Some <==> self.style_map().contains_key(name@),
            r matches Some(st) ==> st == self.style_map()[name@],
    {
        proof {
            use_type_invariant(self);
        }
        table_get(&self.styles, name)
    }

    /// Registers a named style; a later registration of the same name replaces
    /// the earlier one. Spans refer to it with [`Para::styled`].
    pub fn style(self, name: String, style: SpanStyle) -> (d: Self)
        ensures
            d.blocks() == self.blocks(),
            d.style_map() == self.style_map().insert(name@, style),
    {
        proof {
            use_type_invariant(&self);
        }
        let RichDoc { blocks, mut styles } = self;
        table_insert(&mut styles, name, style);
        RichDoc { blocks, styles }
    }

    /// Appends a paragraph.
    pub fn para(self, p: Para) -> (d: Self)
        ensures
            d.blocks() == self.blocks().push(RichBlock::Para(p)),
            d.style_map() == self.style_map(),
    {
        proof {
            use_type_invariant(&self);
        }
        let RichDoc { mut blocks, styles } = self;
        blocks.push(RichBlock::Para(p));
        RichDoc { blocks, styles }
    }

    /// Appends a divider (a thin line across the widget).
    pub fn divider(self) -> (d: Self)
        ensures
            d.blocks() == self.blocks().push(RichBlock::Divider),
            d.style_map() == self.style_map(),
    {
        proof {
            use_type_invariant(&self);
        }
        let RichDoc { mut blocks, styles } = self;
        blocks.push(RichBlock::Divider);
        RichDoc { blocks, styles }
    }

    /// Appends a collapsible section. Its children are built by `children` from an
    /// empty document; their named styles join this document's table, and where a
    /// name is in both, the child's style wins.
    pub fn section<F: FnOnce(RichDoc) -> RichDoc>(self, header: Para, collapsed: Signal<bool>, children: F) -> (d: Self)
        requires
            forall|e: RichDoc| e.blocks().len() == 0 && e.style_map().is_empty() ==> call_requires(children, (e,)),
        ensures
            exists|e: RichDoc, inner: RichDoc|
                {
                    &&& e.blocks().len() == 0
                    &&& e.style_map().is_empty()
                    &&& call_ensures(children, (e,), inner)
                    &&& d.blocks().len() == self.blocks().len() + 1
                    &&& d.blocks().drop_last() == self.blocks()
                    &&& (d.blocks().last() matches RichBlock::Section(sec) && sec.header == header
                        && sec.children@ == inner.blocks() && sec.collapsed == collapsed)
                    &&& d.style_map() == self.style_map().union_prefer_right(inner.style_map())
                },
    {
        proof {
            use_type_invariant(&self);
        }
        let e = RichDoc::new();
        let inner = children(e);
        let ghost inner_v = inner;
        proof {
            use_type_invariant(&inner);
        }
        let RichDoc { blocks: inner_blocks, styles: inner_styles } = inner;
        let RichDoc { mut blocks, mut styles } = self;
        let ghost base = table_map(styles@);
        let n = inner_styles.len();
        proof {
            assert(table_map(inner_styles@.take(0)) =~= Map::empty());
            assert(base.union_prefer_right(Map::empty()) =~= base);
        }
        // The child's entries are inserted in order; a name in both ends with the
        // child's style.
        for k in 0..n
            invariant
                n == inner_styles.len(),
                names_unique(styles@),
                table_map(styles@) == base.union_prefer_right(table_map(inner_styles@.take(k as int))),
        {
            let ghost before = table_map(inner_styles@.take(k as int));
            let name = inner_styles[k].0.clone();
            let st = copy_style(&inner_styles[k].1);
            table_insert(&mut styles, name, st);
            proof {
                assert(inner_styles@.take(k + 1).drop_last() =~= inner_styles@.take(k as int));
                assert(table_map(inner_styles@.take(k + 1)) == before.insert(
                    inner_styles@[k as int].0@,
                    inner_styles@[k as int].1,
                ));
                assert(base.union_prefer_right(before).insert(
                    inner_styles@[k as int].0@,
                    inner_styles@[k as int].1,
                ) =~= base.union_prefer_right(
                    before.insert(inner_styles@[k as int].0@, inner_styles@[k as int].1),
                ));
            }
        }
        proof {
            assert(inner_styles@.take(n as int) =~= inner_styles@);
        }
        blocks.push(RichBlock::Section(Section { header, children: inner_blocks, collapsed }));
        let d = RichDoc { blocks, styles };
        proof {
            assert(d.blocks().drop_last() =~= self.blocks());
            assert(d.style_map() == self.style_map().union_prefer_right(inner_v.style_map()));
        }
        d
    }
}

impl Clone for RichDoc {
    /// A deep copy: the same blocks (sections keep sharing their state signals) and
    /// the same named styles.
    fn clone(&self) -> (d: Self)
        ensures
            same_blocks(self.blocks(), d.blocks()),
            d.style_map() == self.style_map(),
    {
        proof {
            use_type_invariant(self);
        }
        let blocks = copy_blocks(&self.blocks);
        let mut styles: Vec<(String, SpanStyle)> = Vec::new();
        let n = self.styles.len();
        for i in 0..n
            invariant
                n == self.styles.len(),
                styles@ == self.styles@.take(i as int),
        {
            styles.push((self.styles[i].0.clone(), copy_style(&self.styles[i].1)));
            proof {
                assert(styles@ =~= self.styles@.take(i + 1));
            }
        }
        proof {
            assert(self.styles@.take(n as int) =~= self.styles@);
        }
        RichDoc { blocks, styles }
    }
}

impl Default for RichDoc {
    fn default() -> (d: Self)
        ensures
            d.blocks() == Seq::<RichBlock>::empty(),
            d.style_map() == Map::<Seq<char>, SpanStyle>::empty(),
    {
        RichDoc::new()
    }
}

} // verus!
