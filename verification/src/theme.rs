//! Colour roles of the theme palette and the semantic colours of rich text.

use vstd::prelude::*;
use crate::geometry::Color;

verus! {

/// The palette colours that the widgets of this crate read.
#[derive(Clone, Copy, Debug, PartialEq, Eq, Structural)]
pub struct Palette {
    pub text: Color,
    pub text_muted: Color,
    pub text_disabled: Color,
    pub accent: Color,
    pub danger: Color,
    pub surface_alt: Color,
    pub divider: Color,
}

/// Colours of the collapsed dropdown.
#[derive(Clone, Copy, Debug, PartialEq, Eq, Structural)]
pub struct DropdownTheme {
    pub bg: Color,
    pub text: Color,
    pub chevron: Color,
    pub border: Color,
    pub border_focus: Color,
}

/// Chrome of the rich-text widget: colours of chips, disclosure arrows and
/// dividers, and its spacing.
#[derive(Clone, Copy, Debug, PartialEq, Eq, Structural)]
pub struct RichTheme {
    pub chip_bg: Color,
    pub chip_fg: Color,
    pub chevron: Color,
    pub divider: Color,
    /// Space between blocks.
    pub para_spacing: i32,
    /// Extra indent of a section's children.
    pub section_indent: i32,
}

/// Semantic intent of a badge: the built-in primary, neutral and danger roles,
/// or a colour of the caller's own.
#[derive(Clone, Copy, Debug, PartialEq, Eq, Structural)]
pub enum Intent {
    Primary,
    Neutral,
    Danger,
    Custom(Color),
}

/// Rich-text colour: a palette role, resolved when painting so that a theme
/// change is followed, or a fixed colour.
#[derive(Clone, Copy, Debug, PartialEq, Eq, Structural)]
pub enum RichColor {
    /// Body text (`palette.text`).
    Text,
    /// Secondary text (`palette.text_muted`).
    Muted,
    /// Accent (`palette.accent`).
    Accent,
    /// Danger (`palette.danger`).
    Danger,
    /// A fixed colour that does not follow the theme.
    Fixed(Color),
}

impl RichColor {
    /// The colour that `self` stands for under palette `p`.
    pub open spec fn spec_resolve(self, p: Palette) -> Color {
        match self {
            RichColor::Text => p.text,
            RichColor::Muted => p.text_muted,
            RichColor::Accent => p.accent,
            RichColor::Danger => p.danger,
            RichColor::Fixed(c) => c,
        }
    }

    pub fn resolve(self, p: &Palette) -> (c: Color)
        ensures
            c == self.spec_resolve(*p),
    {
        match self {
            RichColor::Text => p.text,
            RichColor::Muted => p.text_muted,
            RichColor::Accent => p.accent,
            RichColor::Danger => p.danger,
            RichColor::Fixed(c) => c,
        }
    }
}

impl From<Color> for RichColor {
    fn from(c: Color) -> (r: RichColor) {
        RichColor::Fixed(c)
    }
}

impl vstd::std_specs::convert::FromSpecImpl<Color> for RichColor {
    open spec fn obeys_from_spec() -> bool {
        true
    }

    open spec fn from_spec(c: Color) -> RichColor {
        RichColor::Fixed(c)
    }
}

/// Each role resolves to its own colour of the palette.
pub proof fn lemma_roles_resolve(p: Palette)
    ensures
        RichColor::Text.spec_resolve(p) == p.text,
        RichColor::Muted.spec_resolve(p) == p.text_muted,
        RichColor::Accent.spec_resolve(p) == p.accent,
        RichColor::Danger.spec_resolve(p) == p.danger,
{
}

/// A fixed colour resolves to itself under every palette; a role never depends on
/// anything but the palette.
pub proof fn lemma_fixed_color_ignores_palette(c: Color, p: Palette, q: Palette)
    ensures
        RichColor::Fixed(c).spec_resolve(p) == c,
        RichColor::Fixed(c).spec_resolve(p) == RichColor::Fixed(c).spec_resolve(q),
{
}

} // verus!
