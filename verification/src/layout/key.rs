//! The key under which a layout is cached.

use vstd::prelude::*;
use crate::layout::resolve::BaseStyle;

verus! {

/// What a cached layout depends on: available width, the base font, the
/// sections' collapse states in flow order, and the theme's paragraph spacing and
/// section indent. Colours are not part of it: they are resolved when painting,
/// so a theme change of colours keeps the layout.
pub struct LayoutKey {
    pub wrap_w: Option<i32>,
    pub family: Option<String>,
    pub size_bits: u32,
    pub weight: u16,
    pub line_height_bits: Option<u32>,
    pub collapsed: Vec<bool>,
    pub spacing: (i32, i32),
}

/// The content of a key, compared as values.
pub open spec fn key_view(k: LayoutKey) -> (Option<i32>, Option<Seq<char>>, u32, u16, Option<u32>, Seq<bool>, (i32, i32)) {
    (
        k.wrap_w,
        match k.family {
            Some(f) => Some(f@),
            None => None,
        },
        k.size_bits,
        k.weight,
        k.line_height_bits,
        k.collapsed@,
        k.spacing,
    )
}

impl LayoutKey {
    /// The key of a layout at `wrap_w` in `base`, with the collapse states read
    /// for the layout and the theme's (paragraph spacing, section indent).
    pub fn new(wrap_w: Option<i32>, base: &BaseStyle, collapsed: Vec<bool>, spacing: (i32, i32)) -> (k: Self)
        ensures
            k.wrap_w == wrap_w,
            k.family == base.font_family,
            k.size_bits == base.font_size,
            k.weight == base.font_weight,
            k.line_height_bits == base.line_height,
            k.collapsed == collapsed,
            k.spacing == spacing,
    {
        let family = match &base.font_family {
            Some(f) => Some(f.clone()),
            None => None,
        };
        LayoutKey {
            wrap_w,
            family,
            size_bits: base.font_size,
            weight: base.font_weight,
            line_height_bits: base.line_height,
            collapsed,
            spacing,
        }
    }

    /// A cached layout made for `other` serves `self` exactly when the keys hold
    /// the same values.
    pub fn same(&self, other: &LayoutKey) -> (b: bool)
        ensures
            b == (key_view(*self) == key_view(*other)),
    {
        let fam = match (&self.family, &other.family) {
            (Some(a), Some(b)) => *a == *b,
            (None, None) => true,
            _ => false,
        };
        if !(self.wrap_w == other.wrap_w && fam && self.size_bits == other.size_bits && self.weight
            == other.weight && self.line_height_bits == other.line_height_bits && self.spacing.0
            == other.spacing.0 && self.spacing.1 == other.spacing.1) {
            return false;
        }
        if self.collapsed.len() != other.collapsed.len() {
            proof {
                assert(self.collapsed@.len() != other.collapsed@.len());
            }
            return false;
        }
        let n = self.collapsed.len();
        for i in 0..n
            invariant
                n == self.collapsed.len(),
                n == other.collapsed.len(),
                forall|j: int| 0 <= j < i ==> self.collapsed@[j] == other.collapsed@[j],
        {
            if self.collapsed[i] != other.collapsed[i] {
                return false;
            }
        }
        proof {
            assert(self.collapsed@ =~= other.collapsed@);
        }
        true
    }
}

/// Whether a layout must be made again: there is none cached, or the cached one
/// was made for a key that holds other values.
pub fn needs_relayout(cached: Option<&LayoutKey>, key: &LayoutKey) -> (b: bool)
    ensures
        b == (match cached {
            Some(c) => key_view(*c) != key_view(*key),
            None => true,
        }),
{
    match cached {
        Some(c) => !c.same(key),
        None => true,
    }
}

} // verus!
