//! Color references stored in a cell.
//!
//! A color is either "use the terminal default", an 8-bit palette index,
//! or a full RGB value.  The first two forms are compact enough to live
//! inline in every cell; an RGB value is an overflow-only extra.

use vstd::prelude::*;

verus! {

/// An index into the terminal's 256-entry color palette.
pub type PaletteIndex = u8;

/// A full-color RGB triple; one byte per channel.
#[derive(Debug, Clone, Copy, PartialEq, Eq, Structural)]
pub struct RgbColor {
    pub red: u8,
    pub green: u8,
    pub blue: u8,
}

/// A color reference as the renderer sees it.
#[derive(Debug, Clone, Copy, PartialEq, Eq, Structural)]
pub enum ColorAttribute {
    /// Use the terminal's configured default color.
    Default,
    /// Use an entry of the terminal's color palette.
    PaletteIndex(PaletteIndex),
    /// Use a full RGB color; this form does not fit in the inline slots.
    TrueColor(RgbColor),
}

impl ColorAttribute {
    /// Whether this color fits in a cell's inline compact slot.
    pub open spec fn is_compact(self) -> bool {
        self is Default || self is PaletteIndex
    }
}

/// The compact two-state color form stored inline in every cell.
#[derive(Debug, Clone, Copy, PartialEq, Eq, Structural)]
pub(crate) enum SmallColor {
    Default,
    PaletteIndex(PaletteIndex),
}

impl SmallColor {
    pub(crate) open spec fn as_color_attribute(self) -> ColorAttribute {
        match self {
            SmallColor::Default => ColorAttribute::Default,
            SmallColor::PaletteIndex(idx) => ColorAttribute::PaletteIndex(idx),
        }
    }

    pub(crate) fn to_color_attribute(self) -> (r: ColorAttribute)
        ensures
            r == self.as_color_attribute(),
    {
        match self {
            SmallColor::Default => ColorAttribute::Default,
            SmallColor::PaletteIndex(idx) => ColorAttribute::PaletteIndex(idx),
        }
    }
}

} // verus!
