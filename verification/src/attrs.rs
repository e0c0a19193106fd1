//! The attribute record of a cell.
//!
//! Common style state lives in a packed 16-bit field plus two inline
//! compact color slots, so the record costs two machine words on a
//! 64-bit target; growing it is a design regression, not a
//! performance nit.  Rare extras (hyperlink, attached images, underline
//! color, extended colors) spill into a lazily allocated overflow block.
//! The allocation invariant: the overflow block exists exactly when one
//! of its fields is non-default; every mutator restores it.
//!
//! Bit layout of the packed field: intensity in bits 0-1, underline
//! style in bits 2-4, blink in bits 5-6, then one bit each for italic
//! (7), reverse (8), strikethrough (9), invisible (10), line-wrapped
//! (11) and overline (12), and the semantic classification in bits
//! 13-14.  Bit 15 stays clear.

use std::sync::Arc;
use vstd::prelude::*;

use crate::color::{ColorAttribute, SmallColor};
use crate::hyperlink::Hyperlink;
use crate::image::ImageCell;

verus! {

/// Describes the semantic "type" of the cell: output produced by the
/// running application (the default), input typed by the user, or
/// prompt chrome drawn by the shell.
#[derive(Debug, Clone, Copy, PartialEq, Eq, PartialOrd, Ord, Structural)]
pub enum SemanticType {
    Output,
    Input,
    Prompt,
}

impl Default for SemanticType {
    fn default() -> (r: Self)
        ensures
            r == SemanticType::Output,
    {
        SemanticType::Output
    }
}

/// The boldness of a cell; terminals render `Half` as a dimmer variant.
#[derive(Debug, Clone, Copy, PartialEq, Eq, Structural)]
pub enum Intensity {
    Normal,
    Bold,
    Half,
}

impl Default for Intensity {
    fn default() -> (r: Self)
        ensures
            r == Intensity::Normal,
    {
        Intensity::Normal
    }
}

/// Specify just how underlined you want your cell to be.
#[derive(Debug, Clone, Copy, PartialEq, Eq, Hash, Structural)]
pub enum Underline {
    NoUnderline,
    Single,
    Double,
    Curly,
    Dotted,
    Dashed,
}

impl Default for Underline {
    fn default() -> (r: Self)
        ensures
            r == Underline::NoUnderline,
    {
        Underline::NoUnderline
    }
}

/// Whether the cell blinks, and how urgently.
#[derive(Debug, Clone, Copy, PartialEq, Eq, Structural)]
pub enum Blink {
    NoBlink,
    Slow,
    Rapid,
}

impl Default for Blink {
    fn default() -> (r: Self)
        ensures
            r == Blink::NoBlink,
    {
        Blink::NoBlink
    }
}

/// The logical value of the packed bitfield, one field per style.
pub struct StyleBits {
    pub intensity: Intensity,
    pub underline: Underline,
    pub blink: Blink,
    pub italic: bool,
    pub reverse: bool,
    pub strikethrough: bool,
    pub invisible: bool,
    pub wrapped: bool,
    pub overline: bool,
    pub semantic: SemanticType,
}

/// The logical value of the overflow block; all five fields default
/// when the block is absent.
pub struct OverflowBits {
    pub hyperlink: Option<Arc<Hyperlink>>,
    pub images: Seq<ImageCell>,
    pub underline_color: ColorAttribute,
    pub foreground: ColorAttribute,
    pub background: ColorAttribute,
}

pub open spec fn spec_default_overflow() -> OverflowBits {
    OverflowBits {
        hyperlink: None,
        images: Seq::empty(),
        underline_color: ColorAttribute::Default,
        foreground: ColorAttribute::Default,
        background: ColorAttribute::Default,
    }
}

pub open spec fn spec_default_style() -> StyleBits {
    StyleBits {
        intensity: Intensity::Normal,
        underline: Underline::NoUnderline,
        blink: Blink::NoBlink,
        italic: false,
        reverse: false,
        strikethrough: false,
        invisible: false,
        wrapped: false,
        overline: false,
        semantic: SemanticType::Output,
    }
}

pub open spec fn spec_intensity_of_bits(bits: u16) -> Intensity {
    let v = bits & 0x3;
    if v == 1 {
        Intensity::Bold
    } else if v == 2 {
        Intensity::Half
    } else {
        Intensity::Normal
    }
}

pub open spec fn spec_underline_of_bits(bits: u16) -> Underline {
    let v = (bits >> 2) & 0x7;
    if v == 1 {
        Underline::Single
    } else if v == 2 {
        Underline::Double
    } else if v == 3 {
        Underline::Curly
    } else if v == 4 {
        Underline::Dotted
    } else if v == 5 {
        Underline::Dashed
    } else {
        Underline::NoUnderline
    }
}

pub open spec fn spec_blink_of_bits(bits: u16) -> Blink {
    let v = (bits >> 5) & 0x3;
    if v == 1 {
        Blink::Slow
    } else if v == 2 {
        Blink::Rapid
    } else {
        Blink::NoBlink
    }
}

pub open spec fn spec_semantic_of_bits(bits: u16) -> SemanticType {
    let v = (bits >> 13) & 0x3;
    if v == 1 {
        SemanticType::Input
    } else if v == 2 {
        SemanticType::Prompt
    } else {
        SemanticType::Output
    }
}

pub open spec fn spec_style_of_bits(bits: u16) -> StyleBits {
    StyleBits {
        intensity: spec_intensity_of_bits(bits),
        underline: spec_underline_of_bits(bits),
        blink: spec_blink_of_bits(bits),
        italic: bits & 0x0080 == 0x0080,
        reverse: bits & 0x0100 == 0x0100,
        strikethrough: bits & 0x0200 == 0x0200,
        invisible: bits & 0x0400 == 0x0400,
        wrapped: bits & 0x0800 == 0x0800,
        overline: bits & 0x1000 == 0x1000,
        semantic: spec_semantic_of_bits(bits),
    }
}

/// Every multi-bit field stays inside its value range and the spare top
/// bit stays clear, so equal logical styles pack to equal bits.
pub open spec fn spec_bits_canonical(bits: u16) -> bool {
    &&& bits & 0x3 != 3
    &&& (bits >> 2) & 0x7 <= 5
    &&& (bits >> 5) & 0x3 != 3
    &&& (bits >> 13) & 0x3 != 3
    &&& (bits >> 15) & 0x1 == 0
}

/// Image attachments stay ordered by ascending z-index.
pub open spec fn spec_images_sorted(images: Seq<ImageCell>) -> bool {
    forall|i: int, j: int|
        0 <= i < j < images.len() ==> #[trigger] images[i].z_index <= #[trigger] images[j].z_index
}

/// The position where a new attachment with the given z-index goes: past
/// every entry at the same or a lower z-index, so that earlier equal
/// attachments keep their place before the new one.
pub open spec fn spec_insert_index(images: Seq<ImageCell>, z: i32) -> int
    decreases images.len(),
{
    if images.len() == 0 {
        0
    } else if images[0].z_index <= z {
        1 + spec_insert_index(images.drop_first(), z)
    } else {
        0
    }
}

proof fn lemma_insert_index_bounds(images: Seq<ImageCell>, z: i32)
    ensures
        0 <= spec_insert_index(images, z) <= images.len(),
    decreases images.len(),
{
    if images.len() > 0 && images[0].z_index <= z {
        lemma_insert_index_bounds(images.drop_first(), z);
    }
}

/// On a sorted list, the insertion point is pinned down by "everything
/// before it is at or below the new z-index, everything after is above".
proof fn lemma_insert_index_characterization(images: Seq<ImageCell>, z: i32, idx: int)
    requires
        spec_images_sorted(images),
        0 <= idx <= images.len(),
        forall|k: int| 0 <= k < idx ==> #[trigger] images[k].z_index <= z,
        forall|k: int| idx <= k < images.len() ==> #[trigger] images[k].z_index > z,
    ensures
        spec_insert_index(images, z) == idx,
    decreases images.len(),
{
    if images.len() > 0 {
        if images[0].z_index <= z {
            assert(idx > 0);
            let rest = images.drop_first();
            assert forall|k: int| 0 <= k < idx - 1 implies #[trigger] rest[k].z_index <= z by {
                assert(rest[k] == images[k + 1]);
            }
            assert forall|k: int| idx - 1 <= k < rest.len() implies #[trigger] rest[k].z_index
                > z by {
                assert(rest[k] == images[k + 1]);
            }
            lemma_insert_index_characterization(rest, z, idx - 1);
        } else {
            assert(idx == 0);
        }
    }
}

#[derive(Debug, Clone, PartialEq, Eq)]
struct FatAttributes {
    hyperlink: Option<Arc<Hyperlink>>,
    image: Vec<ImageCell>,
    underline_color: ColorAttribute,
    foreground: ColorAttribute,
    background: ColorAttribute,
}

/// Holds the attributes for a cell.  Most style attributes live in the
/// packed bitfield; rarely used attributes spill over to the heap
/// allocated overflow block so the record stays small in the common
/// case.  The setter methods return a mutable self reference so that
/// they can be chained together.
#[derive(Debug, Clone, PartialEq, Eq)]
pub struct CellAttributes {
    attributes: u16,
    foreground: SmallColor,
    background: SmallColor,
    fat: Option<Box<FatAttributes>>,
}

impl CellAttributes {
    /// The raw packed bitfield.
    pub closed spec fn spec_bits(self) -> u16 {
        self.attributes
    }

    /// The logical value of the packed bitfield.
    pub open spec fn style_view(self) -> StyleBits {
        spec_style_of_bits(self.spec_bits())
    }

    /// Whether the overflow block is currently allocated.
    pub closed spec fn has_overflow(self) -> bool {
        self.fat is Some
    }

    /// The logical value of the overflow block; all defaults when the
    /// block is absent.
    pub closed spec fn overflow_view(self) -> OverflowBits {
        match self.fat {
            Some(f) => OverflowBits {
                hyperlink: f.hyperlink,
                images: f.image@,
                underline_color: f.underline_color,
                foreground: f.foreground,
                background: f.background,
            },
            None => spec_default_overflow(),
        }
    }

    pub closed spec fn inline_foreground_view(self) -> ColorAttribute {
        self.foreground.as_color_attribute()
    }

    pub closed spec fn inline_background_view(self) -> ColorAttribute {
        self.background.as_color_attribute()
    }

    /// The effective foreground color: the extended overflow slot when
    /// it is set, else the inline compact slot.
    pub open spec fn foreground_view(self) -> ColorAttribute {
        if self.overflow_view().foreground != ColorAttribute::Default {
            self.overflow_view().foreground
        } else {
            self.inline_foreground_view()
        }
    }

    /// The effective background color, like `foreground_view`.
    pub open spec fn background_view(self) -> ColorAttribute {
        if self.overflow_view().background != ColorAttribute::Default {
            self.overflow_view().background
        } else {
            self.inline_background_view()
        }
    }

    pub open spec fn hyperlink_view(self) -> Option<Arc<Hyperlink>> {
        self.overflow_view().hyperlink
    }

    pub open spec fn images_view(self) -> Seq<ImageCell> {
        self.overflow_view().images
    }

    pub open spec fn underline_color_view(self) -> ColorAttribute {
        self.overflow_view().underline_color
    }

    /// Well-formedness: the bitfield is canonical, the overflow block is
    /// allocated exactly when one of its fields is non-default, and the
    /// attached images are ordered by z-index.
    pub closed spec fn wf(self) -> bool {
        &&& spec_bits_canonical(self.attributes)
        &&& (self.fat is Some ==> self.overflow_view() != spec_default_overflow())
        &&& spec_images_sorted(self.images_view())
    }

    /// The overflow-allocation invariant, as the renderer observes it: a
    /// well-formed record holds the overflow block exactly when one of
    /// the five overflow-only fields is non-default.
    pub proof fn lemma_overflow_iff_needed(self)
        requires
            self.wf(),
        ensures
            self.has_overflow() <==> (self.hyperlink_view() is Some || self.images_view().len() > 0
                || self.underline_color_view() != ColorAttribute::Default
                || self.overflow_view().foreground != ColorAttribute::Default
                || self.overflow_view().background != ColorAttribute::Default),
    {
        if self.has_overflow() {
            if self.hyperlink_view() is None && self.images_view().len() == 0
                && self.underline_color_view() == ColorAttribute::Default
                && self.overflow_view().foreground == ColorAttribute::Default
                && self.overflow_view().background == ColorAttribute::Default {
                assert(self.images_view() =~= Seq::empty());
                assert(self.overflow_view() == spec_default_overflow());
            }
        }
    }

    /// A fresh record: default style, default colors, no overflow block.
    pub fn blank() -> (r: Self)
        ensures
            r.wf(),
            !r.has_overflow(),
            r.style_view() == spec_default_style(),
            r.overflow_view() == spec_default_overflow(),
            r.foreground_view() == ColorAttribute::Default,
            r.background_view() == ColorAttribute::Default,
    {
        let r = CellAttributes {
            attributes: 0,
            foreground: SmallColor::Default,
            background: SmallColor::Default,
            fat: None,
        };
        proof {
            assert(0u16 & 0x3 == 0 && (0u16 >> 2) & 0x7 == 0 && (0u16 >> 5) & 0x3 == 0 && 0u16
                & 0x0080 == 0 && 0u16 & 0x0100 == 0 && 0u16 & 0x0200 == 0 && 0u16 & 0x0400 == 0
                && 0u16 & 0x0800 == 0 && 0u16 & 0x1000 == 0 && (0u16 >> 13) & 0x3 == 0 && (0u16
                >> 15) & 0x1 == 0) by (bit_vector);
        }
        r
    }

    /// Returns true if the attribute bits in both objects are equal.
    /// This cheaply tests whether the styles of two cells are the same;
    /// renderers use it to find style-run boundaries.  It deliberately
    /// ignores the overflow contents, so it is not full equality.
    pub fn attribute_bits_equal(&self, other: &Self) -> (r: bool)
        ensures
            r == (self.spec_bits() == other.spec_bits()),
            self.wf() && other.wf() ==> r == (self.style_view() == other.style_view()),
    {
        proof {
            if self.wf() && other.wf() {
                lemma_canonical_bits_determined_by_style(self.attributes, other.attributes);
            }
        }
        self.attributes == other.attributes
    }

    pub fn intensity(&self) -> (r: Intensity)
        ensures
            r == self.style_view().intensity,
    {
        let v = self.attributes & 0x3;
        if v == 1 {
            Intensity::Bold
        } else if v == 2 {
            Intensity::Half
        } else {
            Intensity::Normal
        }
    }

    pub fn underline(&self) -> (r: Underline)
        ensures
            r == self.style_view().underline,
    {
        let v = (self.attributes >> 2) & 0x7;
        if v == 1 {
            Underline::Single
        } else if v == 2 {
            Underline::Double
        } else if v == 3 {
            Underline::Curly
        } else if v == 4 {
            Underline::Dotted
        } else if v == 5 {
            Underline::Dashed
        } else {
            Underline::NoUnderline
        }
    }

    pub fn blink(&self) -> (r: Blink)
        ensures
            r == self.style_view().blink,
    {
        let v = (self.attributes >> 5) & 0x3;
        if v == 1 {
            Blink::Slow
        } else if v == 2 {
            Blink::Rapid
        } else {
            Blink::NoBlink
        }
    }

    pub fn italic(&self) -> (r: bool)
        ensures
            r == self.style_view().italic,
    {
        self.attributes & 0x0080 == 0x0080
    }

    pub fn reverse(&self) -> (r: bool)
        ensures
            r == self.style_view().reverse,
    {
        self.attributes & 0x0100 == 0x0100
    }

    pub fn strikethrough(&self) -> (r: bool)
        ensures
            r == self.style_view().strikethrough,
    {
        self.attributes & 0x0200 == 0x0200
    }

    pub fn invisible(&self) -> (r: bool)
        ensures
            r == self.style_view().invisible,
    {
        self.attributes & 0x0400 == 0x0400
    }

    pub fn wrapped(&self) -> (r: bool)
        ensures
            r == self.style_view().wrapped,
    {
        self.attributes & 0x0800 == 0x0800
    }

    pub fn overline(&self) -> (r: bool)
        ensures
            r == self.style_view().overline,
    {
        self.attributes & 0x1000 == 0x1000
    }

    pub fn semantic_type(&self) -> (r: SemanticType)
        ensures
            r == self.style_view().semantic,
    {
        let v = (self.attributes >> 13) & 0x3;
        if v == 1 {
            SemanticType::Input
        } else if v == 2 {
            SemanticType::Prompt
        } else {
            SemanticType::Output
        }
    }

    pub fn set_intensity(&mut self, value: Intensity) -> (r: &mut Self)
        requires
            old(self).wf(),
        ensures
            r.wf(),
            r.style_view() == (StyleBits { intensity: value, ..old(self).style_view() }),
            r.overflow_view() == old(self).overflow_view(),
            r.has_overflow() == old(self).has_overflow(),
            r.foreground_view() == old(self).foreground_view(),
            r.background_view() == old(self).background_view(),
            *final (self) == *final (r),
    {
        let e: u16 = match value {
            Intensity::Normal => 0,
            Intensity::Bold => 1,
            Intensity::Half => 2,
        };
        let n = (self.attributes & !0x0003) | e;
        proof {
            lemma_set_intensity_bits(self.attributes, e, n);
        }
        self.attributes = n;
        self
    }

    pub fn set_underline(&mut self, value: Underline) -> (r: &mut Self)
        requires
            old(self).wf(),
        ensures
            r.wf(),
            r.style_view() == (StyleBits { underline: value, ..old(self).style_view() }),
            r.overflow_view() == old(self).overflow_view(),
            r.has_overflow() == old(self).has_overflow(),
            r.foreground_view() == old(self).foreground_view(),
            r.background_view() == old(self).background_view(),
            *final (self) == *final (r),
    {
        let e: u16 = match value {
            Underline::NoUnderline => 0,
            Underline::Single => 1,
            Underline::Double => 2,
            Underline::Curly => 3,
            Underline::Dotted => 4,
            Underline::Dashed => 5,
        };
        let n = (self.attributes & !0x001C) | (e << 2);
        proof {
            lemma_set_underline_bits(self.attributes, e, n);
        }
        self.attributes = n;
        self
    }

    pub fn set_blink(&mut self, value: Blink) -> (r: &mut Self)
        requires
            old(self).wf(),
        ensures
            r.wf(),
            r.style_view() == (StyleBits { blink: value, ..old(self).style_view() }),
            r.overflow_view() == old(self).overflow_view(),
            r.has_overflow() == old(self).has_overflow(),
            r.foreground_view() == old(self).foreground_view(),
            r.background_view() == old(self).background_view(),
            *final (self) == *final (r),
    {
        let e: u16 = match value {
            Blink::NoBlink => 0,
            Blink::Slow => 1,
            Blink::Rapid => 2,
        };
        let n = (self.attributes & !0x0060) | (e << 5);
        proof {
            lemma_set_blink_bits(self.attributes, e, n);
        }
        self.attributes = n;
        self
    }

    pub fn set_italic(&mut self, value: bool) -> (r: &mut Self)
        requires
            old(self).wf(),
        ensures
            r.wf(),
            r.style_view() == (StyleBits { italic: value, ..old(self).style_view() }),
            r.overflow_view() == old(self).overflow_view(),
            r.has_overflow() == old(self).has_overflow(),
            r.foreground_view() == old(self).foreground_view(),
            r.background_view() == old(self).background_view(),
            *final (self) == *final (r),
    {
        let e: u16 = if value {
            0x0080
        } else {
            0
        };
        let n = (self.attributes & !0x0080) | e;
        proof {
            lemma_set_flag_bits(self.attributes, 0x0080, e, n);
        }
        self.attributes = n;
        self
    }

    pub fn set_reverse(&mut self, value: bool) -> (r: &mut Self)
        requires
            old(self).wf(),
        ensures
            r.wf(),
            r.style_view() == (StyleBits { reverse: value, ..old(self).style_view() }),
            r.overflow_view() == old(self).overflow_view(),
            r.has_overflow() == old(self).has_overflow(),
            r.foreground_view() == old(self).foreground_view(),
            r.background_view() == old(self).background_view(),
            *final (self) == *final (r),
    {
        let e: u16 = if value {
            0x0100
        } else {
            0
        };
        let n = (self.attributes & !0x0100) | e;
        proof {
            lemma_set_flag_bits(self.attributes, 0x0100, e, n);
        }
        self.attributes = n;
        self
    }

    pub fn set_strikethrough(&mut self, value: bool) -> (r: &mut Self)
        requires
            old(self).wf(),
        ensures
            r.wf(),
            r.style_view() == (StyleBits { strikethrough: value, ..old(self).style_view() }),
            r.overflow_view() == old(self).overflow_view(),
            r.has_overflow() == old(self).has_overflow(),
            r.foreground_view() == old(self).foreground_view(),
            r.background_view() == old(self).background_view(),
            *final (self) == *final (r),
    {
        let e: u16 = if value {
            0x0200
        } else {
            0
        };
        let n = (self.attributes & !0x0200) | e;
        proof {
            lemma_set_flag_bits(self.attributes, 0x0200, e, n);
        }
        self.attributes = n;
        self
    }

    pub fn set_invisible(&mut self, value: bool) -> (r: &mut Self)
        requires
            old(self).wf(),
        ensures
            r.wf(),
            r.style_view() == (StyleBits { invisible: value, ..old(self).style_view() }),
            r.overflow_view() == old(self).overflow_view(),
            r.has_overflow() == old(self).has_overflow(),
            r.foreground_view() == old(self).foreground_view(),
            r.background_view() == old(self).background_view(),
            *final (self) == *final (r),
    {
        let e: u16 = if value {
            0x0400
        } else {
            0
        };
        let n = (self.attributes & !0x0400) | e;
        proof {
            lemma_set_flag_bits(self.attributes, 0x0400, e, n);
        }
        self.attributes = n;
        self
    }

    pub fn set_wrapped(&mut self, value: bool) -> (r: &mut Self)
        requires
            old(self).wf(),
        ensures
            r.wf(),
            r.style_view() == (StyleBits { wrapped: value, ..old(self).style_view() }),
            r.overflow_view() == old(self).overflow_view(),
            r.has_overflow() == old(self).has_overflow(),
            r.foreground_view() == old(self).foreground_view(),
            r.background_view() == old(self).background_view(),
            *final (self) == *final (r),
    {
        let e: u16 = if value {
            0x0800
        } else {
            0
        };
        let n = (self.attributes & !0x0800) | e;
        proof {
            lemma_set_flag_bits(self.attributes, 0x0800, e, n);
        }
        self.attributes = n;
        self
    }

    pub fn set_overline(&mut self, value: bool) -> (r: &mut Self)
        requires
            old(self).wf(),
        ensures
            r.wf(),
            r.style_view() == (StyleBits { overline: value, ..old(self).style_view() }),
            r.overflow_view() == old(self).overflow_view(),
            r.has_overflow() == old(self).has_overflow(),
            r.foreground_view() == old(self).foreground_view(),
            r.background_view() == old(self).background_view(),
            *final (self) == *final (r),
    {
        let e: u16 = if value {
            0x1000
        } else {
            0
        };
        let n = (self.attributes & !0x1000) | e;
        proof {
            lemma_set_flag_bits(self.attributes, 0x1000, e, n);
        }
        self.attributes = n;
        self
    }

    pub fn set_semantic_type(&mut self, value: SemanticType) -> (r: &mut Self)
        requires
            old(self).wf(),
        ensures
            r.wf(),
            r.style_view() == (StyleBits { semantic: value, ..old(self).style_view() }),
            r.overflow_view() == old(self).overflow_view(),
            r.has_overflow() == old(self).has_overflow(),
            r.foreground_view() == old(self).foreground_view(),
            r.background_view() == old(self).background_view(),
            *final (self) == *final (r),
    {
        let e: u16 = match value {
            SemanticType::Output => 0,
            SemanticType::Input => 1,
            SemanticType::Prompt => 2,
        };
        let n = (self.attributes & !0x6000) | (e << 13);
        proof {
            lemma_set_semantic_bits(self.attributes, e, n);
        }
        self.attributes = n;
        self
    }

    fn allocate_fat_attributes(&mut self)
        ensures
            final (self).has_overflow(),
            final (self).overflow_view() == old(self).overflow_view(),
            final (self).spec_bits() == old(self).spec_bits(),
            final (self).inline_foreground_view() == old(self).inline_foreground_view(),
            final (self).inline_background_view() == old(self).inline_background_view(),
    {
        if self.fat.is_none() {
            self.fat = Some(
                Box::new(
                    FatAttributes {
                        hyperlink: None,
                        image: Vec::new(),
                        underline_color: ColorAttribute::Default,
                        foreground: ColorAttribute::Default,
                        background: ColorAttribute::Default,
                    },
                ),
            );
            proof {
                assert(self.overflow_view().images =~= old(self).overflow_view().images);
                assert(self.overflow_view() == old(self).overflow_view());
            }
        }
    }

    fn deallocate_fat_attributes_if_none(&mut self)
        ensures
            final (self).overflow_view() == old(self).overflow_view(),
            final (self).spec_bits() == old(self).spec_bits(),
            final (self).inline_foreground_view() == old(self).inline_foreground_view(),
            final (self).inline_background_view() == old(self).inline_background_view(),
            final (self).has_overflow() ==> old(self).has_overflow(),
            final (self).has_overflow() == (final (self).overflow_view()
                != spec_default_overflow()),
    {
        let deallocate = match &self.fat {
            Some(fat) => fat.image.len() == 0 && fat.hyperlink.is_none() && fat.underline_color
                == ColorAttribute::Default && fat.foreground == ColorAttribute::Default
                && fat.background == ColorAttribute::Default,
            None => false,
        };
        proof {
            if deallocate {
                assert(self.overflow_view().images =~= Seq::empty());
                assert(self.overflow_view() == spec_default_overflow());
            } else if self.fat is Some {
                if self.overflow_view() == spec_default_overflow() {
                    assert(self.overflow_view().images.len() == 0);
                    assert(false);
                }
            }
        }
        if deallocate {
            self.fat = None;
        }
    }

    /// Set the foreground color for the cell to that specified.  A
    /// compact color lands in the inline slot and clears the extended
    /// slot; anything else goes to the overflow block.
    pub fn set_foreground(&mut self, foreground: ColorAttribute) -> (r: &mut Self)
        requires
            old(self).wf(),
        ensures
            r.wf(),
            r.foreground_view() == foreground,
            r.background_view() == old(self).background_view(),
            r.style_view() == old(self).style_view(),
            r.overflow_view() == (OverflowBits {
                foreground: if foreground.is_compact() {
                    ColorAttribute::Default
                } else {
                    foreground
                },
                ..old(self).overflow_view()
            }),
            *final (self) == *final (r),
    {
        match foreground {
            ColorAttribute::Default => {
                self.foreground = SmallColor::Default;
                if let Some(fat) = self.fat.as_mut() {
                    fat.foreground = ColorAttribute::Default;
                }
                self.deallocate_fat_attributes_if_none();
            },
            ColorAttribute::PaletteIndex(idx) => {
                self.foreground = SmallColor::PaletteIndex(idx);
                if let Some(fat) = self.fat.as_mut() {
                    fat.foreground = ColorAttribute::Default;
                }
                self.deallocate_fat_attributes_if_none();
            },
            ColorAttribute::TrueColor(color) => {
                self.foreground = SmallColor::Default;
                self.allocate_fat_attributes();
                if let Some(fat) = self.fat.as_mut() {
                    fat.foreground = ColorAttribute::TrueColor(color);
                }
            },
        }
        self
    }

    /// The effective foreground color: the extended overflow slot when
    /// set, else the inline compact slot.
    pub fn foreground(&self) -> (r: ColorAttribute)
        ensures
            r == self.foreground_view(),
    {
        if let Some(fat) = self.fat.as_ref() {
            if !matches!(fat.foreground, ColorAttribute::Default) {
                return fat.foreground;
            }
        }
        self.foreground.to_color_attribute()
    }

    /// Set the background color for the cell, like `set_foreground`.
    pub fn set_background(&mut self, background: ColorAttribute) -> (r: &mut Self)
        requires
            old(self).wf(),
        ensures
            r.wf(),
            r.background_view() == background,
            r.foreground_view() == old(self).foreground_view(),
            r.style_view() == old(self).style_view(),
            r.overflow_view() == (OverflowBits {
                background: if background.is_compact() {
                    ColorAttribute::Default
                } else {
                    background
                },
                ..old(self).overflow_view()
            }),
            *final (self) == *final (r),
    {
        match background {
            ColorAttribute::Default => {
                self.background = SmallColor::Default;
                if let Some(fat) = self.fat.as_mut() {
                    fat.background = ColorAttribute::Default;
                }
                self.deallocate_fat_attributes_if_none();
            },
            ColorAttribute::PaletteIndex(idx) => {
                self.background = SmallColor::PaletteIndex(idx);
                if let Some(fat) = self.fat.as_mut() {
                    fat.background = ColorAttribute::Default;
                }
                self.deallocate_fat_attributes_if_none();
            },
            ColorAttribute::TrueColor(color) => {
                self.background = SmallColor::Default;
                self.allocate_fat_attributes();
                if let Some(fat) = self.fat.as_mut() {
                    fat.background = ColorAttribute::TrueColor(color);
                }
            },
        }
        self
    }

    /// The effective background color, like `foreground`.
    pub fn background(&self) -> (r: ColorAttribute)
        ensures
            r == self.background_view(),
    {
        if let Some(fat) = self.fat.as_ref() {
            if !matches!(fat.background, ColorAttribute::Default) {
                return fat.background;
            }
        }
        self.background.to_color_attribute()
    }

    /// Attach or clear the hyperlink.  Clearing when no overflow block
    /// exists is a no-op; otherwise the write goes through the overflow
    /// block and the allocation is re-evaluated.
    pub fn set_hyperlink(&mut self, link: Option<Arc<Hyperlink>>) -> (r: &mut Self)
        requires
            old(self).wf(),
        ensures
            r.wf(),
            r.overflow_view() == (OverflowBits { hyperlink: link, ..old(self).overflow_view() }),
            r.style_view() == old(self).style_view(),
            r.foreground_view() == old(self).foreground_view(),
            r.background_view() == old(self).background_view(),
            *final (self) == *final (r),
    {
        if link.is_none() && self.fat.is_none() {
            self
        } else {
            self.allocate_fat_attributes();
            if let Some(fat) = self.fat.as_mut() {
                fat.hyperlink = link;
            }
            self.deallocate_fat_attributes_if_none();
            self
        }
    }

    /// Assign a single image to a cell, replacing any attachments.
    pub fn set_image(&mut self, image: Box<ImageCell>) -> (r: &mut Self)
        requires
            old(self).wf(),
        ensures
            r.wf(),
            r.overflow_view() == (OverflowBits {
                images: seq![*image],
                ..old(self).overflow_view()
            }),
            r.style_view() == old(self).style_view(),
            r.foreground_view() == old(self).foreground_view(),
            r.background_view() == old(self).background_view(),
            *final (self) == *final (r),
    {
        self.allocate_fat_attributes();
        if let Some(fat) = self.fat.as_mut() {
            let mut replacement: Vec<ImageCell> = Vec::new();
            replacement.push(*image);
            fat.image = replacement;
            proof {
                assert(fat.image@ =~= seq![*image]);
            }
        }
        self
    }

    /// Clear all images from a cell.
    pub fn clear_images(&mut self) -> (r: &mut Self)
        requires
            old(self).wf(),
        ensures
            r.wf(),
            r.overflow_view() == (OverflowBits {
                images: Seq::empty(),
                ..old(self).overflow_view()
            }),
            r.style_view() == old(self).style_view(),
            r.foreground_view() == old(self).foreground_view(),
            r.background_view() == old(self).background_view(),
            *final (self) == *final (r),
    {
        if let Some(fat) = self.fat.as_mut() {
            fat.image.clear();
            proof {
                assert(fat.image@ =~= Seq::<ImageCell>::empty());
            }
        }
        self.deallocate_fat_attributes_if_none();
        self
    }

    /// Remove every attachment addressed by the given image and
    /// placement identifiers.
    #[verifier::rlimit(60)]
    #[verifier::loop_isolation(false)]
    pub fn detach_image_with_placement(&mut self, image_id: u32, placement_id: Option<u32>)
        requires
            old(self).wf(),
        ensures
            final (self).wf(),
            final (self).overflow_view() == (OverflowBits {
                images: old(self).images_view().filter(
                    |im: ImageCell| !im.spec_matches_placement(image_id, placement_id),
                ),
                ..old(self).overflow_view()
            }),
            final (self).style_view() == old(self).style_view(),
            final (self).foreground_view() == old(self).foreground_view(),
            final (self).background_view() == old(self).background_view(),
    {
        let ghost keep = |im: ImageCell| !im.spec_matches_placement(image_id, placement_id);
        if let Some(fat) = self.fat.as_mut() {
            let ghost before = fat.image@;
            let mut kept: Vec<ImageCell> = Vec::new();
            let mut i: usize = 0;
            while i < fat.image.len()
                invariant
                    0 <= i <= fat.image@.len(),
                    fat.image@ == before,
                    kept@ == before.take(i as int).filter(keep),
                decreases fat.image@.len() - i,
            {
                let im = fat.image[i];
                proof {
                    reveal_with_fuel(Seq::<ImageCell>::filter, 2);
                    assert(before.take(i + 1).drop_last() =~= before.take(i as int));
                    assert(before.take(i + 1).last() == before[i as int]);
                    assert(before.take(i + 1).filter(keep) == (if keep(before[i as int]) {
                        before.take(i as int).filter(keep).push(before[i as int])
                    } else {
                        before.take(i as int).filter(keep)
                    }));
                }
                if !im.matches_placement(image_id, placement_id) {
                    kept.push(im);
                }
                i = i + 1;
            }
            proof {
                assert(before.take(before.len() as int) =~= before);
                lemma_filter_keeps_sorted(before, keep);
            }
            fat.image = kept;
        } else {
            proof {
                assert(self.images_view() =~= Seq::<ImageCell>::empty());
                assert(self.images_view().filter(keep) =~= Seq::<ImageCell>::empty());
            }
        }
        self.deallocate_fat_attributes_if_none();
    }

    /// Add an image attachment, preserving any existing attachments.
    /// The list of images is maintained in ascending z-index order, and
    /// an attachment at an already-present z-index goes after the
    /// attachments already there.
    pub fn attach_image(&mut self, image: Box<ImageCell>) -> (r: &mut Self)
        requires
            old(self).wf(),
        ensures
            r.wf(),
            r.overflow_view() == (OverflowBits {
                images: old(self).images_view().insert(
                    spec_insert_index(old(self).images_view(), image.z_index),
                    *image,
                ),
                ..old(self).overflow_view()
            }),
            r.style_view() == old(self).style_view(),
            r.foreground_view() == old(self).foreground_view(),
            r.background_view() == old(self).background_view(),
            *final (self) == *final (r),
    {
        let z = image.z_index();
        self.allocate_fat_attributes();
        if let Some(fat) = self.fat.as_mut() {
            let ghost before = fat.image@;
            let mut lo: usize = 0;
            let mut hi: usize = fat.image.len();
            while lo < hi
                invariant
                    0 <= lo <= hi <= fat.image@.len(),
                    fat.image@ == before,
                    spec_images_sorted(before),
                    forall|k: int| 0 <= k < lo ==> #[trigger] before[k].z_index <= z,
                    forall|k: int| hi <= k < before.len() ==> #[trigger] before[k].z_index > z,
                decreases hi - lo,
            {
                let mid = lo + (hi - lo) / 2;
                if fat.image[mid].z_index() <= z {
                    lo = mid + 1;
                } else {
                    hi = mid;
                }
            }
            proof {
                lemma_insert_index_characterization(before, z, lo as int);
                lemma_insert_keeps_sorted(before, lo as int, *image);
            }
            fat.image.insert(lo, *image);
            proof {
                assert(fat.image@.len() > 0);
            }
        }
        proof {
            assert(self.overflow_view().images.len() > 0);
            assert(self.overflow_view() != spec_default_overflow());
            assert(spec_images_sorted(self.images_view()));
        }
        self
    }

    /// Set the underline color, with the same allocate-on-write and
    /// deallocate-when-default discipline as the other overflow fields.
    pub fn set_underline_color(&mut self, underline_color: ColorAttribute) -> (r: &mut Self)
        requires
            old(self).wf(),
        ensures
            r.wf(),
            r.overflow_view() == (OverflowBits {
                underline_color: underline_color,
                ..old(self).overflow_view()
            }),
            r.style_view() == old(self).style_view(),
            r.foreground_view() == old(self).foreground_view(),
            r.background_view() == old(self).background_view(),
            *final (self) == *final (r),
    {
        if matches!(underline_color, ColorAttribute::Default) && self.fat.is_none() {
            self
        } else {
            self.allocate_fat_attributes();
            if let Some(fat) = self.fat.as_mut() {
                fat.underline_color = underline_color;
            }
            self.deallocate_fat_attributes_if_none();
            self
        }
    }

    /// Clone the attributes, but exclude the fancy extras: the copy
    /// keeps the bitfield style and the basic and extended colors, drops
    /// the hyperlink and the image attachments, and resets the semantic
    /// classification to the default.  This derives the deterministic
    /// "blank" attributes used when clearing or erasing cells.
    pub fn clone_sgr_only(&self) -> (r: Self)
        requires
            self.wf(),
        ensures
            r.wf(),
            r.style_view() == (StyleBits { semantic: SemanticType::Output, ..self.style_view() }),
            r.overflow_view() == (OverflowBits {
                hyperlink: None,
                images: Seq::empty(),
                ..self.overflow_view()
            }),
            r.foreground_view() == self.foreground_view(),
            r.background_view() == self.background_view(),
    {
        let bits = self.attributes & !0x6000;
        proof {
            let a = self.attributes;
            assert(a & !0x6000u16 == (a & !0x6000u16) | (0u16 << 13)) by (bit_vector);
            lemma_set_semantic_bits(a, 0, bits);
        }
        let new_fat: Option<Box<FatAttributes>> = match &self.fat {
            Some(fat) => {
                if !matches!(fat.underline_color, ColorAttribute::Default) || !matches!(
                    fat.foreground,
                    ColorAttribute::Default,
                ) || !matches!(fat.background, ColorAttribute::Default) {
                    Some(
                        Box::new(
                            FatAttributes {
                                hyperlink: None,
                                image: Vec::new(),
                                underline_color: fat.underline_color,
                                foreground: fat.foreground,
                                background: fat.background,
                            },
                        ),
                    )
                } else {
                    None
                }
            },
            None => None,
        };
        let r = CellAttributes {
            attributes: bits,
            foreground: self.foreground,
            background: self.background,
            fat: new_fat,
        };
        proof {
            assert(r.overflow_view().images =~= Seq::<ImageCell>::empty());
            assert(r.overflow_view() == (OverflowBits {
                hyperlink: None,
                images: Seq::empty(),
                ..self.overflow_view()
            }));
        }
        r
    }

    /// The attached hyperlink, if any.
    pub fn hyperlink(&self) -> (r: Option<&Arc<Hyperlink>>)
        ensures
            (r is Some) == (self.hyperlink_view() is Some),
            r matches Some(h) ==> self.hyperlink_view() == Some(*h),
    {
        match &self.fat {
            Some(fat) => fat.hyperlink.as_ref(),
            None => None,
        }
    }

    /// The list of attached images in z-index order, or `None` when
    /// there are none; never `Some` of an empty list.
    pub fn images(&self) -> (r: Option<Vec<ImageCell>>)
        ensures
            (r is Some) == (self.images_view().len() > 0),
            r matches Some(v) ==> v@ == self.images_view(),
    {
        let fat = match &self.fat {
            Some(fat) => fat,
            None => {
                return None;
            },
        };
        if fat.image.len() == 0 {
            return None;
        }
        let mut copy: Vec<ImageCell> = Vec::new();
        let mut i: usize = 0;
        while i < fat.image.len()
            invariant
                0 <= i <= fat.image@.len(),
                copy@ == fat.image@.take(i as int),
            decreases fat.image@.len() - i,
        {
            copy.push(fat.image[i]);
            proof {
                assert(fat.image@.take(i + 1) =~= fat.image@.take(i as int).push(
                    fat.image@[i as int],
                ));
            }
            i = i + 1;
        }
        proof {
            assert(fat.image@.take(fat.image@.len() as int) =~= fat.image@);
        }
        Some(copy)
    }

    /// The underline color; `Default` means "use the foreground color".
    pub fn underline_color(&self) -> (r: ColorAttribute)
        ensures
            r == self.underline_color_view(),
    {
        match &self.fat {
            Some(fat) => fat.underline_color,
            None => ColorAttribute::Default,
        }
    }
}

impl Default for CellAttributes {
    fn default() -> (r: Self)
        ensures
            r.wf(),
            !r.has_overflow(),
            r.style_view() == spec_default_style(),
            r.overflow_view() == spec_default_overflow(),
            r.foreground_view() == ColorAttribute::Default,
            r.background_view() == ColorAttribute::Default,
    {
        CellAttributes::blank()
    }
}

/// Models a change in the attributes of a cell in a stream of changes.
/// Each variant names one attribute; the value it carries is the new
/// value for that attribute, applied through the matching setter and
/// touching nothing else.
#[derive(Debug, Clone, PartialEq, Eq)]
pub enum AttributeChange {
    Intensity(Intensity),
    Underline(Underline),
    Italic(bool),
    Blink(Blink),
    Reverse(bool),
    StrikeThrough(bool),
    Invisible(bool),
    Foreground(ColorAttribute),
    Background(ColorAttribute),
    Hyperlink(Option<Arc<Hyperlink>>),
}

/// Filtering keeps any upper bound on the z-indices.
proof fn lemma_filter_keeps_bound(images: Seq<ImageCell>, keep: spec_fn(ImageCell) -> bool, b: i32)
    requires
        forall|k: int| 0 <= k < images.len() ==> #[trigger] images[k].z_index <= b,
    ensures
        forall|k: int|
            0 <= k < images.filter(keep).len() ==> #[trigger] images.filter(keep)[k].z_index <= b,
    decreases images.len(),
{
    reveal_with_fuel(Seq::<ImageCell>::filter, 2);
    if images.len() > 0 {
        let prefix = images.drop_last();
        assert(forall|k: int| 0 <= k < prefix.len() ==> #[trigger] prefix[k].z_index <= b);
        lemma_filter_keeps_bound(prefix, keep, b);
    }
}

/// Removing entries cannot disturb the z-index ordering.
proof fn lemma_filter_keeps_sorted(images: Seq<ImageCell>, keep: spec_fn(ImageCell) -> bool)
    requires
        spec_images_sorted(images),
    ensures
        spec_images_sorted(images.filter(keep)),
    decreases images.len(),
{
    reveal_with_fuel(Seq::<ImageCell>::filter, 2);
    if images.len() > 0 {
        let prefix = images.drop_last();
        assert(spec_images_sorted(prefix));
        lemma_filter_keeps_sorted(prefix, keep);
        if keep(images.last()) {
            let filtered = prefix.filter(keep);
            assert(forall|k: int|
                0 <= k < prefix.len() ==> #[trigger] prefix[k].z_index
                    <= images.last().z_index);
            lemma_filter_keeps_bound(prefix, keep, images.last().z_index);
            let whole = filtered.push(images.last());
            assert forall|i: int, j: int| 0 <= i < j < whole.len() implies #[trigger] whole[i].z_index
                <= #[trigger] whole[j].z_index by {
                if j < filtered.len() {
                    assert(whole[i] == filtered[i] && whole[j] == filtered[j]);
                } else {
                    assert(whole[j] == images.last());
                    if i < filtered.len() {
                        assert(whole[i] == filtered[i]);
                    }
                }
            }
        }
    }
}

/// Inserting at the stable insertion point keeps the list sorted.
proof fn lemma_insert_keeps_sorted(images: Seq<ImageCell>, idx: int, image: ImageCell)
    requires
        spec_images_sorted(images),
        0 <= idx <= images.len(),
        forall|k: int| 0 <= k < idx ==> #[trigger] images[k].z_index <= image.z_index,
        forall|k: int| idx <= k < images.len() ==> #[trigger] images[k].z_index > image.z_index,
    ensures
        spec_images_sorted(images.insert(idx, image)),
{
    let inserted = images.insert(idx, image);
    assert forall|i: int, j: int| 0 <= i < j < inserted.len() implies #[trigger] inserted[i].z_index
        <= #[trigger] inserted[j].z_index by {
        if i < idx && j < idx {
        } else if i == idx || j == idx {
        } else {
        }
    }
}

/// A style setter rewrites its own bits and leaves every other field of
/// the packed word alone; these lemmas discharge the bit reasoning once
/// per field.
proof fn lemma_set_intensity_bits(a: u16, e: u16, n: u16)
    requires
        e <= 2,
        n == (a & !0x0003u16) | e,
    ensures
        n & 0x3 == e,
        spec_underline_of_bits(n) == spec_underline_of_bits(a),
        spec_blink_of_bits(n) == spec_blink_of_bits(a),
        spec_semantic_of_bits(n) == spec_semantic_of_bits(a),
        n & 0x0080 == a & 0x0080,
        n & 0x0100 == a & 0x0100,
        n & 0x0200 == a & 0x0200,
        n & 0x0400 == a & 0x0400,
        n & 0x0800 == a & 0x0800,
        n & 0x1000 == a & 0x1000,
        spec_bits_canonical(a) ==> spec_bits_canonical(n),
{
    assert(n & 0x3 == e && (n >> 2) & 0x7 == (a >> 2) & 0x7 && (n >> 5) & 0x3 == (a >> 5) & 0x3 && (
    n >> 13) & 0x3 == (a >> 13) & 0x3 && n & 0x0080 == a & 0x0080 && n & 0x0100 == a & 0x0100 && n
        & 0x0200 == a & 0x0200 && n & 0x0400 == a & 0x0400 && n & 0x0800 == a & 0x0800 && n & 0x1000
        == a & 0x1000 && (n >> 15) & 0x1 == (a >> 15) & 0x1) by (bit_vector)
        requires
            e <= 2,
            n == (a & !0x0003u16) | e,
    ;
}

proof fn lemma_set_underline_bits(a: u16, e: u16, n: u16)
    requires
        e <= 5,
        n == (a & !0x001Cu16) | (e << 2),
    ensures
        (n >> 2) & 0x7 == e,
        spec_intensity_of_bits(n) == spec_intensity_of_bits(a),
        spec_blink_of_bits(n) == spec_blink_of_bits(a),
        spec_semantic_of_bits(n) == spec_semantic_of_bits(a),
        n & 0x0080 == a & 0x0080,
        n & 0x0100 == a & 0x0100,
        n & 0x0200 == a & 0x0200,
        n & 0x0400 == a & 0x0400,
        n & 0x0800 == a & 0x0800,
        n & 0x1000 == a & 0x1000,
        spec_bits_canonical(a) ==> spec_bits_canonical(n),
{
    assert((n >> 2) & 0x7 == e && n & 0x3 == a & 0x3 && (n >> 5) & 0x3 == (a >> 5) & 0x3 && (n
        >> 13) & 0x3 == (a >> 13) & 0x3 && n & 0x0080 == a & 0x0080 && n & 0x0100 == a & 0x0100 && n
        & 0x0200 == a & 0x0200 && n & 0x0400 == a & 0x0400 && n & 0x0800 == a & 0x0800 && n & 0x1000
        == a & 0x1000 && (n >> 15) & 0x1 == (a >> 15) & 0x1) by (bit_vector)
        requires
            e <= 5,
            n == (a & !0x001Cu16) | (e << 2),
    ;
}

proof fn lemma_set_blink_bits(a: u16, e: u16, n: u16)
    requires
        e <= 2,
        n == (a & !0x0060u16) | (e << 5),
    ensures
        (n >> 5) & 0x3 == e,
        spec_intensity_of_bits(n) == spec_intensity_of_bits(a),
        spec_underline_of_bits(n) == spec_underline_of_bits(a),
        spec_semantic_of_bits(n) == spec_semantic_of_bits(a),
        n & 0x0080 == a & 0x0080,
        n & 0x0100 == a & 0x0100,
        n & 0x0200 == a & 0x0200,
        n & 0x0400 == a & 0x0400,
        n & 0x0800 == a & 0x0800,
        n & 0x1000 == a & 0x1000,
        spec_bits_canonical(a) ==> spec_bits_canonical(n),
{
    assert((n >> 5) & 0x3 == e && n & 0x3 == a & 0x3 && (n >> 2) & 0x7 == (a >> 2) & 0x7 && (n
        >> 13) & 0x3 == (a >> 13) & 0x3 && n & 0x0080 == a & 0x0080 && n & 0x0100 == a & 0x0100 && n
        & 0x0200 == a & 0x0200 && n & 0x0400 == a & 0x0400 && n & 0x0800 == a & 0x0800 && n & 0x1000
        == a & 0x1000 && (n >> 15) & 0x1 == (a >> 15) & 0x1) by (bit_vector)
        requires
            e <= 2,
            n == (a & !0x0060u16) | (e << 5),
    ;
}

proof fn lemma_set_semantic_bits(a: u16, e: u16, n: u16)
    requires
        e <= 2,
        n == (a & !0x6000u16) | (e << 13),
    ensures
        (n >> 13) & 0x3 == e,
        spec_intensity_of_bits(n) == spec_intensity_of_bits(a),
        spec_underline_of_bits(n) == spec_underline_of_bits(a),
        spec_blink_of_bits(n) == spec_blink_of_bits(a),
        n & 0x0080 == a & 0x0080,
        n & 0x0100 == a & 0x0100,
        n & 0x0200 == a & 0x0200,
        n & 0x0400 == a & 0x0400,
        n & 0x0800 == a & 0x0800,
        n & 0x1000 == a & 0x1000,
        spec_bits_canonical(a) ==> spec_bits_canonical(n),
{
    assert((n >> 13) & 0x3 == e && n & 0x3 == a & 0x3 && (n >> 2) & 0x7 == (a >> 2) & 0x7 && (n
        >> 5) & 0x3 == (a >> 5) & 0x3 && n & 0x0080 == a & 0x0080 && n & 0x0100 == a & 0x0100 && n
        & 0x0200 == a & 0x0200 && n & 0x0400 == a & 0x0400 && n & 0x0800 == a & 0x0800 && n & 0x1000
        == a & 0x1000 && (n >> 15) & 0x1 == (a >> 15) & 0x1) by (bit_vector)
        requires
            e <= 2,
            n == (a & !0x6000u16) | (e << 13),
    ;
}

/// One lemma serves all six single-bit flags.
proof fn lemma_set_flag_bits(a: u16, mask: u16, e: u16, n: u16)
    requires
        mask == 0x0080 || mask == 0x0100 || mask == 0x0200 || mask == 0x0400 || mask == 0x0800
            || mask == 0x1000,
        e == 0 || e == mask,
        n == (a & !mask) | e,
    ensures
        n & mask == e,
        spec_intensity_of_bits(n) == spec_intensity_of_bits(a),
        spec_underline_of_bits(n) == spec_underline_of_bits(a),
        spec_blink_of_bits(n) == spec_blink_of_bits(a),
        spec_semantic_of_bits(n) == spec_semantic_of_bits(a),
        forall|m: u16|
            (m == 0x0080 || m == 0x0100 || m == 0x0200 || m == 0x0400 || m == 0x0800 || m == 0x1000)
                && m != mask ==> #[trigger] (n & m) == a & m,
        spec_bits_canonical(a) ==> spec_bits_canonical(n),
{
    assert(n & mask == e && n & 0x3 == a & 0x3 && (n >> 2) & 0x7 == (a >> 2) & 0x7 && (n >> 5) & 0x3
        == (a >> 5) & 0x3 && (n >> 13) & 0x3 == (a >> 13) & 0x3 && (n >> 15) & 0x1 == (a >> 15)
        & 0x1 && (0x0080u16 != mask ==> n & 0x0080 == a & 0x0080) && (0x0100u16 != mask ==> n
        & 0x0100 == a & 0x0100) && (0x0200u16 != mask ==> n & 0x0200 == a & 0x0200) && (0x0400u16
        != mask ==> n & 0x0400 == a & 0x0400) && (0x0800u16 != mask ==> n & 0x0800 == a & 0x0800)
        && (0x1000u16 != mask ==> n & 0x1000 == a & 0x1000)) by (bit_vector)
        requires
            mask == 0x0080 || mask == 0x0100 || mask == 0x0200 || mask == 0x0400 || mask == 0x0800
                || mask == 0x1000,
            e == 0 || e == mask,
            n == (a & !mask) | e,
    ;
}

/// Two canonical packed words are equal exactly when every logical
/// style field agrees: the packing wastes no information.
proof fn lemma_canonical_bits_determined_by_style(a: u16, b: u16)
    requires
        spec_bits_canonical(a),
        spec_bits_canonical(b),
    ensures
        (spec_style_of_bits(a) == spec_style_of_bits(b)) <==> (a == b),
{
    if spec_style_of_bits(a) == spec_style_of_bits(b) {
        assert(a & 0x3 <= 3 && (a >> 2) & 0x7 <= 7 && (a >> 5) & 0x3 <= 3 && (a >> 13) & 0x3 <= 3
            && (a & 0x0080 == 0 || a & 0x0080 == 0x0080) && (a & 0x0100 == 0 || a & 0x0100 == 0x0100)
            && (a & 0x0200 == 0 || a & 0x0200 == 0x0200) && (a & 0x0400 == 0 || a & 0x0400 == 0x0400)
            && (a & 0x0800 == 0 || a & 0x0800 == 0x0800) && (a & 0x1000 == 0 || a & 0x1000
            == 0x1000)) by (bit_vector);
        assert(b & 0x3 <= 3 && (b >> 2) & 0x7 <= 7 && (b >> 5) & 0x3 <= 3 && (b >> 13) & 0x3 <= 3
            && (b & 0x0080 == 0 || b & 0x0080 == 0x0080) && (b & 0x0100 == 0 || b & 0x0100 == 0x0100)
            && (b & 0x0200 == 0 || b & 0x0200 == 0x0200) && (b & 0x0400 == 0 || b & 0x0400 == 0x0400)
            && (b & 0x0800 == 0 || b & 0x0800 == 0x0800) && (b & 0x1000 == 0 || b & 0x1000
            == 0x1000)) by (bit_vector);
        assert(a & 0x3 == b & 0x3);
        assert((a >> 2) & 0x7 == (b >> 2) & 0x7);
        assert((a >> 5) & 0x3 == (b >> 5) & 0x3);
        assert((a >> 13) & 0x3 == (b >> 13) & 0x3);
        assert(a == b) by (bit_vector)
            requires
                a & 0x3 == b & 0x3,
                (a >> 2) & 0x7 == (b >> 2) & 0x7,
                (a >> 5) & 0x3 == (b >> 5) & 0x3,
                (a >> 13) & 0x3 == (b >> 13) & 0x3,
                a & 0x0080 == b & 0x0080,
                a & 0x0100 == b & 0x0100,
                a & 0x0200 == b & 0x0200,
                a & 0x0400 == b & 0x0400,
                a & 0x0800 == b & 0x0800,
                a & 0x1000 == b & 0x1000,
                (a >> 15) & 0x1 == 0,
                (b >> 15) & 0x1 == 0,
        ;
    }
}

} // verus!
