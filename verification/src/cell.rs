//! The cell: one grapheme cluster plus its rendering attributes, the
//! unit exchanged with the grid buffer and the renderer.

use vstd::prelude::*;

use crate::attrs::{spec_default_overflow, spec_default_style, CellAttributes};
use crate::color::ColorAttribute;
use crate::presentation::{spec_default_presentation, spec_explicit_presentation, Presentation};
use crate::storage::{spec_neutralized, spec_stored_width, TeenyString};

verus! {

/// Models the contents of a cell on the terminal display.
#[derive(Debug, Clone, PartialEq, Eq)]
pub struct Cell {
    text: TeenyString,
    attrs: CellAttributes,
}

impl Cell {
    /// The grapheme storage of the cell.
    pub closed spec fn storage_view(self) -> TeenyString {
        self.text
    }

    pub closed spec fn attrs_view(self) -> CellAttributes {
        self.attrs
    }

    /// The stored grapheme cluster.
    pub open spec fn text_view(self) -> Seq<char> {
        self.storage_view().text_view()
    }

    /// The stored column width.
    pub open spec fn width_view(self) -> nat {
        self.storage_view().width_view()
    }

    pub open spec fn wf(self) -> bool {
        self.storage_view().wf() && self.attrs_view().wf()
    }

    /// Create a new cell holding the specified character and with the
    /// specified cell attributes.  All control and movement characters
    /// are rewritten as a space.
    pub fn new(text: char, attrs: CellAttributes) -> (r: Self)
        requires
            attrs.wf(),
        ensures
            r.wf(),
            r.text_view() == spec_neutralized(seq![text]),
            r.width_view() == spec_stored_width(spec_neutralized(seq![text]), None),
            r.attrs_view() == attrs,
    {
        Cell { text: TeenyString::from_char(text), attrs }
    }

    /// The canonical blank cell: a single space with default attributes.
    pub fn blank() -> (r: Self)
        ensures
            r.wf(),
            r.text_view() == seq![' '],
            r.width_view() == 1,
            !r.attrs_view().has_overflow(),
            r.attrs_view().style_view() == spec_default_style(),
            r.attrs_view().overflow_view() == spec_default_overflow(),
            r.attrs_view().foreground_view() == ColorAttribute::Default,
            r.attrs_view().background_view() == ColorAttribute::Default,
    {
        Cell { text: TeenyString::space(), attrs: CellAttributes::blank() }
    }

    /// A blank cell carrying the given attributes.
    pub fn blank_with_attrs(attrs: CellAttributes) -> (r: Self)
        ensures
            r.wf() == attrs.wf(),
            r.text_view() == seq![' '],
            r.width_view() == 1,
            r.attrs_view() == attrs,
    {
        Cell { text: TeenyString::space(), attrs }
    }

    /// Indicates whether this cell has text or emoji presentation: the
    /// explicit variation selector when the grapheme carries a valid
    /// one, else the grapheme's default presentation.  The width already
    /// reflects that choice; this information helps select a font.
    pub fn presentation(&self) -> (r: Presentation)
        requires
            self.wf(),
        ensures
            r == (match spec_explicit_presentation(self.text_view()) {
                Some(p) => p,
                None => spec_default_presentation(self.text_view()),
            }),
    {
        match Presentation::for_grapheme(self.text.str()) {
            (_, Some(variation)) => variation,
            (presentation, None) => presentation,
        }
    }

    /// Create a new cell holding the specified grapheme.  The string
    /// should be a single grapheme cluster: a double-width character or
    /// a combining sequence that is cursored over as one unit.
    pub fn new_grapheme(text: &str, attrs: CellAttributes) -> (r: Self)
        requires
            attrs.wf(),
        ensures
            r.wf(),
            r.text_view() == spec_neutralized(text@),
            r.width_view() == spec_stored_width(spec_neutralized(text@), None),
            r.attrs_view() == attrs,
    {
        Cell { text: TeenyString::from_str(text, None), attrs }
    }

    /// Like `new_grapheme`, with the width already known to the caller.
    pub fn new_grapheme_with_width(text: &str, width: usize, attrs: CellAttributes) -> (r: Self)
        requires
            attrs.wf(),
        ensures
            r.wf(),
            r.text_view() == spec_neutralized(text@),
            r.width_view() == spec_stored_width(spec_neutralized(text@), Some(width)),
            r.attrs_view() == attrs,
    {
        Cell { text: TeenyString::from_str(text, Some(width)), attrs }
    }

    /// Returns the textual content of the cell.
    pub fn str(&self) -> (r: &str)
        requires
            self.wf(),
        ensures
            r@ == self.text_view(),
    {
        self.text.str()
    }

    /// Returns the number of cells visually occupied by this grapheme.
    pub fn width(&self) -> (r: usize)
        ensures
            r == self.width_view(),
    {
        self.text.width()
    }

    /// Returns the attributes of the cell.
    pub fn attrs(&self) -> (r: &CellAttributes)
        ensures
            r == self.attrs_view(),
    {
        &self.attrs
    }

    /// Mutable access to the attributes, for in-place updates.
    pub fn attrs_mut(&mut self) -> (r: &mut CellAttributes)
        ensures
            *r == old(self).attrs_view(),
            final (self).storage_view() == old(self).storage_view(),
            final (self).attrs_view() == *final (r),
    {
        &mut self.attrs
    }
}

impl Default for Cell {
    fn default() -> (r: Self)
        ensures
            r.wf(),
            r.text_view() == seq![' '],
            r.width_view() == 1,
            !r.attrs_view().has_overflow(),
            r.attrs_view().style_view() == spec_default_style(),
            r.attrs_view().overflow_view() == spec_default_overflow(),
    {
        Cell::blank()
    }
}

} // verus!
