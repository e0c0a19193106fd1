//! Hyperlink references attached to cells.
//!
//! A hyperlink is immutable after creation and may be shared by many
//! cells at once (the escape-sequence interpreter attaches the same link
//! to every cell of a run), so cells hold it behind a reference-counted
//! pointer.

use vstd::prelude::*;

verus! {

/// The target of a hyperlinked run of cells.
#[derive(Debug, Clone, PartialEq, Eq, Hash)]
pub struct Hyperlink {
    uri: String,
}

impl View for Hyperlink {
    type V = Seq<char>;

    closed spec fn view(&self) -> Seq<char> {
        self.uri@
    }
}

impl Hyperlink {
    pub fn new(uri: String) -> (r: Hyperlink)
        ensures
            r@ == uri@,
    {
        Hyperlink { uri }
    }

    pub fn uri(&self) -> (r: &str)
        ensures
            r@ == self@,
    {
        self.uri.as_str()
    }
}

} // verus!
