//! Image attachments composited over a cell.
//!
//! A cell may carry any number of attached image references; the
//! attribute record keeps them ordered by ascending z-index so that the
//! renderer can composite them back to front.

use vstd::prelude::*;

verus! {

/// One image reference attached to a cell.
#[derive(Debug, Clone, Copy, PartialEq, Eq, Structural)]
pub struct ImageCell {
    pub image_id: u32,
    pub placement_id: Option<u32>,
    pub z_index: i32,
}

impl ImageCell {
    pub fn new(image_id: u32, placement_id: Option<u32>, z_index: i32) -> (r: ImageCell)
        ensures
            r == (ImageCell { image_id, placement_id, z_index }),
    {
        ImageCell { image_id, placement_id, z_index }
    }

    pub fn image_id(&self) -> (r: u32)
        ensures
            r == self.image_id,
    {
        self.image_id
    }

    pub fn placement_id(&self) -> (r: Option<u32>)
        ensures
            r == self.placement_id,
    {
        self.placement_id
    }

    /// The stacking order of this attachment relative to the cell's text.
    pub fn z_index(&self) -> (r: i32)
        ensures
            r == self.z_index,
    {
        self.z_index
    }

    /// Whether this attachment is addressed by the given image and
    /// placement identifiers.
    pub open spec fn spec_matches_placement(
        self,
        image_id: u32,
        placement_id: Option<u32>,
    ) -> bool {
        self.image_id == image_id && self.placement_id == placement_id
    }

    pub fn matches_placement(&self, image_id: u32, placement_id: Option<u32>) -> (r: bool)
        ensures
            r == self.spec_matches_placement(image_id, placement_id),
    {
        let placement_matches = match (self.placement_id, placement_id) {
            (Some(a), Some(b)) => a == b,
            (None, None) => true,
            _ => false,
        };
        self.image_id == image_id && placement_matches
    }
}

} // verus!
