use vstd::prelude::*;

verus! {

/// The conditions under which a frame, or the whole session, cannot go on.
#[derive(Clone, Copy, Debug, PartialEq, Eq, Structural)]
pub enum GalleryError {
    /// The image could not be decoded, or has a zero width or height.
    MalformedImage,
    /// The region to draw into has zero columns or zero rows.
    RegionTooSmall,
    /// The gallery was given no images at all.
    NoImagesFound,
}

} // verus!
