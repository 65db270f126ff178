//! What can stop the gallery.

use vstd::prelude::*;

verus! {

/// The failures that the gallery reports to whoever drives it. A file that
/// does not decode is no such failure: its entry is marked and passed over.
#[derive(Debug, Clone, Copy, PartialEq, Eq, Structural)]
pub enum GalleryError {
    /// There is no image to show: the list of images is empty.
    EmptySet,
    /// Every entry was tried, one full turn round the list, and none holds
    /// an image.
    NoViewableImages,
}

} // verus!
