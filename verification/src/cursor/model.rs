//! A cursor: its frames, each a set of images of one picture at several
//! sizes, shown for a duration.

use super::duration::CursorDuration;
use super::hotspot::CursorHotspot;
use super::metadata::CursorMetadata;
use crate::formats::rgba::RasterImage;
use vstd::prelude::*;

verus! {

/// A cursor, static (one frame) or animated.
pub struct Cursor {
    pub frames: Vec<CursorFrame>,
    pub metadata: Option<CursorMetadata>,
}

impl Cursor {
    /// Whether the cursor is animated: it has other than exactly one frame.
    pub fn is_animated(&self) -> (b: bool)
        ensures
            b == (self.frames@.len() != 1),
    {
        self.frames.len() != 1
    }
}

/// One frame: the picture at several sizes, and how long it is shown.
pub struct CursorFrame {
    pub images: Vec<CursorImage>,
    pub duration: Option<CursorDuration>,
}

/// One picture at one nominal size, with its hotspot.
pub struct CursorImage {
    pub nominal: u32,
    pub hotspot: CursorHotspot,
    pub raster: RasterImage,
}

} // verus!
