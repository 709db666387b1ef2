//! A raster image: a pixmap of any layout with the image's dimensions.

use super::error::RasterError;
use super::pixmap::dynamic::DynamicPixmap;
use vstd::prelude::*;

verus! {

/// A pixmap together with the width and height it is drawn at.
#[derive(Debug, Clone)]
pub struct RasterImage {
    width: u32,
    height: u32,
    pixmap: DynamicPixmap,
}

impl RasterImage {
    /// The image width.
    pub closed spec fn spec_width(&self) -> u32 {
        self.width
    }

    /// The image height.
    pub closed spec fn spec_height(&self) -> u32 {
        self.height
    }

    /// The pixmap.
    pub closed spec fn spec_pixmap(&self) -> DynamicPixmap {
        self.pixmap
    }

    /// Creates a new `RasterImage`.
    ///
    /// Returns an `Err` if the pixmap does not hold the width `*` the height
    /// pixels.
    pub fn new(width: u32, height: u32, pixmap: DynamicPixmap) -> (r: Result<Self, RasterError>)
        requires
            width * height <= usize::MAX,
        ensures
            match r {
                Ok(img) => {
                    &&& pixmap.spec_pixels_len() == width * height
                    &&& img.spec_width() == width
                    &&& img.spec_height() == height
                    &&& img.spec_pixmap() == pixmap
                },
                Err(e) => {
                    &&& pixmap.spec_pixels_len() != width * height
                    &&& e == RasterError::WrongDimensions(
                        (width * height) as usize,
                        pixmap.spec_pixels_len() as usize,
                    )
                },
            },
    {
        let expected_pixels = width as usize * height as usize;
        let actual_pixels = pixmap.pixels_len();
        if expected_pixels != actual_pixels {
            return Err(RasterError::WrongDimensions(expected_pixels, actual_pixels));
        }
        Ok(RasterImage { width, height, pixmap })
    }

    /// Returns the image width.
    pub fn width(&self) -> (w: u32)
        ensures
            w == self.spec_width(),
    {
        self.width
    }

    /// Returns the image height.
    pub fn height(&self) -> (h: u32)
        ensures
            h == self.spec_height(),
    {
        self.height
    }

    /// Returns a reference to the pixmap.
    pub fn pixmap(&self) -> (p: &DynamicPixmap)
        ensures
            *p == self.spec_pixmap(),
    {
        &self.pixmap
    }

    /// Consumes the struct and returns the pixmap.
    pub fn into_pixmap(self) -> (p: DynamicPixmap)
        ensures
            p == self.spec_pixmap(),
    {
        self.pixmap
    }
}

} // verus!
