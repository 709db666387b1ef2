//! Why building, decoding or encoding a raster image failed.

use vstd::prelude::*;

verus! {

/// The error type for raster images.
#[derive(Debug)]
pub enum RasterError {
    /// Wrong number of pixels: the width times the height, then the number
    /// that was given.
    WrongDimensions(usize, usize),
    /// The PNG decoder refused the input, with its error.
    DecodingError(png::DecodingError),
    /// The PNG encoder refused the image, with its error.
    EncodingError(png::EncodingError),
}

} // verus!
