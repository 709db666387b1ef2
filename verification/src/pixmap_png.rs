//! Decoding PNG images into pixmaps and encoding pixmaps as PNG images,
//! with the `png` crate's own errors.

use crate::formats::raster::error::RasterError;
use crate::formats::raster::pixmap::dynamic::DynamicPixmap;
use crate::formats::raster::png::{
    encoded_pixmap, frame_convertible, frame_is_convertible, frame_model, frame_pixmap,
    pixmap_from_frame, png_decode, png_decoding, FrameModel,
};
use vstd::prelude::*;

verus! {

/// Why decoding a PNG image into a pixmap failed.
#[derive(Debug)]
pub enum DecodeError {
    /// The decoded pixels do not fill the image.
    PixmapError(RasterError),
    /// The PNG decoder refused the input.
    PngError(png::DecodingError),
}

/// The frames that `decode` builds a pixmap from: 8-bit samples, filling
/// whole pixels, with a palette of whole colours where it is indexed.
pub open spec fn decodable(m: FrameModel) -> bool {
    m.3 == 8 && frame_convertible(m)
}

/// `r` is what `decode` gives for the decoded frame `m`: the pixmap that the
/// frame makes, or the pixmap's error.
pub open spec fn decoded_frame(m: FrameModel, r: Result<DynamicPixmap, DecodeError>) -> bool {
    match r {
        Ok(d) => frame_pixmap(m, Ok(d)),
        Err(DecodeError::PixmapError(e)) => frame_pixmap(m, Err(e)),
        Err(DecodeError::PngError(_)) => false,
    }
}

/// `r` is what `decode` gives for `input`: the decoder's error where it
/// refuses the input, else the pixmap of the decoded frame.
pub open spec fn decoded(input: Seq<u8>, r: Result<DynamicPixmap, DecodeError>) -> bool {
    match png_decoding(input, false) {
        None => r matches Err(DecodeError::PngError(_)),
        Some(m) => decoded_frame(m, r),
    }
}

/// Decodes a PNG image, returning the pixmap of its layout.
pub fn decode(input: &[u8]) -> (r: Result<DynamicPixmap, DecodeError>)
    requires
        png_decoding(input@, false) matches Some(m) ==> decodable(m),
    ensures
        decoded(input@, r),
{
    match png_decode(input, false) {
        Err(e) => Err(DecodeError::PngError(e)),
        Ok(frame) => match pixmap_from_frame(frame) {
            Ok(p) => Ok(p),
            Err(e) => Err(DecodeError::PixmapError(e)),
        },
    }
}

/// Decodes a PNG image where the decoded frame has 8-bit samples filling
/// whole pixels (and, indexed, a palette of whole colours); `None` where it
/// does not.
pub fn try_decode(input: &[u8]) -> (r: Option<Result<DynamicPixmap, DecodeError>>)
    ensures
        match r {
            None => png_decoding(input@, false) matches Some(m) && !decodable(m),
            Some(d) => decoded(input@, d),
        },
{
    let ok = match png_decode(input, false) {
        Err(_) => true,
        Ok(frame) => frame.bit_depth == 8 && frame_is_convertible(&frame),
    };
    if ok {
        Some(decode(input))
    } else {
        None
    }
}

/// Encodes `pixmap` as a static PNG image, highly compressed, and appends it
/// to `buffer`; where the encoder refuses the pixmap, its error, and
/// `buffer` as it was.
pub fn encode(pixmap: DynamicPixmap, buffer: &mut Vec<u8>) -> (r: Result<(), png::EncodingError>)
    ensures
        match encoded_pixmap(pixmap) {
            Some(bytes) => r is Ok && final(buffer)@ == old(buffer)@ + bytes,
            None => r is Err && final(buffer)@ == old(buffer)@,
        },
{
    match pixmap.png_bytes() {
        Ok(mut bytes) => {
            buffer.append(&mut bytes);
            Ok(())
        },
        Err(e) => Err(e),
    }
}

} // verus!
