//! An RGBA image: a packed array of four-byte pixels with its dimensions.

use crate::formats::raster::error::RasterError;
use crate::formats::raster::png::{
    frame_model, png_decode, png_decoding, png_encode, png_encoding, FrameModel, PngFrame,
};
use vstd::prelude::*;

verus! {

/// The bytes of a sequence of RGBA pixels, each pixel's four in turn.
pub open spec fn rgba_bytes(s: Seq<[u8; 4]>) -> Seq<u8>
    decreases s.len(),
{
    if s.len() == 0 {
        Seq::empty()
    } else {
        rgba_bytes(s.drop_last()) + s.last()@
    }
}

/// A pixel's bytes in blue, green, red, alpha order.
pub open spec fn bgra_of(c: [u8; 4]) -> Seq<u8> {
    seq![c@[2], c@[1], c@[0], c@[3]]
}

/// The bytes of a sequence of RGBA pixels, each pixel's in BGRA order.
pub open spec fn bgra_bytes(s: Seq<[u8; 4]>) -> Seq<u8>
    decreases s.len(),
{
    if s.len() == 0 {
        Seq::empty()
    } else {
        bgra_bytes(s.drop_last()) + bgra_of(s.last())
    }
}

/// The frames that an RGBA image is built from: colour with alpha, four
/// bytes a pixel, or grey with alpha, two bytes a pixel, with as many pixels
/// as the width times the height.
pub open spec fn rgba_frame_convertible(m: FrameModel) -> bool {
    ||| m.2 == 6 && m.4.len() == m.0 * m.1 * 4
    ||| m.2 == 4 && m.4.len() == m.0 * m.1 * 2
}

/// The RGBA bytes of pixel `i` of a frame: its four bytes, where it has
/// colour; else its grey value three times, then its alpha.
pub open spec fn frame_rgba_pixel(color_code: u8, buffer: Seq<u8>, i: int) -> Seq<u8> {
    if color_code == 6 {
        buffer.subrange(4 * i, 4 * i + 4)
    } else {
        seq![buffer[2 * i], buffer[2 * i], buffer[2 * i], buffer[2 * i + 1]]
    }
}

/// `img` is the RGBA image of the frame `m`: of its size, each pixel made
/// from the frame's samples at its place.
pub open spec fn is_frame_image(m: FrameModel, img: RasterImage) -> bool {
    &&& img.spec_width() == m.0
    &&& img.spec_height() == m.1
    &&& img.spec_pixels().len() == m.0 * m.1
    &&& forall|i: int|
        0 <= i < m.0 * m.1 ==> (#[trigger] img.spec_pixels()[i])@ == frame_rgba_pixel(m.2, m.4, i)
}

/// The RGBA image that `png_decoding`, expanding to an alpha channel, gives
/// for `input`; `DecodingError` where the decoder refuses `input`.
pub open spec fn decoded_rgba(input: Seq<u8>, r: Result<RasterImage, RasterError>) -> bool {
    match png_decoding(input, true) {
        None => r matches Err(RasterError::DecodingError(_)),
        Some(m) => r matches Ok(img) && is_frame_image(m, img),
    }
}

/// An RGBA image.
#[derive(Debug, Clone)]
pub struct RasterImage {
    width: u32,
    height: u32,
    pixels: Vec<[u8; 4]>,
}

impl RasterImage {
    /// The image width.
    pub closed spec fn spec_width(&self) -> u32 {
        self.width
    }

    /// The image height.
    pub closed spec fn spec_height(&self) -> u32 {
        self.height
    }

    /// The pixels, row after row.
    pub closed spec fn spec_pixels(&self) -> Seq<[u8; 4]> {
        self.pixels@
    }

    /// Creates a new RGBA image. There must be the width `*` the height
    /// pixels.
    pub fn new(width: u32, height: u32, pixels: Vec<[u8; 4]>) -> (img: Self)
        requires
            pixels@.len() == width * height,
        ensures
            img.spec_width() == width,
            img.spec_height() == height,
            img.spec_pixels() == pixels@,
    {
        RasterImage { width, height, pixels }
    }

    /// Returns the image width.
    pub fn width(&self) -> (w: u32)
        ensures
            w == self.spec_width(),
    {
        self.width
    }

    /// Returns the image height.
    pub fn height(&self) -> (h: u32)
        ensures
            h == self.spec_height(),
    {
        self.height
    }

    /// Extracts a slice containing the entire RGBA buffer.
    pub fn pixels(&self) -> (p: &[[u8; 4]])
        ensures
            p@ == self.spec_pixels(),
    {
        self.pixels.as_slice()
    }

    /// Flattens a slice of the RGBA buffer into a new `Vec`.
    pub fn to_rgba(&self) -> (v: Vec<u8>)
        ensures
            v@ == rgba_bytes(self.spec_pixels()),
    {
        let mut out: Vec<u8> = Vec::new();
        let mut i: usize = 0;
        while i < self.pixels.len()
            invariant
                i <= self.pixels@.len(),
                out@ == rgba_bytes(self.pixels@.take(i as int)),
            decreases self.pixels@.len() - i,
        {
            let c = self.pixels[i];
            let ghost before = out@;
            out.push(c[0]);
            out.push(c[1]);
            out.push(c[2]);
            out.push(c[3]);
            proof {
                assert(self.pixels@.take(i + 1).drop_last() =~= self.pixels@.take(i as int));
                assert(out@ =~= before + c@);
            }
            i = i + 1;
        }
        proof {
            assert(self.pixels@.take(self.pixels@.len() as int) =~= self.pixels@);
        }
        out
    }

    /// Consumes the RGBA buffer and returns a flattened `Vec`.
    pub fn into_rgba(self) -> (v: Vec<u8>)
        ensures
            v@ == rgba_bytes(self.spec_pixels()),
    {
        self.to_rgba()
    }

    /// Flattens a slice of the RGBA buffer into a new `Vec` formatted as
    /// BGRA.
    pub fn to_bgra(&self) -> (v: Vec<u8>)
        ensures
            v@ == bgra_bytes(self.spec_pixels()),
    {
        let mut out: Vec<u8> = Vec::new();
        let mut i: usize = 0;
        while i < self.pixels.len()
            invariant
                i <= self.pixels@.len(),
                out@ == bgra_bytes(self.pixels@.take(i as int)),
            decreases self.pixels@.len() - i,
        {
            let c = self.pixels[i];
            let ghost before = out@;
            out.push(c[2]);
            out.push(c[1]);
            out.push(c[0]);
            out.push(c[3]);
            proof {
                assert(self.pixels@.take(i + 1).drop_last() =~= self.pixels@.take(i as int));
                assert(out@ =~= before + bgra_of(c));
            }
            i = i + 1;
        }
        proof {
            assert(self.pixels@.take(self.pixels@.len() as int) =~= self.pixels@);
        }
        out
    }

    /// Consumes the RGBA buffer and returns a flattened `Vec` formatted as
    /// BGRA.
    pub fn into_bgra(self) -> (v: Vec<u8>)
        ensures
            v@ == bgra_bytes(self.spec_pixels()),
    {
        self.to_bgra()
    }

    /// Builds the RGBA image of a decoded frame of colour or grey with an
    /// alpha channel.
    pub fn from_frame(frame: PngFrame) -> (img: Self)
        requires
            rgba_frame_convertible(frame_model(frame)),
        ensures
            is_frame_image(frame_model(frame), img),
    {
        let ghost m = frame_model(frame);
        let width = frame.width;
        let height = frame.height;
        let color = frame.color_code;
        let buffer = frame.buffer;
        let len = buffer.len();
        assert(width * height <= width * height * 2 <= width * height * 4) by (nonlinear_arith);
        let n: usize = width as usize * height as usize;
        let mut pixels: Vec<[u8; 4]> = Vec::new();
        let mut i: usize = 0;
        if color == 6 {
            while i < n
                invariant
                    i <= n,
                    n == width * height,
                    len == buffer@.len(),
                    len == n * 4,
                    color == 6,
                    pixels@.len() == i,
                    forall|j: int| 0 <= j < i ==> (#[trigger] pixels@[j])@ == frame_rgba_pixel(color, buffer@, j),
                decreases n - i,
            {
                let k = 4 * i;
                let p = [buffer[k], buffer[k + 1], buffer[k + 2], buffer[k + 3]];
                proof {
                    assert(p@ =~= frame_rgba_pixel(color, buffer@, i as int));
                }
                pixels.push(p);
                i = i + 1;
            }
        } else {
            while i < n
                invariant
                    i <= n,
                    n == width * height,
                    len == buffer@.len(),
                    len == n * 2,
                    color != 6,
                    pixels@.len() == i,
                    forall|j: int| 0 <= j < i ==> (#[trigger] pixels@[j])@ == frame_rgba_pixel(color, buffer@, j),
                decreases n - i,
            {
                let k = 2 * i;
                let y = buffer[k];
                let p = [y, y, y, buffer[k + 1]];
                proof {
                    assert(p@ =~= frame_rgba_pixel(color, buffer@, i as int));
                }
                pixels.push(p);
                i = i + 1;
            }
        }
        RasterImage::new(width, height, pixels)
    }

    /// Decodes a PNG image into an RGBA image: the decoder expands every
    /// image to colour or grey with an alpha channel, and grey is repeated
    /// in the red, green and blue channels.
    pub fn decode_png(input: &[u8]) -> (r: Result<Self, RasterError>)
        requires
            png_decoding(input@, true) matches Some(m) ==> rgba_frame_convertible(m),
        ensures
            decoded_rgba(input@, r),
    {
        match png_decode(input, true) {
            Err(e) => Err(RasterError::DecodingError(e)),
            Ok(frame) => Ok(RasterImage::from_frame(frame)),
        }
    }

    /// Decodes a PNG image into an RGBA image where the decoded frame has an
    /// alpha channel and one pixel for each place; `None` where it does not.
    pub fn try_decode_png(input: &[u8]) -> (r: Option<Result<Self, RasterError>>)
        ensures
            match r {
                None => png_decoding(input@, true) matches Some(m) && !rgba_frame_convertible(m),
                Some(d) => decoded_rgba(input@, d),
            },
    {
        let probe = png_decode(input, true);
        let convertible = match &probe {
            Err(_) => true,
            Ok(frame) => {
                let w = frame.width as u64;
                let h = frame.height as u64;
                assert(w * h <= 0xffff_ffff_u64 * 0xffff_ffff_u64) by (nonlinear_arith)
                    requires
                        w <= 0xffff_ffff,
                        h <= 0xffff_ffff,
                ;
                let pixels = w * h;
                let len = frame.buffer.len() as u64;
                if frame.color_code == 6 {
                    len % 4 == 0 && len / 4 == pixels
                } else if frame.color_code == 4 {
                    len % 2 == 0 && len / 2 == pixels
                } else {
                    false
                }
            },
        };
        if convertible {
            Some(Self::decode_png(input))
        } else {
            None
        }
    }

    /// Encodes the image as an uncompressed RGBA PNG image.
    pub fn encode_png(&self) -> (r: Result<Vec<u8>, RasterError>)
        ensures
            match png_encoding(
                self.spec_width(),
                self.spec_height(),
                6,
                false,
                None,
                None,
                rgba_bytes(self.spec_pixels()),
            ) {
                Some(bytes) => r matches Ok(v) && v@ == bytes,
                None => r matches Err(RasterError::EncodingError(_)),
            },
    {
        let data = self.to_rgba();
        match png_encode(self.width, self.height, 6, false, None, None, data.as_slice()) {
            Ok(v) => Ok(v),
            Err(e) => Err(RasterError::EncodingError(e)),
        }
    }
}

} // verus!
