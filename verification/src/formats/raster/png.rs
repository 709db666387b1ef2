//! PNG images: the frame that the `png` crate decodes, turned into a
//! pixmap, and pixmaps handed to the `png` crate's encoder.

use super::error::RasterError;
use png::Transformations;
use super::pixmap::dynamic::{ColorType, DynamicPixmap};
use super::pixmap::layouts::{
    trns_view, IndexedPixmap, LumaAlphaPixmap, LumaPixmap, RgbAlphaPixmap, RgbPixmap,
};
use super::pixmap::pixel::{LumaAlphaPixel, LumaPixel, PaletteIndex, RgbAlphaPixel, RgbPixel};
use super::pixmap::Pixmap;
use vstd::prelude::*;

verus! {

#[verifier::external_type_specification]
#[verifier::external_body]
pub struct ExDecodingError(png::DecodingError);

#[verifier::external_type_specification]
#[verifier::external_body]
pub struct ExEncodingError(png::EncodingError);

/// The first frame of a PNG image as the decoder gives it, 16-bit samples
/// cut to 8 bits.
pub struct PngFrame {
    pub width: u32,
    pub height: u32,
    /// The PNG colour type code: 0 grey, 2 colour, 3 indexed, 4 grey with
    /// alpha, 6 colour with alpha.
    pub color_code: u8,
    /// The bits of a sample.
    pub bit_depth: u8,
    /// The samples, row after row.
    pub buffer: Vec<u8>,
    /// The palette, three bytes a colour, where the image has one.
    pub palette: Option<Vec<u8>>,
    /// The alphas of the palette entries, where the image has them.
    pub trns: Option<Vec<u8>>,
}

/// A frame as plain values.
pub type FrameModel = (u32, u32, u8, u8, Seq<u8>, Option<Seq<u8>>, Option<Seq<u8>>);

/// The plain values of a frame.
pub open spec fn frame_model(f: PngFrame) -> FrameModel {
    (f.width, f.height, f.color_code, f.bit_depth, f.buffer@, trns_view(f.palette), trns_view(f.trns))
}

/// What the `png` crate's decoder makes of `input`, with or without the
/// transformation that expands every image to one with an alpha channel:
/// its first frame, or nothing where it refuses the input.
pub uninterp spec fn png_decoding(input: Seq<u8>, expand_alpha: bool) -> Option<FrameModel>;

/// What the `png` crate's encoder makes of an image of 8-bit samples: the
/// PNG file, or nothing where it refuses the image.
pub uninterp spec fn png_encoding(
    width: u32,
    height: u32,
    color_code: u8,
    high_compression: bool,
    palette: Option<Seq<u8>>,
    trns: Option<Seq<u8>>,
    data: Seq<u8>,
) -> Option<Seq<u8>>;

/// `png::Decoder` with 16-bit samples cut to 8 bits, and with
/// `Transformations::ALPHA` where `expand_alpha` holds (`read_info`, then
/// `next_frame` into a buffer of `output_buffer_size` bytes, then the
/// palette and alphas of `info`): the first frame of the image, its colour
/// type and bit depth as their PNG numbers, as a function of the input
/// bytes and the transformations alone, or the decoder's error. It panics,
/// as the `expect` in its body does, where the frame would need more than
/// `isize::MAX` bytes; that is not stated.
#[verifier::external_body]
pub(crate) fn png_decode(input: &[u8], expand_alpha: bool) -> (r: Result<PngFrame, png::DecodingError>)
    ensures
        match r {
            Ok(f) => png_decoding(input@, expand_alpha) == Some(frame_model(f)),
            Err(_) => png_decoding(input@, expand_alpha) is None,
        },
{
    let mut decoder = png::Decoder::new(std::io::Cursor::new(input));
    decoder.set_transformations(if expand_alpha { Transformations::STRIP_16 | Transformations::ALPHA } else { Transformations::STRIP_16 });
    let mut reader = decoder.read_info()?;
    let mut buffer = vec![0; reader.output_buffer_size().expect("buffer length should not exceed isize::MAX")];
    let info = reader.next_frame(&mut buffer)?;
    let palette = reader.info().palette.as_ref().map(|p| p.to_vec());
    let trns = reader.info().trns.as_ref().map(|t| t.to_vec());
    let (color_code, bit_depth) = (info.color_type as u8, info.bit_depth as u8);
    Ok(PngFrame { width: info.width, height: info.height, color_code, bit_depth, buffer, palette, trns })
}

/// `png::Encoder` at 8 bits a sample, with the colour type of the given
/// PNG number (`ColorType::from_u8`), palette and alphas, and high or no
/// compression (`write_header`, then
/// `write_image_data` and `finish`): the PNG file, as a function of these
/// values alone, or the encoder's error.
#[verifier::external_body]
pub(crate) fn png_encode(
    width: u32,
    height: u32,
    color_code: u8,
    high_compression: bool,
    palette: Option<Vec<u8>>,
    trns: Option<Vec<u8>>,
    data: &[u8],
) -> (r: Result<Vec<u8>, png::EncodingError>)
    requires
        color_code == 0 || color_code == 2 || color_code == 3 || color_code == 4 || color_code == 6,
    ensures
        match r {
            Ok(v) => png_encoding(width, height, color_code, high_compression, trns_view(palette), trns_view(trns), data@) == Some(v@),
            Err(_) => png_encoding(width, height, color_code, high_compression, trns_view(palette), trns_view(trns), data@) is None,
        },
{
    let mut buffer = Vec::new();
    let mut encoder = png::Encoder::new(&mut buffer, width, height);
    encoder.set_depth(png::BitDepth::Eight);
    encoder.set_color(png::ColorType::from_u8(color_code).unwrap());
    encoder.set_compression(if high_compression { png::Compression::High } else { png::Compression::NoCompression });
    if let Some(p) = palette { encoder.set_palette(p); }
    if let Some(t) = trns { encoder.set_trns(t); }
    let mut writer = encoder.write_header()?;
    writer.write_image_data(data)?;
    writer.finish()?;
    Ok(buffer)
}

/// Greyscale pixels, one a byte.
pub open spec fn luma_pixels_of(s: Seq<u8>) -> Seq<LumaPixel> {
    s.map_values(|y: u8| LumaPixel { y })
}

/// Greyscale pixels with alpha, two bytes each.
pub open spec fn luma_alpha_pixels_of(s: Seq<u8>) -> Seq<LumaAlphaPixel> {
    Seq::new(s.len() / 2, |i: int| LumaAlphaPixel { y: s[2 * i], a: s[2 * i + 1] })
}

/// Colour pixels, three bytes each.
pub open spec fn rgb_pixels_of(s: Seq<u8>) -> Seq<RgbPixel> {
    Seq::new(s.len() / 3, |i: int| RgbPixel { r: s[3 * i], g: s[3 * i + 1], b: s[3 * i + 2] })
}

/// Colour pixels with alpha, four bytes each.
pub open spec fn rgb_alpha_pixels_of(s: Seq<u8>) -> Seq<RgbAlphaPixel> {
    Seq::new(
        s.len() / 4,
        |i: int| RgbAlphaPixel { r: s[4 * i], g: s[4 * i + 1], b: s[4 * i + 2], a: s[4 * i + 3] },
    )
}

/// Palette indexes, one a byte.
pub open spec fn index_pixels_of(s: Seq<u8>) -> Seq<PaletteIndex> {
    s.map_values(|i: u8| PaletteIndex { i })
}

/// The samples fill whole pixels, an indexed frame has a palette of whole
/// colours, and the pixel count can be held: without these, building the
/// pixmap stops.
pub open spec fn frame_convertible(m: FrameModel) -> bool {
    let (w, h, code, _, buffer, palette, _) = m;
    &&& w * h <= usize::MAX
    &&& match color_type_of_code(code) {
        None => false,
        Some(ColorType::Grayscale) => true,
        Some(ColorType::GrayscaleAlpha) => buffer.len() % 2 == 0,
        Some(ColorType::Rgb) => buffer.len() % 3 == 0,
        Some(ColorType::Rgba) => buffer.len() % 4 == 0,
        Some(ColorType::Indexed) => palette matches Some(p) && p.len() % 3 == 0,
    }
}

/// The colour type of a PNG colour type number.
pub open spec fn color_type_of_code(code: u8) -> Option<ColorType> {
    if code == 0 {
        Some(ColorType::Grayscale)
    } else if code == 2 {
        Some(ColorType::Rgb)
    } else if code == 3 {
        Some(ColorType::Indexed)
    } else if code == 4 {
        Some(ColorType::GrayscaleAlpha)
    } else if code == 6 {
        Some(ColorType::Rgba)
    } else {
        None
    }
}

/// `r` is the pixmap that a frame makes: the pixels its samples give, in a
/// pixmap of its layout, or the error of a pixel count that is not the width
/// times the height.
pub open spec fn frame_pixmap(m: FrameModel, r: Result<DynamicPixmap, RasterError>) -> bool {
    let (w, h, code, _, buffer, palette, trns) = m;
    let color_type = color_type_of_code(code).unwrap();
    let count = match color_type {
        ColorType::Grayscale => buffer.len(),
        ColorType::GrayscaleAlpha => buffer.len() / 2,
        ColorType::Rgb => buffer.len() / 3,
        ColorType::Rgba => buffer.len() / 4,
        ColorType::Indexed => buffer.len(),
    };
    if count != w * h {
        r == Err::<DynamicPixmap, RasterError>(RasterError::WrongDimensions((w * h) as usize, count as usize))
    } else {
        r matches Ok(d) && d.spec_width() == w && d.spec_height() == h && match (color_type, d) {
            (ColorType::Grayscale, DynamicPixmap::Luma(p)) => p.spec_pixels() == luma_pixels_of(buffer),
            (ColorType::GrayscaleAlpha, DynamicPixmap::LumaAlpha(p)) => p.spec_pixels() == luma_alpha_pixels_of(buffer),
            (ColorType::Rgb, DynamicPixmap::Rgb(p)) => p.spec_pixels() == rgb_pixels_of(buffer),
            (ColorType::Rgba, DynamicPixmap::RgbAlpha(p)) => p.spec_pixels() == rgb_alpha_pixels_of(buffer),
            (ColorType::Indexed, DynamicPixmap::Indexed(p)) => {
                &&& p.spec_pixels() == index_pixels_of(buffer)
                &&& p.spec_palette() == rgb_pixels_of(palette.unwrap())
                &&& p.spec_trns() == trns
            },
            _ => false,
        }
    }
}

fn luma_from_bytes(s: &Vec<u8>) -> (out: Vec<LumaPixel>)
    ensures
        out@ == luma_pixels_of(s@),
{
    let mut out: Vec<LumaPixel> = Vec::with_capacity(s.len());
    let mut i: usize = 0;
    while i < s.len()
        invariant
            i <= s@.len(),
            out@ == luma_pixels_of(s@.take(i as int)),
        decreases s@.len() - i,
    {
        out.push(LumaPixel { y: s[i] });
        proof {
            assert(out@ =~= luma_pixels_of(s@.take(i + 1)));
        }
        i = i + 1;
    }
    assert(s@.take(s@.len() as int) =~= s@);
    out
}

fn indexes_from_bytes(s: &Vec<u8>) -> (out: Vec<PaletteIndex>)
    ensures
        out@ == index_pixels_of(s@),
{
    let mut out: Vec<PaletteIndex> = Vec::with_capacity(s.len());
    let mut i: usize = 0;
    while i < s.len()
        invariant
            i <= s@.len(),
            out@ == index_pixels_of(s@.take(i as int)),
        decreases s@.len() - i,
    {
        out.push(PaletteIndex { i: s[i] });
        proof {
            assert(out@ =~= index_pixels_of(s@.take(i + 1)));
        }
        i = i + 1;
    }
    assert(s@.take(s@.len() as int) =~= s@);
    out
}

fn luma_alpha_from_bytes(s: &Vec<u8>) -> (out: Vec<LumaAlphaPixel>)
    requires
        s@.len() % 2 == 0,
    ensures
        out@ == luma_alpha_pixels_of(s@),
{
    let n = s.len() / 2;
    let mut out: Vec<LumaAlphaPixel> = Vec::with_capacity(n);
    let mut i: usize = 0;
    while i < n
        invariant
            n == s@.len() / 2,
            s@.len() <= usize::MAX,
            i <= n,
            out@.len() == i,
            forall|k: int| 0 <= k < i ==> #[trigger] out@[k] == luma_alpha_pixels_of(s@)[k],
        decreases n - i,
    {
        assert(2 * i + 2 <= s@.len()) by (nonlinear_arith)
            requires
                i < n,
                n == s@.len() / 2,
        ;
        out.push(LumaAlphaPixel { y: s[2 * i], a: s[2 * i + 1] });
        i = i + 1;
    }
    assert(out@ =~= luma_alpha_pixels_of(s@));
    out
}

fn rgb_from_bytes(s: &Vec<u8>) -> (out: Vec<RgbPixel>)
    requires
        s@.len() % 3 == 0,
    ensures
        out@ == rgb_pixels_of(s@),
{
    let n = s.len() / 3;
    let mut out: Vec<RgbPixel> = Vec::with_capacity(n);
    let mut i: usize = 0;
    while i < n
        invariant
            n == s@.len() / 3,
            s@.len() <= usize::MAX,
            i <= n,
            out@.len() == i,
            forall|k: int| 0 <= k < i ==> #[trigger] out@[k] == rgb_pixels_of(s@)[k],
        decreases n - i,
    {
        assert(3 * i + 3 <= s@.len()) by (nonlinear_arith)
            requires
                i < n,
                n == s@.len() / 3,
        ;
        out.push(RgbPixel { r: s[3 * i], g: s[3 * i + 1], b: s[3 * i + 2] });
        i = i + 1;
    }
    assert(out@ =~= rgb_pixels_of(s@));
    out
}

fn rgb_alpha_from_bytes(s: &Vec<u8>) -> (out: Vec<RgbAlphaPixel>)
    requires
        s@.len() % 4 == 0,
    ensures
        out@ == rgb_alpha_pixels_of(s@),
{
    let n = s.len() / 4;
    let mut out: Vec<RgbAlphaPixel> = Vec::with_capacity(n);
    let mut i: usize = 0;
    while i < n
        invariant
            n == s@.len() / 4,
            s@.len() <= usize::MAX,
            i <= n,
            out@.len() == i,
            forall|k: int| 0 <= k < i ==> #[trigger] out@[k] == rgb_alpha_pixels_of(s@)[k],
        decreases n - i,
    {
        assert(4 * i + 4 <= s@.len()) by (nonlinear_arith)
            requires
                i < n,
                n == s@.len() / 4,
        ;
        out.push(RgbAlphaPixel { r: s[4 * i], g: s[4 * i + 1], b: s[4 * i + 2], a: s[4 * i + 3] });
        i = i + 1;
    }
    assert(out@ =~= rgb_alpha_pixels_of(s@));
    out
}

/// Whether a decoded frame can be built into a pixmap.
pub(crate) fn frame_is_convertible(frame: &PngFrame) -> (b: bool)
    ensures
        b == frame_convertible(frame_model(*frame)),
{
    let w = frame.width as u64;
    let h = frame.height as u64;
    assert(w * h <= 0xffff_ffff_u64 * 0xffff_ffff_u64) by (nonlinear_arith)
        requires
            w <= 0xffff_ffff,
            h <= 0xffff_ffff,
    ;
    let fits = w * h <= (usize::MAX as u64);
    let whole = match ColorType::from_png_code(frame.color_code) {
        None => false,
        Some(ColorType::Grayscale) => true,
        Some(ColorType::GrayscaleAlpha) => frame.buffer.len() % 2 == 0,
        Some(ColorType::Rgb) => frame.buffer.len() % 3 == 0,
        Some(ColorType::Rgba) => frame.buffer.len() % 4 == 0,
        Some(ColorType::Indexed) => match &frame.palette {
            Some(p) => p.len() % 3 == 0,
            None => false,
        },
    };
    fits && whole
}

/// The pixmap of a decoded frame.
pub fn pixmap_from_frame(frame: PngFrame) -> (r: Result<DynamicPixmap, RasterError>)
    requires
        frame_convertible(frame_model(frame)),
    ensures
        frame_pixmap(frame_model(frame), r),
{
    let ghost m = frame_model(frame);
    let PngFrame { width, height, color_code, bit_depth: _, buffer, palette, trns } = frame;
    let color_type = ColorType::from_png_code(color_code).unwrap();
    match color_type {
        ColorType::Grayscale => {
            let pixels = luma_from_bytes(&buffer);
            match LumaPixmap::new(width, height, pixels) {
                Ok(p) => Ok(DynamicPixmap::Luma(p)),
                Err(e) => Err(e),
            }
        },
        ColorType::GrayscaleAlpha => {
            let pixels = luma_alpha_from_bytes(&buffer);
            match LumaAlphaPixmap::new(width, height, pixels) {
                Ok(p) => Ok(DynamicPixmap::LumaAlpha(p)),
                Err(e) => Err(e),
            }
        },
        ColorType::Rgb => {
            let pixels = rgb_from_bytes(&buffer);
            match RgbPixmap::new(width, height, pixels) {
                Ok(p) => Ok(DynamicPixmap::Rgb(p)),
                Err(e) => Err(e),
            }
        },
        ColorType::Rgba => {
            let pixels = rgb_alpha_from_bytes(&buffer);
            match RgbAlphaPixmap::new(width, height, pixels) {
                Ok(p) => Ok(DynamicPixmap::RgbAlpha(p)),
                Err(e) => Err(e),
            }
        },
        ColorType::Indexed => {
            let palette_bytes = palette.unwrap();
            let pixels = indexes_from_bytes(&buffer);
            let colours = rgb_from_bytes(&palette_bytes);
            match IndexedPixmap::new(width, height, pixels, colours, trns) {
                Ok(p) => Ok(DynamicPixmap::Indexed(p)),
                Err(e) => Err(e),
            }
        },
    }
}

/// The pixmap that `png_decoding` gives for `input` untransformed, where it gives one
/// that can be built; `DecodingError` where the decoder refuses `input`.
pub open spec fn decoded_pixmap(input: Seq<u8>, r: Result<DynamicPixmap, RasterError>) -> bool {
    match png_decoding(input, false) {
        None => r matches Err(RasterError::DecodingError(_)),
        Some(m) => frame_pixmap(m, r),
    }
}

impl DynamicPixmap {
    /// Decodes a PNG image into a pixmap of its layout.
    pub fn decode_png(input: &[u8]) -> (r: Result<Self, RasterError>)
        requires
            png_decoding(input@, false) matches Some(m) ==> frame_convertible(m),
        ensures
            decoded_pixmap(input@, r),
    {
        match png_decode(input, false) {
            Err(e) => Err(RasterError::DecodingError(e)),
            Ok(frame) => pixmap_from_frame(frame),
        }
    }

    /// Decodes a PNG image into a pixmap of its layout, where the decoded
    /// frame fills whole pixels (and, indexed, has a palette of whole
    /// colours); `None` where it does not.
    pub fn try_decode_png(input: &[u8]) -> (r: Option<Result<Self, RasterError>>)
        ensures
            match r {
                None => png_decoding(input@, false) matches Some(m) && !frame_convertible(m),
                Some(d) => decoded_pixmap(input@, d),
            },
    {
        let convertible = match png_decode(input, false) {
            Err(_) => true,
            Ok(frame) => frame_is_convertible(&frame),
        };
        if convertible {
            Some(Self::decode_png(input))
        } else {
            None
        }
    }

    /// Hands the pixmap to the PNG encoder: its layout, highly compressed,
    /// with its palette and alphas where it is indexed.
    pub(crate) fn png_bytes(&self) -> (r: Result<Vec<u8>, png::EncodingError>)
        ensures
            match encoded_pixmap(*self) {
                Some(bytes) => r matches Ok(v) && v@ == bytes,
                None => r is Err,
            },
    {
        let width = self.width();
        let height = self.height();
        let color_code = self.color_type().png_code();
        let (palette, trns) = match self {
            DynamicPixmap::Indexed(p) => {
                let bytes = palette_bytes(p.palette());
                let trns = match p.trns() {
                    Some(t) => Some(t.clone()),
                    None => None,
                };
                (Some(bytes), trns)
            },
            _ => (None, None),
        };
        let data = self.pixels_concat();
        png_encode(width, height, color_code, true, palette, trns, data.as_slice())
    }

    /// Encodes the pixmap as a PNG image of its layout, highly compressed,
    /// with its palette and alphas where it is indexed.
    pub fn encode_png(&self) -> (r: Result<Vec<u8>, RasterError>)
        ensures
            match encoded_pixmap(*self) {
                Some(bytes) => r matches Ok(v) && v@ == bytes,
                None => r matches Err(RasterError::EncodingError(_)),
            },
    {
        match self.png_bytes() {
            Ok(v) => Ok(v),
            Err(e) => Err(RasterError::EncodingError(e)),
        }
    }
}

/// What the PNG encoder makes of a pixmap: its layout's colour type, high
/// compression, its palette and alphas where it is indexed, and its
/// concatenated pixels.
pub open spec fn encoded_pixmap(d: DynamicPixmap) -> Option<Seq<u8>> {
    png_encoding(
        d.spec_width(),
        d.spec_height(),
        color_type_of(d).spec_png_code(),
        true,
        palette_bytes_of(d),
        alphas_of(d),
        d.spec_concat(),
    )
}

/// The colour type of a pixmap's layout.
pub open spec fn color_type_of(d: DynamicPixmap) -> ColorType {
    match d {
        DynamicPixmap::Luma(_) => ColorType::Grayscale,
        DynamicPixmap::LumaAlpha(_) => ColorType::GrayscaleAlpha,
        DynamicPixmap::Rgb(_) => ColorType::Rgb,
        DynamicPixmap::RgbAlpha(_) => ColorType::Rgba,
        DynamicPixmap::Indexed(_) => ColorType::Indexed,
    }
}

/// The bytes of a palette, three a colour.
pub open spec fn palette_seq_bytes(p: Seq<RgbPixel>) -> Seq<u8>
    decreases p.len(),
{
    if p.len() == 0 {
        Seq::empty()
    } else {
        palette_seq_bytes(p.drop_last()) + seq![p.last().r, p.last().g, p.last().b]
    }
}

/// The palette that an encoder is given: an indexed pixmap's, else none.
pub open spec fn palette_bytes_of(d: DynamicPixmap) -> Option<Seq<u8>> {
    match d {
        DynamicPixmap::Indexed(p) => Some(palette_seq_bytes(p.spec_palette())),
        _ => None,
    }
}

/// The alphas that an encoder is given: an indexed pixmap's, else none.
pub open spec fn alphas_of(d: DynamicPixmap) -> Option<Seq<u8>> {
    match d {
        DynamicPixmap::Indexed(p) => p.spec_trns(),
        _ => None,
    }
}

fn palette_bytes(p: &Vec<RgbPixel>) -> (out: Vec<u8>)
    ensures
        out@ == palette_seq_bytes(p@),
{
    let mut out: Vec<u8> = Vec::new();
    let mut i: usize = 0;
    while i < p.len()
        invariant
            i <= p@.len(),
            out@ == palette_seq_bytes(p@.take(i as int)),
        decreases p@.len() - i,
    {
        let c = p[i];
        let ghost before = out@;
        out.push(c.r);
        out.push(c.g);
        out.push(c.b);
        proof {
            assert(p@.take(i + 1).drop_last() =~= p@.take(i as int));
            assert(out@ =~= before + seq![c.r, c.g, c.b]);
        }
        i = i + 1;
    }
    assert(p@.take(p@.len() as int) =~= p@);
    out
}

} // verus!
