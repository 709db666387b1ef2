//! The pixmaps of the five layouts, each holding exactly its width times its
//! height pixels.

use super::pixel::{LumaAlphaPixel, LumaPixel, PaletteIndex, RgbAlphaPixel, RgbPixel};
use super::{concat_channels, lemma_concat_channels_take, Pixmap};
use crate::formats::raster::error::RasterError;
use vstd::prelude::*;

verus! {

/// A pixmap of greyscale pixels.
#[derive(Debug, Clone, PartialEq, Eq)]
pub struct LumaPixmap {
    /// Width of the pixmap.
    width: u32,
    /// Height of the pixmap.
    height: u32,
    /// Packed array of greyscale pixels.
    pixels: Vec<LumaPixel>,
}

impl LumaPixmap {
    /// A pixmap of pixels already known to number the width times the height.
    pub(crate) fn from_parts(width: u32, height: u32, pixels: Vec<LumaPixel>) -> (m: Self)
        requires
            pixels@.len() == width * height,
        ensures
            m.spec_width() == width,
            m.spec_height() == height,
            m.spec_pixels() == pixels@,
    {
        LumaPixmap { width, height, pixels }
    }

    /// Creates a new `LumaPixmap`.
    ///
    /// Returns an `Err` if the number of pixels `!=` the width `*` the height.
    pub fn new(width: u32, height: u32, pixels: Vec<LumaPixel>) -> (r: Result<Self, RasterError>)
        requires
            width * height <= usize::MAX,
        ensures
            match r {
                Ok(m) => {
                    &&& pixels@.len() == width * height
                    &&& m.spec_width() == width
                    &&& m.spec_height() == height
                    &&& m.spec_pixels() == pixels@
                },
                Err(e) => {
                    &&& pixels@.len() != width * height
                    &&& e == RasterError::WrongDimensions((width * height) as usize, pixels@.len() as usize)
                },
            },
    {
        let expected_pixels = width as usize * height as usize;
        let actual_pixels = pixels.len();
        if expected_pixels != actual_pixels {
            return Err(RasterError::WrongDimensions(expected_pixels, actual_pixels));
        }
        Ok(LumaPixmap { width, height, pixels })
    }
}

impl LumaPixmap {
    /// Exchanges the width and the height, keeping the packed pixels.
    pub(crate) fn transpose_dimensions(&mut self)
        ensures
            final(self).spec_width() == old(self).spec_height(),
            final(self).spec_height() == old(self).spec_width(),
            final(self).spec_pixels() == old(self).spec_pixels(),
            final(self).spec_colour_table() == old(self).spec_colour_table(),
    {
        let width = self.width;
        self.width = self.height;
        self.height = width;
    }
}

impl Pixmap<LumaPixel> for LumaPixmap {
    closed spec fn spec_width(&self) -> u32 {
        self.width
    }

    open spec fn spec_colour_table(&self) -> Option<(Seq<RgbPixel>, Option<Seq<u8>>)> {
        None::<(Seq<RgbPixel>, Option<Seq<u8>>)>
    }

    closed spec fn spec_height(&self) -> u32 {
        self.height
    }

    closed spec fn spec_pixels(&self) -> Seq<LumaPixel> {
        self.pixels@
    }

    fn width(&self) -> (w: u32) {
        self.width
    }

    fn height(&self) -> (h: u32) {
        self.height
    }

    fn pixels(&self) -> (p: &Vec<LumaPixel>) {
        &self.pixels
    }

    fn pixels_mut(&mut self) -> (p: &mut Vec<LumaPixel>) {
        &mut self.pixels
    }

    fn pixels_concat(&self) -> (c: Vec<u8>) {
        let mut out: Vec<u8> = Vec::new();
        let mut i: usize = 0;
        while i < self.pixels.len()
            invariant
                i <= self.pixels.len(),
                out@ == concat_channels(self.pixels@.take(i as int)),
            decreases self.pixels.len() - i,
        {
            proof {
                lemma_concat_channels_take(self.pixels@, i as int);
            }
            let p = self.pixels[i];
            let ghost before = out@;
            out.push(p.y);
            assert(out@ =~= before + seq![p.y]);
            i += 1;
        }
        assert(self.pixels@.take(self.pixels@.len() as int) =~= self.pixels@);
        out
    }
}

/// A pixmap of greyscale alpha pixels.
#[derive(Debug, Clone, PartialEq, Eq)]
pub struct LumaAlphaPixmap {
    /// Width of the pixmap.
    width: u32,
    /// Height of the pixmap.
    height: u32,
    /// Packed array of greyscale alpha pixels.
    pixels: Vec<LumaAlphaPixel>,
}

impl LumaAlphaPixmap {
    /// A pixmap of pixels already known to number the width times the height.
    pub(crate) fn from_parts(width: u32, height: u32, pixels: Vec<LumaAlphaPixel>) -> (m: Self)
        requires
            pixels@.len() == width * height,
        ensures
            m.spec_width() == width,
            m.spec_height() == height,
            m.spec_pixels() == pixels@,
    {
        LumaAlphaPixmap { width, height, pixels }
    }

    /// Creates a new `LumaAlphaPixmap`.
    ///
    /// Returns an `Err` if the number of pixels `!=` the width `*` the height.
    pub fn new(width: u32, height: u32, pixels: Vec<LumaAlphaPixel>) -> (r: Result<Self, RasterError>)
        requires
            width * height <= usize::MAX,
        ensures
            match r {
                Ok(m) => {
                    &&& pixels@.len() == width * height
                    &&& m.spec_width() == width
                    &&& m.spec_height() == height
                    &&& m.spec_pixels() == pixels@
                },
                Err(e) => {
                    &&& pixels@.len() != width * height
                    &&& e == RasterError::WrongDimensions((width * height) as usize, pixels@.len() as usize)
                },
            },
    {
        let expected_pixels = width as usize * height as usize;
        let actual_pixels = pixels.len();
        if expected_pixels != actual_pixels {
            return Err(RasterError::WrongDimensions(expected_pixels, actual_pixels));
        }
        Ok(LumaAlphaPixmap { width, height, pixels })
    }
}

impl LumaAlphaPixmap {
    /// Exchanges the width and the height, keeping the packed pixels.
    pub(crate) fn transpose_dimensions(&mut self)
        ensures
            final(self).spec_width() == old(self).spec_height(),
            final(self).spec_height() == old(self).spec_width(),
            final(self).spec_pixels() == old(self).spec_pixels(),
            final(self).spec_colour_table() == old(self).spec_colour_table(),
    {
        let width = self.width;
        self.width = self.height;
        self.height = width;
    }
}

impl Pixmap<LumaAlphaPixel> for LumaAlphaPixmap {
    closed spec fn spec_width(&self) -> u32 {
        self.width
    }

    open spec fn spec_colour_table(&self) -> Option<(Seq<RgbPixel>, Option<Seq<u8>>)> {
        None::<(Seq<RgbPixel>, Option<Seq<u8>>)>
    }

    closed spec fn spec_height(&self) -> u32 {
        self.height
    }

    closed spec fn spec_pixels(&self) -> Seq<LumaAlphaPixel> {
        self.pixels@
    }

    fn width(&self) -> (w: u32) {
        self.width
    }

    fn height(&self) -> (h: u32) {
        self.height
    }

    fn pixels(&self) -> (p: &Vec<LumaAlphaPixel>) {
        &self.pixels
    }

    fn pixels_mut(&mut self) -> (p: &mut Vec<LumaAlphaPixel>) {
        &mut self.pixels
    }

    fn pixels_concat(&self) -> (c: Vec<u8>) {
        let mut out: Vec<u8> = Vec::new();
        let mut i: usize = 0;
        while i < self.pixels.len()
            invariant
                i <= self.pixels.len(),
                out@ == concat_channels(self.pixels@.take(i as int)),
            decreases self.pixels.len() - i,
        {
            proof {
                lemma_concat_channels_take(self.pixels@, i as int);
            }
            let p = self.pixels[i];
            let ghost before = out@;
            out.push(p.y);
            out.push(p.a);
            assert(out@ =~= before + seq![p.y, p.a]);
            i += 1;
        }
        assert(self.pixels@.take(self.pixels@.len() as int) =~= self.pixels@);
        out
    }
}

/// A pixmap of RGB pixels.
#[derive(Debug, Clone, PartialEq, Eq)]
pub struct RgbPixmap {
    /// Width of the pixmap.
    width: u32,
    /// Height of the pixmap.
    height: u32,
    /// Packed array of RGB pixels.
    pixels: Vec<RgbPixel>,
}

impl RgbPixmap {
    /// A pixmap of pixels already known to number the width times the height.
    pub(crate) fn from_parts(width: u32, height: u32, pixels: Vec<RgbPixel>) -> (m: Self)
        requires
            pixels@.len() == width * height,
        ensures
            m.spec_width() == width,
            m.spec_height() == height,
            m.spec_pixels() == pixels@,
    {
        RgbPixmap { width, height, pixels }
    }

    /// Creates a new `RgbPixmap`.
    ///
    /// Returns an `Err` if the number of pixels `!=` the width `*` the height.
    pub fn new(width: u32, height: u32, pixels: Vec<RgbPixel>) -> (r: Result<Self, RasterError>)
        requires
            width * height <= usize::MAX,
        ensures
            match r {
                Ok(m) => {
                    &&& pixels@.len() == width * height
                    &&& m.spec_width() == width
                    &&& m.spec_height() == height
                    &&& m.spec_pixels() == pixels@
                },
                Err(e) => {
                    &&& pixels@.len() != width * height
                    &&& e == RasterError::WrongDimensions((width * height) as usize, pixels@.len() as usize)
                },
            },
    {
        let expected_pixels = width as usize * height as usize;
        let actual_pixels = pixels.len();
        if expected_pixels != actual_pixels {
            return Err(RasterError::WrongDimensions(expected_pixels, actual_pixels));
        }
        Ok(RgbPixmap { width, height, pixels })
    }
}

impl RgbPixmap {
    /// Exchanges the width and the height, keeping the packed pixels.
    pub(crate) fn transpose_dimensions(&mut self)
        ensures
            final(self).spec_width() == old(self).spec_height(),
            final(self).spec_height() == old(self).spec_width(),
            final(self).spec_pixels() == old(self).spec_pixels(),
            final(self).spec_colour_table() == old(self).spec_colour_table(),
    {
        let width = self.width;
        self.width = self.height;
        self.height = width;
    }
}

impl Pixmap<RgbPixel> for RgbPixmap {
    closed spec fn spec_width(&self) -> u32 {
        self.width
    }

    open spec fn spec_colour_table(&self) -> Option<(Seq<RgbPixel>, Option<Seq<u8>>)> {
        None::<(Seq<RgbPixel>, Option<Seq<u8>>)>
    }

    closed spec fn spec_height(&self) -> u32 {
        self.height
    }

    closed spec fn spec_pixels(&self) -> Seq<RgbPixel> {
        self.pixels@
    }

    fn width(&self) -> (w: u32) {
        self.width
    }

    fn height(&self) -> (h: u32) {
        self.height
    }

    fn pixels(&self) -> (p: &Vec<RgbPixel>) {
        &self.pixels
    }

    fn pixels_mut(&mut self) -> (p: &mut Vec<RgbPixel>) {
        &mut self.pixels
    }

    fn pixels_concat(&self) -> (c: Vec<u8>) {
        let mut out: Vec<u8> = Vec::new();
        let mut i: usize = 0;
        while i < self.pixels.len()
            invariant
                i <= self.pixels.len(),
                out@ == concat_channels(self.pixels@.take(i as int)),
            decreases self.pixels.len() - i,
        {
            proof {
                lemma_concat_channels_take(self.pixels@, i as int);
            }
            let p = self.pixels[i];
            let ghost before = out@;
            out.push(p.r);
            out.push(p.g);
            out.push(p.b);
            assert(out@ =~= before + seq![p.r, p.g, p.b]);
            i += 1;
        }
        assert(self.pixels@.take(self.pixels@.len() as int) =~= self.pixels@);
        out
    }
}

/// A pixmap of RGB alpha pixels.
#[derive(Debug, Clone, PartialEq, Eq)]
pub struct RgbAlphaPixmap {
    /// Width of the pixmap.
    width: u32,
    /// Height of the pixmap.
    height: u32,
    /// Packed array of RGB alpha pixels.
    pixels: Vec<RgbAlphaPixel>,
}

impl RgbAlphaPixmap {
    /// A pixmap of pixels already known to number the width times the height.
    pub(crate) fn from_parts(width: u32, height: u32, pixels: Vec<RgbAlphaPixel>) -> (m: Self)
        requires
            pixels@.len() == width * height,
        ensures
            m.spec_width() == width,
            m.spec_height() == height,
            m.spec_pixels() == pixels@,
    {
        RgbAlphaPixmap { width, height, pixels }
    }

    /// Creates a new `RgbAlphaPixmap`.
    ///
    /// Returns an `Err` if the number of pixels `!=` the width `*` the height.
    pub fn new(width: u32, height: u32, pixels: Vec<RgbAlphaPixel>) -> (r: Result<Self, RasterError>)
        requires
            width * height <= usize::MAX,
        ensures
            match r {
                Ok(m) => {
                    &&& pixels@.len() == width * height
                    &&& m.spec_width() == width
                    &&& m.spec_height() == height
                    &&& m.spec_pixels() == pixels@
                },
                Err(e) => {
                    &&& pixels@.len() != width * height
                    &&& e == RasterError::WrongDimensions((width * height) as usize, pixels@.len() as usize)
                },
            },
    {
        let expected_pixels = width as usize * height as usize;
        let actual_pixels = pixels.len();
        if expected_pixels != actual_pixels {
            return Err(RasterError::WrongDimensions(expected_pixels, actual_pixels));
        }
        Ok(RgbAlphaPixmap { width, height, pixels })
    }
}

impl RgbAlphaPixmap {
    /// Exchanges the width and the height, keeping the packed pixels.
    pub(crate) fn transpose_dimensions(&mut self)
        ensures
            final(self).spec_width() == old(self).spec_height(),
            final(self).spec_height() == old(self).spec_width(),
            final(self).spec_pixels() == old(self).spec_pixels(),
            final(self).spec_colour_table() == old(self).spec_colour_table(),
    {
        let width = self.width;
        self.width = self.height;
        self.height = width;
    }
}

impl Pixmap<RgbAlphaPixel> for RgbAlphaPixmap {
    closed spec fn spec_width(&self) -> u32 {
        self.width
    }

    open spec fn spec_colour_table(&self) -> Option<(Seq<RgbPixel>, Option<Seq<u8>>)> {
        None::<(Seq<RgbPixel>, Option<Seq<u8>>)>
    }

    closed spec fn spec_height(&self) -> u32 {
        self.height
    }

    closed spec fn spec_pixels(&self) -> Seq<RgbAlphaPixel> {
        self.pixels@
    }

    fn width(&self) -> (w: u32) {
        self.width
    }

    fn height(&self) -> (h: u32) {
        self.height
    }

    fn pixels(&self) -> (p: &Vec<RgbAlphaPixel>) {
        &self.pixels
    }

    fn pixels_mut(&mut self) -> (p: &mut Vec<RgbAlphaPixel>) {
        &mut self.pixels
    }

    fn pixels_concat(&self) -> (c: Vec<u8>) {
        let mut out: Vec<u8> = Vec::new();
        let mut i: usize = 0;
        while i < self.pixels.len()
            invariant
                i <= self.pixels.len(),
                out@ == concat_channels(self.pixels@.take(i as int)),
            decreases self.pixels.len() - i,
        {
            proof {
                lemma_concat_channels_take(self.pixels@, i as int);
            }
            let p = self.pixels[i];
            let ghost before = out@;
            out.push(p.r);
            out.push(p.g);
            out.push(p.b);
            out.push(p.a);
            assert(out@ =~= before + seq![p.r, p.g, p.b, p.a]);
            i += 1;
        }
        assert(self.pixels@.take(self.pixels@.len() as int) =~= self.pixels@);
        out
    }
}

/// A pixmap of indexes into a palette of colours, with an optional alpha
/// for each palette entry.
#[derive(Debug, Clone, PartialEq, Eq)]
pub struct IndexedPixmap {
    /// Width of the pixmap.
    width: u32,
    /// Height of the pixmap.
    height: u32,
    /// Packed array of palette indexes.
    pixels: Vec<PaletteIndex>,
    /// Array of `RgbPixel`s.
    palette: Vec<RgbPixel>,
    /// Optional array of alpha values corresponding to pixels in `palette`.
    ///
    /// Missing values are assumed to be opaque (`255`).
    trns: Option<Vec<u8>>,
}

/// The alphas of a palette as a sequence, where there are any.
pub open spec fn trns_view(t: Option<Vec<u8>>) -> Option<Seq<u8>> {
    match t {
        Some(v) => Some(v@),
        None => None,
    }
}

impl IndexedPixmap {
    /// A pixmap of indexes already known to number the width times the
    /// height.
    pub(crate) fn from_parts(
        width: u32,
        height: u32,
        pixels: Vec<PaletteIndex>,
        palette: Vec<RgbPixel>,
        trns: Option<Vec<u8>>,
    ) -> (m: Self)
        requires
            pixels@.len() == width * height,
        ensures
            m.spec_width() == width,
            m.spec_height() == height,
            m.spec_pixels() == pixels@,
            m.spec_palette() == palette@,
            m.spec_trns() == trns_view(trns),
    {
        IndexedPixmap { width, height, pixels, palette, trns }
    }

    /// The colours that the indexes point to.
    pub closed spec fn spec_palette(&self) -> Seq<RgbPixel> {
        self.palette@
    }

    /// The alphas of the palette entries, where the pixmap has them.
    pub closed spec fn spec_trns(&self) -> Option<Seq<u8>> {
        trns_view(self.trns)
    }

    /// Creates a new `IndexedPixmap`.
    ///
    /// Returns an `Err` if the number of pixels `!=` the width `*` the height.
    pub fn new(
        width: u32,
        height: u32,
        pixels: Vec<PaletteIndex>,
        palette: Vec<RgbPixel>,
        trns: Option<Vec<u8>>,
    ) -> (r: Result<Self, RasterError>)
        requires
            width * height <= usize::MAX,
        ensures
            match r {
                Ok(m) => {
                    &&& pixels@.len() == width * height
                    &&& m.spec_width() == width
                    &&& m.spec_height() == height
                    &&& m.spec_pixels() == pixels@
                    &&& m.spec_palette() == palette@
                    &&& m.spec_trns() == trns_view(trns)
                },
                Err(e) => {
                    &&& pixels@.len() != width * height
                    &&& e == RasterError::WrongDimensions((width * height) as usize, pixels@.len() as usize)
                },
            },
    {
        let expected_pixels = width as usize * height as usize;
        let actual_pixels = pixels.len();
        if expected_pixels != actual_pixels {
            return Err(RasterError::WrongDimensions(expected_pixels, actual_pixels));
        }
        Ok(IndexedPixmap { width, height, pixels, palette, trns })
    }

    /// Returns a reference to the palette.
    pub fn palette(&self) -> (p: &Vec<RgbPixel>)
        ensures
            p@ == self.spec_palette(),
    {
        &self.palette
    }

    /// Returns a reference to the trns.
    pub fn trns(&self) -> (t: &Option<Vec<u8>>)
        ensures
            trns_view(*t) == self.spec_trns(),
    {
        &self.trns
    }
}

impl IndexedPixmap {
    /// Exchanges the width and the height, keeping the packed pixels.
    pub(crate) fn transpose_dimensions(&mut self)
        ensures
            final(self).spec_width() == old(self).spec_height(),
            final(self).spec_height() == old(self).spec_width(),
            final(self).spec_pixels() == old(self).spec_pixels(),
            final(self).spec_colour_table() == old(self).spec_colour_table(),
    {
        let width = self.width;
        self.width = self.height;
        self.height = width;
    }
}

impl Pixmap<PaletteIndex> for IndexedPixmap {
    closed spec fn spec_width(&self) -> u32 {
        self.width
    }

    open spec fn spec_colour_table(&self) -> Option<(Seq<RgbPixel>, Option<Seq<u8>>)> {
        Some((self.spec_palette(), self.spec_trns()))
    }

    closed spec fn spec_height(&self) -> u32 {
        self.height
    }

    closed spec fn spec_pixels(&self) -> Seq<PaletteIndex> {
        self.pixels@
    }

    fn width(&self) -> (w: u32) {
        self.width
    }

    fn height(&self) -> (h: u32) {
        self.height
    }

    fn pixels(&self) -> (p: &Vec<PaletteIndex>) {
        &self.pixels
    }

    fn pixels_mut(&mut self) -> (p: &mut Vec<PaletteIndex>) {
        &mut self.pixels
    }

    fn pixels_concat(&self) -> (c: Vec<u8>) {
        let mut out: Vec<u8> = Vec::new();
        let mut i: usize = 0;
        while i < self.pixels.len()
            invariant
                i <= self.pixels.len(),
                out@ == concat_channels(self.pixels@.take(i as int)),
            decreases self.pixels.len() - i,
        {
            proof {
                lemma_concat_channels_take(self.pixels@, i as int);
            }
            let p = self.pixels[i];
            let ghost before = out@;
            out.push(p.i);
            assert(out@ =~= before + seq![p.i]);
            i += 1;
        }
        assert(self.pixels@.take(self.pixels@.len() as int) =~= self.pixels@);
        out
    }
}

} // verus!
