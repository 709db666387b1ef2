//! A pixmap of any of the five layouts.

use super::convert::{
    indexed_colour, indexed_from, indexed_from_alpha, rgb_alpha_pixels, rgb_pixels, IntoPixmap,
};
use super::layouts::{IndexedPixmap, LumaAlphaPixmap, LumaPixmap, RgbAlphaPixmap, RgbPixmap};
use super::pixel::{LumaAlphaPixel, LumaPixel, PaletteIndex, RgbAlphaPixel, RgbPixel};
use super::{concat_channels, lemma_concat_channels_len, Pixmap};
use vstd::prelude::*;

verus! {

/// The PNG colour types, one for each pixmap layout.
#[derive(Debug, Clone, Copy, PartialEq, Eq, Structural)]
pub enum ColorType {
    Grayscale,
    GrayscaleAlpha,
    Rgb,
    Rgba,
    Indexed,
}

impl ColorType {
    /// The number PNG files give the colour type.
    pub open spec fn spec_png_code(self) -> u8 {
        match self {
            ColorType::Grayscale => 0,
            ColorType::Rgb => 2,
            ColorType::Indexed => 3,
            ColorType::GrayscaleAlpha => 4,
            ColorType::Rgba => 6,
        }
    }

    /// Returns the number PNG files give the colour type.
    pub fn png_code(self) -> (c: u8)
        ensures
            c == self.spec_png_code(),
    {
        match self {
            ColorType::Grayscale => 0,
            ColorType::Rgb => 2,
            ColorType::Indexed => 3,
            ColorType::GrayscaleAlpha => 4,
            ColorType::Rgba => 6,
        }
    }

    /// The colour type of a PNG colour type number, where it is one.
    pub fn from_png_code(code: u8) -> (c: Option<ColorType>)
        ensures
            c == (if code == 0 {
                Some(ColorType::Grayscale)
            } else if code == 2 {
                Some(ColorType::Rgb)
            } else if code == 3 {
                Some(ColorType::Indexed)
            } else if code == 4 {
                Some(ColorType::GrayscaleAlpha)
            } else if code == 6 {
                Some(ColorType::Rgba)
            } else {
                None
            }),
    {
        if code == 0 {
            Some(ColorType::Grayscale)
        } else if code == 2 {
            Some(ColorType::Rgb)
        } else if code == 3 {
            Some(ColorType::Indexed)
        } else if code == 4 {
            Some(ColorType::GrayscaleAlpha)
        } else if code == 6 {
            Some(ColorType::Rgba)
        } else {
            None
        }
    }
}

/// A pixmap of one of the five layouts.
#[derive(Debug, Clone)]
pub enum DynamicPixmap {
    Luma(LumaPixmap),
    LumaAlpha(LumaAlphaPixmap),
    Rgb(RgbPixmap),
    RgbAlpha(RgbAlphaPixmap),
    Indexed(IndexedPixmap),
}

impl DynamicPixmap {
    /// The width of the pixmap held.
    pub open spec fn spec_width(&self) -> u32 {
        match self {
            DynamicPixmap::Luma(p) => p.spec_width(),
            DynamicPixmap::LumaAlpha(p) => p.spec_width(),
            DynamicPixmap::Rgb(p) => p.spec_width(),
            DynamicPixmap::RgbAlpha(p) => p.spec_width(),
            DynamicPixmap::Indexed(p) => p.spec_width(),
        }
    }

    /// The height of the pixmap held.
    pub open spec fn spec_height(&self) -> u32 {
        match self {
            DynamicPixmap::Luma(p) => p.spec_height(),
            DynamicPixmap::LumaAlpha(p) => p.spec_height(),
            DynamicPixmap::Rgb(p) => p.spec_height(),
            DynamicPixmap::RgbAlpha(p) => p.spec_height(),
            DynamicPixmap::Indexed(p) => p.spec_height(),
        }
    }

    /// The number of pixels of the pixmap held.
    pub open spec fn spec_pixels_len(&self) -> nat {
        match self {
            DynamicPixmap::Luma(p) => p.spec_pixels().len(),
            DynamicPixmap::LumaAlpha(p) => p.spec_pixels().len(),
            DynamicPixmap::Rgb(p) => p.spec_pixels().len(),
            DynamicPixmap::RgbAlpha(p) => p.spec_pixels().len(),
            DynamicPixmap::Indexed(p) => p.spec_pixels().len(),
        }
    }

    /// The bytes of the pixmap held, each pixel's channels in turn.
    pub open spec fn spec_concat(&self) -> Seq<u8> {
        match self {
            DynamicPixmap::Luma(p) => concat_channels(p.spec_pixels()),
            DynamicPixmap::LumaAlpha(p) => concat_channels(p.spec_pixels()),
            DynamicPixmap::Rgb(p) => concat_channels(p.spec_pixels()),
            DynamicPixmap::RgbAlpha(p) => concat_channels(p.spec_pixels()),
            DynamicPixmap::Indexed(p) => concat_channels(p.spec_pixels()),
        }
    }

    /// Returns the width of the pixmap.
    pub fn width(&self) -> (w: u32)
        ensures
            w == self.spec_width(),
    {
        match self {
            DynamicPixmap::Luma(p) => p.width(),
            DynamicPixmap::LumaAlpha(p) => p.width(),
            DynamicPixmap::Rgb(p) => p.width(),
            DynamicPixmap::RgbAlpha(p) => p.width(),
            DynamicPixmap::Indexed(p) => p.width(),
        }
    }

    /// Returns the height of the pixmap.
    pub fn height(&self) -> (h: u32)
        ensures
            h == self.spec_height(),
    {
        match self {
            DynamicPixmap::Luma(p) => p.height(),
            DynamicPixmap::LumaAlpha(p) => p.height(),
            DynamicPixmap::Rgb(p) => p.height(),
            DynamicPixmap::RgbAlpha(p) => p.height(),
            DynamicPixmap::Indexed(p) => p.height(),
        }
    }

    /// Returns the number of pixels in the pixmap.
    pub fn pixels_len(&self) -> (n: usize)
        ensures
            n == self.spec_pixels_len(),
    {
        match self {
            DynamicPixmap::Luma(p) => p.pixels().len(),
            DynamicPixmap::LumaAlpha(p) => p.pixels().len(),
            DynamicPixmap::Rgb(p) => p.pixels().len(),
            DynamicPixmap::RgbAlpha(p) => p.pixels().len(),
            DynamicPixmap::Indexed(p) => p.pixels().len(),
        }
    }

    /// Copies and concatenates the pixels into a new `Vec<u8>`.
    pub fn pixels_concat(&self) -> (c: Vec<u8>)
        ensures
            c@ == self.spec_concat(),
    {
        match self {
            DynamicPixmap::Luma(p) => p.pixels_concat(),
            DynamicPixmap::LumaAlpha(p) => p.pixels_concat(),
            DynamicPixmap::Rgb(p) => p.pixels_concat(),
            DynamicPixmap::RgbAlpha(p) => p.pixels_concat(),
            DynamicPixmap::Indexed(p) => p.pixels_concat(),
        }
    }

    /// Returns the PNG colour type of the pixmap's layout.
    pub fn color_type(&self) -> (c: ColorType)
        ensures
            c == match self {
                DynamicPixmap::Luma(_) => ColorType::Grayscale,
                DynamicPixmap::LumaAlpha(_) => ColorType::GrayscaleAlpha,
                DynamicPixmap::Rgb(_) => ColorType::Rgb,
                DynamicPixmap::RgbAlpha(_) => ColorType::Rgba,
                DynamicPixmap::Indexed(_) => ColorType::Indexed,
            },
    {
        match self {
            DynamicPixmap::Luma(_) => ColorType::Grayscale,
            DynamicPixmap::LumaAlpha(_) => ColorType::GrayscaleAlpha,
            DynamicPixmap::Rgb(_) => ColorType::Rgb,
            DynamicPixmap::RgbAlpha(_) => ColorType::Rgba,
            DynamicPixmap::Indexed(_) => ColorType::Indexed,
        }
    }
}

impl IntoPixmap for DynamicPixmap {
    open spec fn sized(&self) -> bool {
        match self {
            DynamicPixmap::Luma(p) => p.sized(),
            DynamicPixmap::LumaAlpha(p) => p.sized(),
            DynamicPixmap::Rgb(p) => p.sized(),
            DynamicPixmap::RgbAlpha(p) => p.sized(),
            DynamicPixmap::Indexed(p) => p.sized(),
        }
    }

    open spec fn convertible(&self) -> bool {
        match self {
            DynamicPixmap::Luma(p) => p.convertible(),
            DynamicPixmap::LumaAlpha(p) => p.convertible(),
            DynamicPixmap::Rgb(p) => p.convertible(),
            DynamicPixmap::RgbAlpha(p) => p.convertible(),
            DynamicPixmap::Indexed(p) => p.convertible(),
        }
    }

    fn into_rgb(self) -> (m: RgbPixmap)
        ensures
            m.spec_width() == self.spec_width(),
            m.spec_height() == self.spec_height(),
            m.spec_pixels() == match self {
                DynamicPixmap::Luma(v) => rgb_pixels(v.spec_pixels()),
                DynamicPixmap::LumaAlpha(v) => rgb_pixels(v.spec_pixels()),
                DynamicPixmap::Rgb(v) => v.spec_pixels(),
                DynamicPixmap::RgbAlpha(v) => rgb_pixels(v.spec_pixels()),
                DynamicPixmap::Indexed(v) => v.spec_pixels().map_values(
                    |p: PaletteIndex| v.spec_palette()[p.i as int],
                ),
            },
    {
        match self {
            DynamicPixmap::Luma(v) => v.into_rgb(),
            DynamicPixmap::LumaAlpha(v) => v.into_rgb(),
            DynamicPixmap::Rgb(v) => v.into_rgb(),
            DynamicPixmap::RgbAlpha(v) => v.into_rgb(),
            DynamicPixmap::Indexed(v) => v.into_rgb(),
        }
    }

    fn into_rgb_alpha(self) -> (m: RgbAlphaPixmap)
        ensures
            m.spec_width() == self.spec_width(),
            m.spec_height() == self.spec_height(),
            m.spec_pixels() == match self {
                DynamicPixmap::Luma(v) => rgb_alpha_pixels(v.spec_pixels()),
                DynamicPixmap::LumaAlpha(v) => rgb_alpha_pixels(v.spec_pixels()),
                DynamicPixmap::Rgb(v) => rgb_alpha_pixels(v.spec_pixels()),
                DynamicPixmap::RgbAlpha(v) => v.spec_pixels(),
                DynamicPixmap::Indexed(v) => v.spec_pixels().map_values(
                    |p: PaletteIndex| indexed_colour(v.spec_palette(), v.spec_trns(), p),
                ),
            },
    {
        match self {
            DynamicPixmap::Luma(v) => v.into_rgb_alpha(),
            DynamicPixmap::LumaAlpha(v) => v.into_rgb_alpha(),
            DynamicPixmap::Rgb(v) => v.into_rgb_alpha(),
            DynamicPixmap::RgbAlpha(v) => v.into_rgb_alpha(),
            DynamicPixmap::Indexed(v) => v.into_rgb_alpha(),
        }
    }

    fn into_indexed(self) -> (m: IndexedPixmap)
        ensures
            m.spec_width() == self.spec_width(),
            m.spec_height() == self.spec_height(),
            match self {
                DynamicPixmap::Luma(v) => indexed_from(m, rgb_pixels(v.spec_pixels())),
                DynamicPixmap::LumaAlpha(v) => indexed_from_alpha(m, rgb_alpha_pixels(v.spec_pixels())),
                DynamicPixmap::Rgb(v) => indexed_from(m, rgb_pixels(v.spec_pixels())),
                DynamicPixmap::RgbAlpha(v) => indexed_from_alpha(m, v.spec_pixels()),
                DynamicPixmap::Indexed(v) => m == v,
            },
    {
        match self {
            DynamicPixmap::Luma(v) => v.into_indexed(),
            DynamicPixmap::LumaAlpha(v) => v.into_indexed(),
            DynamicPixmap::Rgb(v) => v.into_indexed(),
            DynamicPixmap::RgbAlpha(v) => v.into_indexed(),
            DynamicPixmap::Indexed(v) => v.into_indexed(),
        }
    }
}

/// The number of channels of a pixel of a colour type.
pub open spec fn channel_count(c: ColorType) -> nat {
    match c {
        ColorType::Grayscale => 1,
        ColorType::GrayscaleAlpha => 2,
        ColorType::Rgb => 3,
        ColorType::Rgba => 4,
        ColorType::Indexed => 1,
    }
}

/// The colour type of the layout that a pixmap holds.
pub open spec fn layout_of(d: DynamicPixmap) -> ColorType {
    match d {
        DynamicPixmap::Luma(_) => ColorType::Grayscale,
        DynamicPixmap::LumaAlpha(_) => ColorType::GrayscaleAlpha,
        DynamicPixmap::Rgb(_) => ColorType::Rgb,
        DynamicPixmap::RgbAlpha(_) => ColorType::Rgba,
        DynamicPixmap::Indexed(_) => ColorType::Indexed,
    }
}

/// The concatenated pixels of a pixmap number its pixel count times the
/// channels of its layout (for an indexed pixmap one byte a pixel, however
/// long the palette); for a pixmap of the width times the height pixels,
/// that is the width times the height times the channels.
pub proof fn lemma_concat_len(d: DynamicPixmap)
    ensures
        d.spec_concat().len() == d.spec_pixels_len() * channel_count(layout_of(d)),
        d.spec_pixels_len() == d.spec_width() * d.spec_height() ==> d.spec_concat().len() == d.spec_width()
            * d.spec_height() * channel_count(layout_of(d)),
{
    match d {
        DynamicPixmap::Luma(p) => lemma_concat_channels_len(p.spec_pixels(), 1),
        DynamicPixmap::LumaAlpha(p) => lemma_concat_channels_len(p.spec_pixels(), 2),
        DynamicPixmap::Rgb(p) => lemma_concat_channels_len(p.spec_pixels(), 3),
        DynamicPixmap::RgbAlpha(p) => lemma_concat_channels_len(p.spec_pixels(), 4),
        DynamicPixmap::Indexed(p) => lemma_concat_channels_len(p.spec_pixels(), 1),
    }
}

} // verus!
