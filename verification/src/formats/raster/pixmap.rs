//! Pixmaps: packed arrays of pixels, row after row, with a width and a
//! height.

pub mod convert;
pub mod dynamic;
pub mod layouts;
pub mod palette;
pub mod pixel;
pub mod transform;

pub use self::layouts::{IndexedPixmap, LumaAlphaPixmap, LumaPixmap, RgbAlphaPixmap, RgbPixmap};
pub use self::transform::PixmapTransform;
pub use self::dynamic::DynamicPixmap;
pub use self::pixel::{
    IntoNonPalettePixel, LumaAlphaPixel, LumaPixel, PaletteIndex, Pixel, RgbAlphaPixel, RgbPixel,
};

use vstd::prelude::*;

verus! {

/// The bytes of a sequence of pixels, each pixel's channels in turn.
pub open spec fn concat_channels<P: Pixel>(s: Seq<P>) -> Seq<u8>
    decreases s.len(),
{
    if s.len() == 0 {
        Seq::empty()
    } else {
        concat_channels(s.drop_last()) + s.last().channel_bytes()
    }
}

/// The bytes of the first `i + 1` pixels are those of the first `i`, then
/// the channels of pixel `i`.
pub proof fn lemma_concat_channels_take<P: Pixel>(s: Seq<P>, i: int)
    requires
        0 <= i < s.len(),
    ensures
        concat_channels(s.take(i + 1)) == concat_channels(s.take(i)) + s[i].channel_bytes(),
{
    assert(s.take(i + 1).drop_last() =~= s.take(i));
}

/// The bytes of pixels that each have `k` channels number `k` for each
/// pixel.
pub proof fn lemma_concat_channels_len<P: Pixel>(s: Seq<P>, k: nat)
    requires
        forall|i: int| 0 <= i < s.len() ==> (#[trigger] s[i]).channel_bytes().len() == k,
    ensures
        concat_channels(s).len() == s.len() * k,
    decreases s.len(),
{
    if s.len() > 0 {
        lemma_concat_channels_len(s.drop_last(), k);
        assert(s.last() == s[s.len() - 1]);
        assert(s.len() * k == (s.len() - 1) * k + k) by (nonlinear_arith);
    }
}

/// Where the pixel at column `x` of row `y` stands in a pixmap `w` wide.
pub open spec fn pixel_index(w: int, x: int, y: int) -> int {
    y * w + x
}

/// The pixel at column `x` of row `y` of the packed pixels `s`, `w` wide.
pub open spec fn pixel_at<P>(s: Seq<P>, w: int, x: int, y: int) -> P {
    s[pixel_index(w, x, y)]
}

/// Each pixel of a pixmap `w` by `h` has its own place in the packed array.
pub proof fn lemma_pixel_index_bounds(w: int, h: int, x: int, y: int)
    requires
        0 <= x < w,
        0 <= y < h,
    ensures
        0 <= pixel_index(w, x, y) < w * h,
{
    assert(y * w <= (h - 1) * w) by (nonlinear_arith)
        requires
            0 <= y < h,
            0 <= w,
    ;
    assert((h - 1) * w + w == w * h) by (nonlinear_arith);
    assert(0 <= y * w) by (nonlinear_arith)
        requires
            0 <= y,
            0 <= w,
    ;
}

/// Two places of a pixmap `w` wide share an index only if they are the same
/// place.
pub proof fn lemma_pixel_index_injective(w: int, x1: int, y1: int, x2: int, y2: int)
    requires
        0 <= x1 < w,
        0 <= x2 < w,
        0 <= y1,
        0 <= y2,
        pixel_index(w, x1, y1) == pixel_index(w, x2, y2),
    ensures
        x1 == x2,
        y1 == y2,
{
    if y1 < y2 {
        assert(y1 * w + w <= y2 * w) by (nonlinear_arith)
            requires
                y1 < y2,
                0 <= w,
        ;
    } else if y2 < y1 {
        assert(y2 * w + w <= y1 * w) by (nonlinear_arith)
            requires
                y2 < y1,
                0 <= w,
        ;
    }
}

/// Every index below `w * h` is the place of some pixel.
pub proof fn lemma_pixel_index_onto(w: int, h: int, i: int)
    requires
        0 <= i < w * h,
        0 < w,
    ensures
        0 <= i % w < w,
        0 <= i / w < h,
        pixel_index(w, i % w, i / w) == i,
{
    assert(i == (i / w) * w + i % w) by (nonlinear_arith)
        requires
            0 < w,
    ;
    assert(0 <= i % w < w) by (nonlinear_arith)
        requires
            0 < w,
    ;
    assert(i / w < h) by (nonlinear_arith)
        requires
            0 <= i < w * h,
            0 < w,
    ;
    assert(0 <= i / w) by (nonlinear_arith)
        requires
            0 <= i,
            0 < w,
    ;
}

/// A packed array of pixels of one layout, with its width and height.
pub trait Pixmap<P: Pixel>: Sized {
    /// The width in pixels.
    spec fn spec_width(&self) -> u32;

    /// The height in pixels.
    spec fn spec_height(&self) -> u32;

    /// The pixels, row after row.
    spec fn spec_pixels(&self) -> Seq<P>;

    /// The palette and the alphas of its entries, for an indexed pixmap;
    /// `None` for the others.
    spec fn spec_colour_table(&self) -> Option<(Seq<RgbPixel>, Option<Seq<u8>>)>;

    /// Returns the width of the Pixmap.
    fn width(&self) -> (w: u32)
        ensures
            w == self.spec_width(),
    ;

    /// Returns the height of the Pixmap.
    fn height(&self) -> (h: u32)
        ensures
            h == self.spec_height(),
    ;

    /// Returns the width and height of the Pixmap as a tuple.
    fn dimensions(&self) -> (d: (u32, u32))
        ensures
            d == (self.spec_width(), self.spec_height()),
    {
        (self.width(), self.height())
    }

    /// Returns a reference to the underlying `Vec<P>`.
    fn pixels(&self) -> (p: &Vec<P>)
        ensures
            p@ == self.spec_pixels(),
    ;

    /// Returns a mutable reference to the underlying `Vec<P>`.
    fn pixels_mut(&mut self) -> (p: &mut Vec<P>)
        ensures
            p@ == old(self).spec_pixels(),
            final(self).spec_pixels() == final(p)@,
            final(self).spec_width() == old(self).spec_width(),
            final(self).spec_height() == old(self).spec_height(),
            final(self).spec_colour_table() == old(self).spec_colour_table(),
    ;

    /// Copies and concatenates the pixels into a new `Vec<u8>`.
    fn pixels_concat(&self) -> (c: Vec<u8>)
        ensures
            c@ == concat_channels(self.spec_pixels()),
    ;

    /// Returns a reference to the pixel at `(x,y)`, or `None` where `(x,y)`
    /// lies outside the pixmap.
    fn get_pixel(&self, x: u32, y: u32) -> (p: Option<&P>)
        requires
            self.spec_pixels().len() == self.spec_width() * self.spec_height(),
        ensures
            p == (if x < self.spec_width() && y < self.spec_height() {
                Some(&pixel_at(self.spec_pixels(), self.spec_width() as int, x as int, y as int))
            } else {
                None
            }),
    {
        let (width, height) = self.dimensions();
        if x >= width || y >= height {
            return None;
        }
        let pixels = self.pixels();
        let n = pixels.len();
        proof {
            lemma_pixel_index_bounds(width as int, height as int, x as int, y as int);
            assert(y * width + x < n);
        }
        let i = y as usize * width as usize + x as usize;
        Some(&pixels[i])
    }

    /// Returns the index of the pixel at `(x,y)` in the packed pixels, or
    /// `None` where `(x,y)` lies outside the pixmap.
    fn get_pixel_index(&self, x: u32, y: u32) -> (i: Option<usize>)
        requires
            self.spec_pixels().len() == self.spec_width() * self.spec_height(),
        ensures
            i == (if x < self.spec_width() && y < self.spec_height() {
                Some(pixel_index(self.spec_width() as int, x as int, y as int) as usize)
            } else {
                None
            }),
    {
        let (width, height) = self.dimensions();
        if x >= width || y >= height {
            return None;
        }
        let n = self.pixels().len();
        proof {
            lemma_pixel_index_bounds(width as int, height as int, x as int, y as int);
        }
        Some(y as usize * width as usize + x as usize)
    }
}

/// A pixmap whose pixels can be written out as bytes.
pub trait ConcatPixmap {
    /// The bytes of the pixels, each pixel's channels in turn.
    spec fn concat_bytes(&self) -> Seq<u8>;

    /// Concatenates the pixels into a new `Vec`.
    fn concat(&self) -> (c: Vec<u8>)
        ensures
            c@ == self.concat_bytes(),
    ;
}

impl ConcatPixmap for LumaPixmap {
    open spec fn concat_bytes(&self) -> Seq<u8> {
        concat_channels(self.spec_pixels())
    }

    fn concat(&self) -> (c: Vec<u8>) {
        self.pixels_concat()
    }
}

impl ConcatPixmap for LumaAlphaPixmap {
    open spec fn concat_bytes(&self) -> Seq<u8> {
        concat_channels(self.spec_pixels())
    }

    fn concat(&self) -> (c: Vec<u8>) {
        self.pixels_concat()
    }
}

impl ConcatPixmap for RgbPixmap {
    open spec fn concat_bytes(&self) -> Seq<u8> {
        concat_channels(self.spec_pixels())
    }

    fn concat(&self) -> (c: Vec<u8>) {
        self.pixels_concat()
    }
}

impl ConcatPixmap for RgbAlphaPixmap {
    open spec fn concat_bytes(&self) -> Seq<u8> {
        concat_channels(self.spec_pixels())
    }

    fn concat(&self) -> (c: Vec<u8>) {
        self.pixels_concat()
    }
}

impl ConcatPixmap for IndexedPixmap {
    open spec fn concat_bytes(&self) -> Seq<u8> {
        concat_channels(self.spec_pixels())
    }

    fn concat(&self) -> (c: Vec<u8>) {
        self.pixels_concat()
    }
}

impl ConcatPixmap for DynamicPixmap {
    open spec fn concat_bytes(&self) -> Seq<u8> {
        self.spec_concat()
    }

    fn concat(&self) -> (c: Vec<u8>) {
        self.pixels_concat()
    }
}

} // verus!
