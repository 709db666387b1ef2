//! Setting single pixels, and flipping and rotating whole pixmaps.

use super::layouts::{IndexedPixmap, LumaAlphaPixmap, LumaPixmap, RgbAlphaPixmap, RgbPixmap};
use super::pixel::{LumaAlphaPixel, LumaPixel, PaletteIndex, Pixel, RgbAlphaPixel, RgbPixel};
use super::{
    lemma_pixel_index_bounds, lemma_pixel_index_injective, lemma_pixel_index_onto, pixel_at,
    pixel_index, Pixmap,
};
use vstd::prelude::*;

verus! {

/// `after`, a pixmap `wa` by `ha`, holds at each place `(x, y)` the pixel
/// that `before`, a pixmap `wb` wide, holds at `source(x, y)`.
pub open spec fn moved<P>(
    before: Seq<P>,
    after: Seq<P>,
    wb: int,
    wa: int,
    ha: int,
    source: spec_fn(int, int) -> (int, int),
) -> bool {
    &&& after.len() == before.len()
    &&& forall|x: int, y: int|
        0 <= x < wa && 0 <= y < ha ==> #[trigger] pixel_at(after, wa, x, y) == pixel_at(
            before,
            wb,
            source(x, y).0,
            source(x, y).1,
        )
}

/// `after` holds, at each place `(x, y)` of a pixmap `w` by `h`, the pixel
/// that `before` holds at `source(x, y)`.
pub open spec fn remapped<P>(
    before: Seq<P>,
    after: Seq<P>,
    w: int,
    h: int,
    source: spec_fn(int, int) -> (int, int),
) -> bool {
    moved(before, after, w, w, h, source)
}

/// `after`, a pixmap `h` by `w`, holds at each place `(x, y)` the pixel that
/// `before`, a pixmap `w` by `h`, holds at `source(x, y)`: a quarter turn.
pub open spec fn turned<P>(
    before: Seq<P>,
    after: Seq<P>,
    w: int,
    h: int,
    source: spec_fn(int, int) -> (int, int),
) -> bool {
    moved(before, after, w, h, w, source)
}

/// Where a horizontal flip takes each pixel from: the mirror column.
pub open spec fn flip_horizontal_source(w: int, h: int) -> spec_fn(int, int) -> (int, int) {
    |x: int, y: int| (w - 1 - x, y)
}

/// Where a vertical flip takes each pixel from: the mirror row.
pub open spec fn flip_vertical_source(w: int, h: int) -> spec_fn(int, int) -> (int, int) {
    |x: int, y: int| (x, h - 1 - y)
}

/// Where a rotation by 180° takes each pixel from.
pub open spec fn rotate_180_source(w: int, h: int) -> spec_fn(int, int) -> (int, int) {
    |x: int, y: int| (w - 1 - x, h - 1 - y)
}

/// Where a clockwise rotation by 90° of a pixmap `w` by `h` takes each
/// pixel of the `h` by `w` result from.
pub open spec fn rotate_90_source(w: int, h: int) -> spec_fn(int, int) -> (int, int) {
    |x: int, y: int| (y, h - 1 - x)
}

/// Where a clockwise rotation by 270° of a pixmap `w` by `h` takes each
/// pixel of the `h` by `w` result from.
pub open spec fn rotate_270_source(w: int, h: int) -> spec_fn(int, int) -> (int, int) {
    |x: int, y: int| (w - 1 - y, x)
}

/// The five ways of moving every pixel of a pixmap.
#[derive(Clone, Copy)]
enum Motion {
    FlipHorizontal,
    FlipVertical,
    Rotate90,
    Rotate180,
    Rotate270,
}

spec fn motion_source(m: Motion, w: int, h: int) -> spec_fn(int, int) -> (int, int) {
    match m {
        Motion::FlipHorizontal => flip_horizontal_source(w, h),
        Motion::FlipVertical => flip_vertical_source(w, h),
        Motion::Rotate90 => rotate_90_source(w, h),
        Motion::Rotate180 => rotate_180_source(w, h),
        Motion::Rotate270 => rotate_270_source(w, h),
    }
}

/// Whether a motion turns the pixmap by a quarter, exchanging its width
/// and height.
spec fn quarter_turn(m: Motion) -> bool {
    m is Rotate90 || m is Rotate270
}

/// The place that the pixel at `(x, y)` of the result comes from.
fn source_of(m: Motion, w: u32, h: u32, x: u32, y: u32) -> (s: (u32, u32))
    requires
        quarter_turn(m) ==> x < h && y < w,
        !quarter_turn(m) ==> x < w && y < h,
    ensures
        s.0 < w,
        s.1 < h,
        s.0 == (motion_source(m, w as int, h as int))(x as int, y as int).0,
        s.1 == (motion_source(m, w as int, h as int))(x as int, y as int).1,
{
    match m {
        Motion::FlipHorizontal => (w - 1 - x, y),
        Motion::FlipVertical => (x, h - 1 - y),
        Motion::Rotate90 => (y, h - 1 - x),
        Motion::Rotate180 => (w - 1 - x, h - 1 - y),
        Motion::Rotate270 => (w - 1 - y, x),
    }
}

/// The pixels of a pixmap `w` by `h` moved as `m` says, in a new array: an
/// `h` by `w` one for a quarter turn, else a `w` by `h` one.
fn moved_pixels<P: Pixel>(src: &Vec<P>, w: u32, h: u32, m: Motion) -> (out: Vec<P>)
    requires
        src@.len() == w * h,
    ensures
        quarter_turn(m) ==> moved(src@, out@, w as int, h as int, w as int, motion_source(m, w as int, h as int)),
        !quarter_turn(m) ==> moved(src@, out@, w as int, w as int, h as int, motion_source(m, w as int, h as int)),
{
    let (ow, oh) = if quarter_turn_exec(m) {
        (h, w)
    } else {
        (w, h)
    };
    let mut out: Vec<P> = Vec::new();
    if w == 0 || h == 0 {
        assert(src@.len() == 0) by (nonlinear_arith)
            requires
                src@.len() == w * h,
                w == 0 || h == 0,
        ;
        return out;
    }
    let mut y: u32 = 0;
    while y < oh
        invariant
            0 < w,
            0 < h,
            quarter_turn(m) ==> ow == h && oh == w,
            !quarter_turn(m) ==> ow == w && oh == h,
            y <= oh,
            src@.len() == w * h,
            out@.len() == y * ow,
            forall|xx: int, yy: int|
                0 <= xx < ow && 0 <= yy < y ==> #[trigger] pixel_at(out@, ow as int, xx, yy)
                    == pixel_at(
                    src@,
                    w as int,
                    (motion_source(m, w as int, h as int))(xx, yy).0,
                    (motion_source(m, w as int, h as int))(xx, yy).1,
                ),
        decreases oh - y,
    {
        proof {
            assert forall|xx: int, yy: int|
                0 <= xx < ow && 0 <= yy < oh && pixel_index(ow as int, xx, yy) < out@.len() implies 0
                    <= yy < y by {
                if yy >= y {
                    assert(yy * ow + xx >= y * ow) by (nonlinear_arith)
                        requires
                            yy >= y,
                            0 <= xx,
                            0 < ow,
                    ;
                }
            }
        }
        let mut x: u32 = 0;
        while x < ow
            invariant
                0 < w,
                0 < h,
                quarter_turn(m) ==> ow == h && oh == w,
                !quarter_turn(m) ==> ow == w && oh == h,
                y < oh,
                x <= ow,
                src@.len() == w * h,
                out@.len() == y * ow + x,
                forall|xx: int, yy: int|
                    0 <= xx < ow && 0 <= yy < oh && pixel_index(ow as int, xx, yy) < out@.len()
                        ==> #[trigger] pixel_at(out@, ow as int, xx, yy) == pixel_at(
                        src@,
                        w as int,
                        (motion_source(m, w as int, h as int))(xx, yy).0,
                        (motion_source(m, w as int, h as int))(xx, yy).1,
                    ),
            decreases ow - x,
        {
            let (sx, sy) = source_of(m, w, h, x, y);
            let n = src.len();
            proof {
                lemma_pixel_index_bounds(w as int, h as int, sx as int, sy as int);
            }
            let i = sy as usize * w as usize + sx as usize;
            let p = src[i];
            let ghost before = out@;
            out.push(p);
            proof {
                assert forall|xx: int, yy: int|
                    0 <= xx < ow && 0 <= yy < oh && pixel_index(ow as int, xx, yy) < out@.len()
                        implies #[trigger] pixel_at(out@, ow as int, xx, yy) == pixel_at(
                        src@,
                        w as int,
                        (motion_source(m, w as int, h as int))(xx, yy).0,
                        (motion_source(m, w as int, h as int))(xx, yy).1,
                    ) by {
                    if pixel_index(ow as int, xx, yy) == before.len() {
                        lemma_pixel_index_injective(ow as int, xx, yy, x as int, y as int);
                    } else {
                        assert(pixel_at(out@, ow as int, xx, yy) == pixel_at(before, ow as int, xx, yy));
                    }
                }
            }
            x = x + 1;
        }
        proof {
            assert(out@.len() == (y + 1) * ow && out@.len() == ow * (y + 1)) by (nonlinear_arith)
                requires
                    out@.len() == y * ow + ow,
            ;
            assert forall|xx: int, yy: int| 0 <= xx < ow && 0 <= yy < y + 1 implies pixel_index(
                ow as int,
                xx,
                yy,
            ) < out@.len() by {
                lemma_pixel_index_bounds(ow as int, (y + 1) as int, xx, yy);
            }
        }
        y = y + 1;
    }
    assert(out@.len() == src@.len()) by (nonlinear_arith)
        requires
            out@.len() == oh * ow,
            src@.len() == w * h,
            (ow == h && oh == w) || (ow == w && oh == h),
    ;
    out
}

fn quarter_turn_exec(m: Motion) -> (b: bool)
    ensures
        b == quarter_turn(m),
{
    match m {
        Motion::Rotate90 | Motion::Rotate270 => true,
        _ => false,
    }
}

/// Two packed arrays of a pixmap `w` by `h` that agree at every place are
/// equal.
pub proof fn lemma_same_pixels<P>(a: Seq<P>, b: Seq<P>, w: int, h: int)
    requires
        0 <= w,
        0 <= h,
        a.len() == w * h,
        b.len() == a.len(),
        forall|x: int, y: int|
            0 <= x < w && 0 <= y < h ==> #[trigger] pixel_at(b, w, x, y) == pixel_at(a, w, x, y),
    ensures
        b == a,
{
    assert forall|i: int| 0 <= i < a.len() implies b[i] == a[i] by {
        if w == 0 {
            assert(a.len() == 0) by (nonlinear_arith)
                requires
                    a.len() == w * h,
                    w == 0,
            ;
        } else {
            lemma_pixel_index_onto(w, h, i);
            assert(pixel_at(b, w, i % w, i / w) == pixel_at(a, w, i % w, i / w));
        }
    }
    assert(b =~= a);
}

/// Flipping a pixmap horizontally twice gives back the pixmap.
pub proof fn lemma_flip_horizontal_twice<P>(a: Seq<P>, b: Seq<P>, c: Seq<P>, w: u32, h: u32)
    requires
        a.len() == w * h,
        remapped(a, b, w as int, h as int, flip_horizontal_source(w as int, h as int)),
        remapped(b, c, w as int, h as int, flip_horizontal_source(w as int, h as int)),
    ensures
        c == a,
{
    assert forall|x: int, y: int| 0 <= x < w && 0 <= y < h implies #[trigger] pixel_at(c, w as int, x, y)
        == pixel_at(a, w as int, x, y) by {
        assert(pixel_at(b, w as int, w - 1 - x, y) == pixel_at(a, w as int, x, y));
    }
    lemma_same_pixels(a, c, w as int, h as int);
}

/// Flipping a pixmap vertically twice gives back the pixmap.
pub proof fn lemma_flip_vertical_twice<P>(a: Seq<P>, b: Seq<P>, c: Seq<P>, w: u32, h: u32)
    requires
        a.len() == w * h,
        remapped(a, b, w as int, h as int, flip_vertical_source(w as int, h as int)),
        remapped(b, c, w as int, h as int, flip_vertical_source(w as int, h as int)),
    ensures
        c == a,
{
    assert forall|x: int, y: int| 0 <= x < w && 0 <= y < h implies #[trigger] pixel_at(c, w as int, x, y)
        == pixel_at(a, w as int, x, y) by {
        assert(pixel_at(b, w as int, x, h - 1 - y) == pixel_at(a, w as int, x, y));
    }
    lemma_same_pixels(a, c, w as int, h as int);
}

/// Rotating a pixmap by 180° twice gives back the pixmap.
pub proof fn lemma_rotate_180_twice<P>(a: Seq<P>, b: Seq<P>, c: Seq<P>, w: u32, h: u32)
    requires
        a.len() == w * h,
        remapped(a, b, w as int, h as int, rotate_180_source(w as int, h as int)),
        remapped(b, c, w as int, h as int, rotate_180_source(w as int, h as int)),
    ensures
        c == a,
{
    assert forall|x: int, y: int| 0 <= x < w && 0 <= y < h implies #[trigger] pixel_at(c, w as int, x, y)
        == pixel_at(a, w as int, x, y) by {
        assert(pixel_at(b, w as int, w - 1 - x, h - 1 - y) == pixel_at(a, w as int, x, y));
    }
    lemma_same_pixels(a, c, w as int, h as int);
}

/// Flipping a pixmap horizontally, then vertically, rotates it by 180°.
pub proof fn lemma_flips_rotate_180<P>(a: Seq<P>, b: Seq<P>, c: Seq<P>, w: u32, h: u32)
    requires
        a.len() == w * h,
        remapped(a, b, w as int, h as int, flip_horizontal_source(w as int, h as int)),
        remapped(b, c, w as int, h as int, flip_vertical_source(w as int, h as int)),
    ensures
        remapped(a, c, w as int, h as int, rotate_180_source(w as int, h as int)),
{
    assert forall|x: int, y: int| 0 <= x < w && 0 <= y < h implies #[trigger] pixel_at(c, w as int, x, y)
        == pixel_at(a, w as int, w - 1 - x, h - 1 - y) by {
        assert(pixel_at(b, w as int, x, h - 1 - y) == pixel_at(a, w as int, w - 1 - x, h - 1 - y));
    }
}

/// Rotating a pixmap `w` by `h` by 90°, then the `h` by `w` result by
/// 270°, gives back the pixmap.
pub proof fn lemma_rotate_90_then_270<P>(a: Seq<P>, b: Seq<P>, c: Seq<P>, w: u32, h: u32)
    requires
        a.len() == w * h,
        turned(a, b, w as int, h as int, rotate_90_source(w as int, h as int)),
        turned(b, c, h as int, w as int, rotate_270_source(h as int, w as int)),
    ensures
        c == a,
{
    assert forall|x: int, y: int| 0 <= x < w && 0 <= y < h implies #[trigger] pixel_at(c, w as int, x, y)
        == pixel_at(a, w as int, x, y) by {
        assert(pixel_at(b, h as int, h - 1 - y, x) == pixel_at(a, w as int, x, y));
    }
    lemma_same_pixels(a, c, w as int, h as int);
}

/// Rotating a pixmap by 90° twice rotates it by 180°.
pub proof fn lemma_rotate_90_twice<P>(a: Seq<P>, b: Seq<P>, c: Seq<P>, w: u32, h: u32)
    requires
        a.len() == w * h,
        turned(a, b, w as int, h as int, rotate_90_source(w as int, h as int)),
        turned(b, c, h as int, w as int, rotate_90_source(h as int, w as int)),
    ensures
        remapped(a, c, w as int, h as int, rotate_180_source(w as int, h as int)),
{
    assert forall|x: int, y: int| 0 <= x < w && 0 <= y < h implies #[trigger] pixel_at(c, w as int, x, y)
        == pixel_at(a, w as int, w - 1 - x, h - 1 - y) by {
        assert(pixel_at(b, h as int, y, w - 1 - x) == pixel_at(a, w as int, w - 1 - x, h - 1 - y));
    }
}

/// Setting a pixel changes that pixel, and no other.
pub proof fn lemma_set_then_get<P>(before: Seq<P>, w: int, h: int, x: int, y: int, p: P, x2: int, y2: int)
    requires
        before.len() == w * h,
        0 <= x < w,
        0 <= y < h,
        0 <= x2 < w,
        0 <= y2 < h,
    ensures
        pixel_at(before.update(pixel_index(w, x, y), p), w, x2, y2) == if x2 == x && y2 == y {
            p
        } else {
            pixel_at(before, w, x2, y2)
        },
{
    lemma_pixel_index_bounds(w, h, x, y);
    lemma_pixel_index_bounds(w, h, x2, y2);
    if pixel_index(w, x, y) == pixel_index(w, x2, y2) {
        lemma_pixel_index_injective(w, x, y, x2, y2);
    }
}

/// Operations that move pixels within a pixmap.
pub trait PixmapTransform<P: Pixel>: Pixmap<P> {
    /// Exchanges the width and the height, keeping the packed pixels.
    fn swap_dimensions(&mut self)
        ensures
            final(self).spec_width() == old(self).spec_height(),
            final(self).spec_height() == old(self).spec_width(),
            final(self).spec_pixels() == old(self).spec_pixels(),
            final(self).spec_colour_table() == old(self).spec_colour_table(),
    ;

    /// Sets a pixel at `(x,y)`.
    ///
    /// The co-ordinates must lie inside the pixmap.
    fn set_pixel(&mut self, x: u32, y: u32, p: P)
        requires
            old(self).spec_pixels().len() == old(self).spec_width() * old(self).spec_height(),
            x < old(self).spec_width(),
            y < old(self).spec_height(),
        ensures
            final(self).spec_width() == old(self).spec_width(),
            final(self).spec_height() == old(self).spec_height(),
            final(self).spec_colour_table() == old(self).spec_colour_table(),
            final(self).spec_pixels() == old(self).spec_pixels().update(
                pixel_index(old(self).spec_width() as int, x as int, y as int),
                p,
            ),
    {
        let (width, height) = self.dimensions();
        let pixels = self.pixels_mut();
        let n = pixels.len();
        proof {
            lemma_pixel_index_bounds(width as int, height as int, x as int, y as int);
        }
        let i = y as usize * width as usize + x as usize;
        pixels.set(i, p);
    }

    /// Flips the pixmap horizontally.
    fn flip_horizontal(&mut self)
        requires
            old(self).spec_pixels().len() == old(self).spec_width() * old(self).spec_height(),
        ensures
            final(self).spec_width() == old(self).spec_width(),
            final(self).spec_height() == old(self).spec_height(),
            final(self).spec_colour_table() == old(self).spec_colour_table(),
            remapped(
                old(self).spec_pixels(),
                final(self).spec_pixels(),
                old(self).spec_width() as int,
                old(self).spec_height() as int,
                flip_horizontal_source(old(self).spec_width() as int, old(self).spec_height() as int),
            ),
    {
        let (width, height) = self.dimensions();
        let out = moved_pixels(self.pixels(), width, height, Motion::FlipHorizontal);
        let pixels = self.pixels_mut();
        *pixels = out;
    }

    /// Flips the pixmap vertically.
    fn flip_vertical(&mut self)
        requires
            old(self).spec_pixels().len() == old(self).spec_width() * old(self).spec_height(),
        ensures
            final(self).spec_width() == old(self).spec_width(),
            final(self).spec_height() == old(self).spec_height(),
            final(self).spec_colour_table() == old(self).spec_colour_table(),
            remapped(
                old(self).spec_pixels(),
                final(self).spec_pixels(),
                old(self).spec_width() as int,
                old(self).spec_height() as int,
                flip_vertical_source(old(self).spec_width() as int, old(self).spec_height() as int),
            ),
    {
        let (width, height) = self.dimensions();
        let out = moved_pixels(self.pixels(), width, height, Motion::FlipVertical);
        let pixels = self.pixels_mut();
        *pixels = out;
    }

    /// Rotates the pixmap by 90°, clockwise: a pixmap `w` by `h` becomes
    /// one `h` by `w`.
    fn rotate_90(&mut self)
        requires
            old(self).spec_pixels().len() == old(self).spec_width() * old(self).spec_height(),
        ensures
            final(self).spec_width() == old(self).spec_height(),
            final(self).spec_height() == old(self).spec_width(),
            final(self).spec_pixels().len() == final(self).spec_width() * final(self).spec_height(),
            final(self).spec_colour_table() == old(self).spec_colour_table(),
            turned(
                old(self).spec_pixels(),
                final(self).spec_pixels(),
                old(self).spec_width() as int,
                old(self).spec_height() as int,
                rotate_90_source(old(self).spec_width() as int, old(self).spec_height() as int),
            ),
    {
        let (width, height) = self.dimensions();
        let out = moved_pixels(self.pixels(), width, height, Motion::Rotate90);
        let pixels = self.pixels_mut();
        *pixels = out;
        self.swap_dimensions();
        assert(height * width == width * height) by (nonlinear_arith);
    }

    /// Rotates the pixmap by 180°.
    fn rotate_180(&mut self)
        requires
            old(self).spec_pixels().len() == old(self).spec_width() * old(self).spec_height(),
        ensures
            final(self).spec_width() == old(self).spec_width(),
            final(self).spec_height() == old(self).spec_height(),
            final(self).spec_colour_table() == old(self).spec_colour_table(),
            remapped(
                old(self).spec_pixels(),
                final(self).spec_pixels(),
                old(self).spec_width() as int,
                old(self).spec_height() as int,
                rotate_180_source(old(self).spec_width() as int, old(self).spec_height() as int),
            ),
    {
        let (width, height) = self.dimensions();
        let out = moved_pixels(self.pixels(), width, height, Motion::Rotate180);
        let pixels = self.pixels_mut();
        *pixels = out;
    }

    /// Rotates the pixmap by 270°, clockwise: a pixmap `w` by `h` becomes
    /// one `h` by `w`.
    fn rotate_270(&mut self)
        requires
            old(self).spec_pixels().len() == old(self).spec_width() * old(self).spec_height(),
        ensures
            final(self).spec_width() == old(self).spec_height(),
            final(self).spec_height() == old(self).spec_width(),
            final(self).spec_pixels().len() == final(self).spec_width() * final(self).spec_height(),
            final(self).spec_colour_table() == old(self).spec_colour_table(),
            turned(
                old(self).spec_pixels(),
                final(self).spec_pixels(),
                old(self).spec_width() as int,
                old(self).spec_height() as int,
                rotate_270_source(old(self).spec_width() as int, old(self).spec_height() as int),
            ),
    {
        let (width, height) = self.dimensions();
        let out = moved_pixels(self.pixels(), width, height, Motion::Rotate270);
        let pixels = self.pixels_mut();
        *pixels = out;
        self.swap_dimensions();
        assert(height * width == width * height) by (nonlinear_arith);
    }
}

impl PixmapTransform<LumaPixel> for LumaPixmap {
    fn swap_dimensions(&mut self) {
        self.transpose_dimensions();
    }
}

impl PixmapTransform<LumaAlphaPixel> for LumaAlphaPixmap {
    fn swap_dimensions(&mut self) {
        self.transpose_dimensions();
    }
}

impl PixmapTransform<RgbPixel> for RgbPixmap {
    fn swap_dimensions(&mut self) {
        self.transpose_dimensions();
    }
}

impl PixmapTransform<RgbAlphaPixel> for RgbAlphaPixmap {
    fn swap_dimensions(&mut self) {
        self.transpose_dimensions();
    }
}

impl PixmapTransform<PaletteIndex> for IndexedPixmap {
    fn swap_dimensions(&mut self) {
        self.transpose_dimensions();
    }
}

} // verus!
