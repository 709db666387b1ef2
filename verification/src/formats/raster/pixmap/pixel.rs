//! Pixels of the five layouts that PNG images use, and conversions between
//! those that need no palette.

use vstd::prelude::*;

verus! {

/// A pixel layout.
pub trait Pixel: Copy {
    /// Number of channels in the pixel.
    const NUM_CHANNELS: usize;

    /// The channels of the pixel, in the order they are stored.
    spec fn channel_bytes(self) -> Seq<u8>;
}

/// A greyscale pixel.
#[derive(Debug, Clone, Copy, PartialEq, Eq, Structural)]
pub struct LumaPixel {
    pub y: u8,
}

impl Pixel for LumaPixel {
    /// 1 channel for luminance.
    const NUM_CHANNELS: usize = 1;

    open spec fn channel_bytes(self) -> Seq<u8> {
        seq![self.y]
    }
}

impl From<u8> for LumaPixel {
    fn from(y: u8) -> (p: Self) {
        LumaPixel { y }
    }
}

impl vstd::std_specs::convert::FromSpecImpl<u8> for LumaPixel {
    open spec fn obeys_from_spec() -> bool {
        true
    }

    open spec fn from_spec(y: u8) -> Self {
        LumaPixel { y }
    }
}

/// A greyscale pixel with an alpha channel.
#[derive(Debug, Clone, Copy, PartialEq, Eq, Structural)]
pub struct LumaAlphaPixel {
    pub y: u8,
    pub a: u8,
}

impl Pixel for LumaAlphaPixel {
    /// 2 channels for luminance and alpha.
    const NUM_CHANNELS: usize = 2;

    open spec fn channel_bytes(self) -> Seq<u8> {
        seq![self.y, self.a]
    }
}

impl From<[u8; 2]> for LumaAlphaPixel {
    fn from(ya: [u8; 2]) -> (p: Self) {
        LumaAlphaPixel { y: ya[0], a: ya[1] }
    }
}

impl vstd::std_specs::convert::FromSpecImpl<[u8; 2]> for LumaAlphaPixel {
    open spec fn obeys_from_spec() -> bool {
        true
    }

    open spec fn from_spec(ya: [u8; 2]) -> Self {
        LumaAlphaPixel { y: ya@[0], a: ya@[1] }
    }
}

impl LumaAlphaPixel {
    /// The channels in the order they are stored: luminance, alpha.
    pub fn channels(self) -> (c: [u8; 2])
        ensures
            c@ == seq![self.y, self.a],
    {
        let c = [self.y, self.a];
        assert(c@ =~= seq![self.y, self.a]);
        c
    }
}

/// A red, green and blue pixel.
#[derive(Debug, Clone, Copy, PartialEq, Eq, Hash, Structural)]
pub struct RgbPixel {
    pub r: u8,
    pub g: u8,
    pub b: u8,
}

impl Pixel for RgbPixel {
    /// 3 channels for red, green, and blue.
    const NUM_CHANNELS: usize = 3;

    open spec fn channel_bytes(self) -> Seq<u8> {
        seq![self.r, self.g, self.b]
    }
}

impl From<[u8; 3]> for RgbPixel {
    fn from(rgb: [u8; 3]) -> (p: Self) {
        RgbPixel { r: rgb[0], g: rgb[1], b: rgb[2] }
    }
}

impl vstd::std_specs::convert::FromSpecImpl<[u8; 3]> for RgbPixel {
    open spec fn obeys_from_spec() -> bool {
        true
    }

    open spec fn from_spec(rgb: [u8; 3]) -> Self {
        RgbPixel { r: rgb@[0], g: rgb@[1], b: rgb@[2] }
    }
}

impl RgbPixel {
    /// The channels in the order they are stored: red, green, blue.
    pub fn channels(self) -> (c: [u8; 3])
        ensures
            c@ == seq![self.r, self.g, self.b],
    {
        let c = [self.r, self.g, self.b];
        assert(c@ =~= seq![self.r, self.g, self.b]);
        c
    }
}

/// A red, green and blue pixel with an alpha channel.
#[derive(Debug, Clone, Copy, PartialEq, Eq, Hash, Structural)]
pub struct RgbAlphaPixel {
    pub r: u8,
    pub g: u8,
    pub b: u8,
    pub a: u8,
}

impl Pixel for RgbAlphaPixel {
    /// 4 channels for red, green, blue, and alpha.
    const NUM_CHANNELS: usize = 4;

    open spec fn channel_bytes(self) -> Seq<u8> {
        seq![self.r, self.g, self.b, self.a]
    }
}

impl From<[u8; 4]> for RgbAlphaPixel {
    fn from(rgba: [u8; 4]) -> (p: Self) {
        RgbAlphaPixel { r: rgba[0], g: rgba[1], b: rgba[2], a: rgba[3] }
    }
}

impl vstd::std_specs::convert::FromSpecImpl<[u8; 4]> for RgbAlphaPixel {
    open spec fn obeys_from_spec() -> bool {
        true
    }

    open spec fn from_spec(rgba: [u8; 4]) -> Self {
        RgbAlphaPixel { r: rgba@[0], g: rgba@[1], b: rgba@[2], a: rgba@[3] }
    }
}

impl RgbAlphaPixel {
    /// The channels in the order they are stored: red, green, blue, alpha.
    pub fn channels(self) -> (c: [u8; 4])
        ensures
            c@ == seq![self.r, self.g, self.b, self.a],
    {
        let c = [self.r, self.g, self.b, self.a];
        assert(c@ =~= seq![self.r, self.g, self.b, self.a]);
        c
    }
}

/// An index into the palette of an indexed image.
#[derive(Debug, Clone, Copy, PartialEq, Eq, Hash, Structural)]
pub struct PaletteIndex {
    pub i: u8,
}

impl Pixel for PaletteIndex {
    /// 1 channel for the index.
    const NUM_CHANNELS: usize = 1;

    open spec fn channel_bytes(self) -> Seq<u8> {
        seq![self.i]
    }
}

impl From<u8> for PaletteIndex {
    fn from(i: u8) -> (p: Self) {
        PaletteIndex { i }
    }
}

impl vstd::std_specs::convert::FromSpecImpl<u8> for PaletteIndex {
    open spec fn obeys_from_spec() -> bool {
        true
    }

    open spec fn from_spec(i: u8) -> Self {
        PaletteIndex { i }
    }
}

/// The colour a greyscale value stands for: the same value in every channel.
pub open spec fn grey(y: u8) -> RgbPixel {
    RgbPixel { r: y, g: y, b: y }
}

/// Conversions of a pixel that needs no palette into the colour layouts.
pub trait IntoNonPalettePixel: Sized {
    /// The colour of the pixel, alpha left out.
    spec fn rgb_of(self) -> RgbPixel;

    /// The alpha of the pixel; opaque (`255`) for layouts without alpha.
    spec fn alpha_of(self) -> u8;

    /// Converts the value to an `RgbPixel`.
    fn into_rgb(self) -> (p: RgbPixel)
        ensures
            p == self.rgb_of(),
    ;

    /// Converts the value to an `RgbAlphaPixel`.
    fn into_rgb_alpha(self) -> (p: RgbAlphaPixel)
        ensures
            p == (RgbAlphaPixel {
                r: self.rgb_of().r,
                g: self.rgb_of().g,
                b: self.rgb_of().b,
                a: self.alpha_of(),
            }),
    ;
}

impl IntoNonPalettePixel for LumaPixel {
    open spec fn rgb_of(self) -> RgbPixel {
        grey(self.y)
    }

    open spec fn alpha_of(self) -> u8 {
        u8::MAX
    }

    fn into_rgb(self) -> (p: RgbPixel) {
        RgbPixel { r: self.y, g: self.y, b: self.y }
    }

    fn into_rgb_alpha(self) -> (p: RgbAlphaPixel) {
        RgbAlphaPixel { r: self.y, g: self.y, b: self.y, a: u8::MAX }
    }
}

impl IntoNonPalettePixel for LumaAlphaPixel {
    open spec fn rgb_of(self) -> RgbPixel {
        grey(self.y)
    }

    open spec fn alpha_of(self) -> u8 {
        self.a
    }

    fn into_rgb(self) -> (p: RgbPixel) {
        RgbPixel { r: self.y, g: self.y, b: self.y }
    }

    fn into_rgb_alpha(self) -> (p: RgbAlphaPixel) {
        RgbAlphaPixel { r: self.y, g: self.y, b: self.y, a: self.a }
    }
}

impl IntoNonPalettePixel for RgbPixel {
    open spec fn rgb_of(self) -> RgbPixel {
        self
    }

    open spec fn alpha_of(self) -> u8 {
        u8::MAX
    }

    fn into_rgb(self) -> (p: RgbPixel) {
        self
    }

    fn into_rgb_alpha(self) -> (p: RgbAlphaPixel) {
        RgbAlphaPixel { r: self.r, g: self.g, b: self.b, a: u8::MAX }
    }
}

impl IntoNonPalettePixel for RgbAlphaPixel {
    open spec fn rgb_of(self) -> RgbPixel {
        RgbPixel { r: self.r, g: self.g, b: self.b }
    }

    open spec fn alpha_of(self) -> u8 {
        self.a
    }

    fn into_rgb(self) -> (p: RgbPixel) {
        RgbPixel { r: self.r, g: self.g, b: self.b }
    }

    fn into_rgb_alpha(self) -> (p: RgbAlphaPixel) {
        self
    }
}

impl LumaPixel {
    /// Converts the value to a `LumaPixel`: the pixel itself.
    pub fn into_luma(self) -> (p: LumaPixel)
        ensures
            p == self,
    {
        self
    }

    /// Converts the value to a `LumaAlphaPixel`, opaque.
    pub fn into_luma_alpha(self) -> (p: LumaAlphaPixel)
        ensures
            p == (LumaAlphaPixel { y: self.y, a: u8::MAX }),
    {
        LumaAlphaPixel { y: self.y, a: u8::MAX }
    }
}

impl LumaAlphaPixel {
    /// Converts the value to a `LumaPixel`, dropping the alpha.
    pub fn into_luma(self) -> (p: LumaPixel)
        ensures
            p == (LumaPixel { y: self.y }),
    {
        LumaPixel { y: self.y }
    }

    /// Converts the value to a `LumaAlphaPixel`: the pixel itself.
    pub fn into_luma_alpha(self) -> (p: LumaAlphaPixel)
        ensures
            p == self,
    {
        self
    }
}

} // verus!
