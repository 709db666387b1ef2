use cursor_kit::formats::raster::pixmap::convert::IntoPixmap;
use cursor_kit::formats::raster::pixmap::dynamic::{ColorType, DynamicPixmap};
use cursor_kit::formats::raster::pixmap::{
    IndexedPixmap, IntoNonPalettePixel, LumaAlphaPixel, LumaAlphaPixmap, LumaPixel, LumaPixmap,
    PaletteIndex, Pixmap, RgbAlphaPixel, RgbAlphaPixmap, RgbPixel, RgbPixmap,
};
use cursor_kit::formats::raster::{RasterError, RasterImage};
use cursor_kit::formats::rgba::RasterImage as RgbaImage;

fn rgba(r: u8, g: u8, b: u8, a: u8) -> RgbAlphaPixel {
    RgbAlphaPixel { r, g, b, a }
}

#[test]
fn luma_into_rgb_keeps_dimensions() {
    let pixmap = LumaPixmap::new(2, 1, vec![LumaPixel { y: 3 }, LumaPixel { y: 9 }]).unwrap();
    let rgb = pixmap.into_rgb();
    assert_eq!(rgb.dimensions(), (2, 1));
    assert_eq!(rgb.pixels(), &vec![RgbPixel { r: 3, g: 3, b: 3 }, RgbPixel { r: 9, g: 9, b: 9 }]);
}

#[test]
fn luma_alpha_into_rgb_alpha() {
    let pixmap = LumaAlphaPixmap::new(1, 1, vec![LumaAlphaPixel { y: 4, a: 7 }]).unwrap();
    let out = pixmap.into_rgb_alpha();
    assert_eq!(out.pixels(), &vec![rgba(4, 4, 4, 7)]);
}

#[test]
fn luma_into_luma_alpha_is_opaque() {
    let pixmap = LumaPixmap::new(1, 2, vec![LumaPixel { y: 1 }, LumaPixel { y: 2 }]).unwrap();
    let out = pixmap.into_luma_alpha();
    assert_eq!(out.dimensions(), (1, 2));
    assert_eq!(out.pixels(), &vec![LumaAlphaPixel { y: 1, a: 255 }, LumaAlphaPixel { y: 2, a: 255 }]);
    let back = out.into_luma();
    assert_eq!(back.pixels(), &vec![LumaPixel { y: 1 }, LumaPixel { y: 2 }]);
}

#[test]
fn rgb_into_indexed_palette_in_first_order() {
    let a = RgbPixel { r: 1, g: 0, b: 0 };
    let b = RgbPixel { r: 0, g: 1, b: 0 };
    let pixmap = RgbPixmap::new(2, 2, vec![a, b, a, a]).unwrap();
    let indexed = pixmap.into_indexed();
    assert_eq!(indexed.palette(), &vec![a, b]);
    assert_eq!(indexed.trns(), &None);
    assert_eq!(
        indexed.pixels(),
        &vec![PaletteIndex { i: 0 }, PaletteIndex { i: 1 }, PaletteIndex { i: 0 }, PaletteIndex { i: 0 }]
    );
    assert_eq!(indexed.dimensions(), (2, 2));
}

#[test]
fn rgb_alpha_into_indexed_orders_palette_by_alpha() {
    let pixels = vec![rgba(1, 1, 1, 255), rgba(2, 2, 2, 10), rgba(3, 3, 3, 0), rgba(2, 2, 2, 255)];
    let pixmap = RgbAlphaPixmap::new(4, 1, pixels).unwrap();
    let indexed = pixmap.into_indexed();
    assert_eq!(
        indexed.palette(),
        &vec![RgbPixel { r: 3, g: 3, b: 3 }, RgbPixel { r: 2, g: 2, b: 2 }, RgbPixel { r: 1, g: 1, b: 1 }]
    );
    assert_eq!(indexed.trns(), &Some(vec![0, 10]));
    assert_eq!(
        indexed.pixels(),
        &vec![PaletteIndex { i: 2 }, PaletteIndex { i: 1 }, PaletteIndex { i: 0 }, PaletteIndex { i: 1 }]
    );
}

#[test]
fn indexed_into_rgb_alpha_uses_trns() {
    let palette = vec![RgbPixel { r: 9, g: 8, b: 7 }, RgbPixel { r: 1, g: 2, b: 3 }];
    let pixels = vec![PaletteIndex { i: 1 }, PaletteIndex { i: 0 }];
    let indexed = IndexedPixmap::new(2, 1, pixels, palette, Some(vec![50])).unwrap();
    let out = indexed.into_rgb_alpha();
    assert_eq!(out.pixels(), &vec![rgba(1, 2, 3, 255), rgba(9, 8, 7, 50)]);
}

#[test]
fn indexed_into_rgb() {
    let palette = vec![RgbPixel { r: 9, g: 8, b: 7 }];
    let indexed = IndexedPixmap::new(1, 1, vec![PaletteIndex { i: 0 }], palette, None).unwrap();
    assert_eq!(indexed.into_rgb().pixels(), &vec![RgbPixel { r: 9, g: 8, b: 7 }]);
}

#[test]
fn indexed_roundtrip_through_rgb_alpha() {
    let pixels = vec![rgba(5, 5, 5, 20), rgba(6, 6, 6, 255), rgba(5, 5, 5, 20)];
    let pixmap = RgbAlphaPixmap::new(3, 1, pixels.clone()).unwrap();
    let back = pixmap.into_indexed().into_rgb_alpha();
    assert_eq!(back.pixels(), &pixels);
}

#[test]
fn pixel_conversions() {
    assert_eq!(LumaAlphaPixel { y: 3, a: 4 }.into_rgb_alpha(), rgba(3, 3, 3, 4));
    assert_eq!(rgba(1, 2, 3, 4).into_rgb(), RgbPixel { r: 1, g: 2, b: 3 });
    assert_eq!(RgbPixel { r: 1, g: 2, b: 3 }.into_rgb_alpha(), rgba(1, 2, 3, 255));
}

#[test]
fn dynamic_pixmap_accessors() {
    let luma = LumaPixmap::new(2, 1, vec![LumaPixel { y: 1 }, LumaPixel { y: 2 }]).unwrap();
    let dynamic = DynamicPixmap::Luma(luma);
    assert_eq!(dynamic.width(), 2);
    assert_eq!(dynamic.height(), 1);
    assert_eq!(dynamic.pixels_len(), 2);
    assert_eq!(dynamic.pixels_concat(), vec![1, 2]);
    assert_eq!(dynamic.color_type(), ColorType::Grayscale);
    let rgb = dynamic.into_rgb();
    assert_eq!(rgb.pixels(), &vec![RgbPixel { r: 1, g: 1, b: 1 }, RgbPixel { r: 2, g: 2, b: 2 }]);
}

#[test]
fn raster_image_checks_dimensions() {
    let luma = LumaPixmap::new(2, 1, vec![LumaPixel { y: 1 }, LumaPixel { y: 2 }]).unwrap();
    let image = RasterImage::new(2, 1, DynamicPixmap::Luma(luma)).unwrap();
    assert_eq!(image.width(), 2);
    assert_eq!(image.height(), 1);
    assert_eq!(image.pixmap().pixels_len(), 2);
    let luma = LumaPixmap::new(2, 1, vec![LumaPixel { y: 1 }, LumaPixel { y: 2 }]).unwrap();
    let refused = RasterImage::new(3, 1, DynamicPixmap::Luma(luma));
    assert!(matches!(refused, Err(RasterError::WrongDimensions(3, 2))));
}

#[test]
fn rgba_image_flattening() {
    let image = RgbaImage::new(2, 1, vec![[1, 2, 3, 4], [5, 6, 7, 8]]);
    assert_eq!(image.to_rgba(), vec![1, 2, 3, 4, 5, 6, 7, 8]);
    assert_eq!(image.to_bgra(), vec![3, 2, 1, 4, 7, 6, 5, 8]);
    assert_eq!(image.pixels(), &[[1, 2, 3, 4], [5, 6, 7, 8]]);
    assert_eq!(image.clone().into_bgra(), vec![3, 2, 1, 4, 7, 6, 5, 8]);
    assert_eq!(image.into_rgba(), vec![1, 2, 3, 4, 5, 6, 7, 8]);
}

#[test]
fn indexed_roundtrip_through_rgb() {
    let a = RgbPixel { r: 1, g: 0, b: 0 };
    let b = RgbPixel { r: 0, g: 1, b: 0 };
    let pixmap = RgbPixmap::new(3, 1, vec![b, a, b]).unwrap();
    assert_eq!(pixmap.into_indexed().into_rgb().pixels(), &vec![b, a, b]);
}

#[test]
fn indexed_roundtrip_keeps_one_alpha_per_colour() {
    let pixels = vec![rgba(2, 2, 2, 255), rgba(2, 2, 2, 10)];
    let pixmap = RgbAlphaPixmap::new(2, 1, pixels).unwrap();
    let back = pixmap.into_indexed().into_rgb_alpha();
    assert_eq!(back.pixels(), &vec![rgba(2, 2, 2, 10), rgba(2, 2, 2, 10)]);
}
