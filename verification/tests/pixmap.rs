use cursor_kit::formats::raster::pixmap::{
    ConcatPixmap, DynamicPixmap, IndexedPixmap, LumaAlphaPixel, LumaPixel, LumaPixmap, PaletteIndex, Pixmap,
    PixmapTransform, RgbPixel, RgbPixmap,
};
use cursor_kit::formats::raster::RasterError;

fn luma_pixels() -> Vec<LumaPixel> {
    [255u8, 200, 145, 200, 145, 95, 145, 95, 40].iter().map(|&y| LumaPixel { y }).collect()
}

fn lumas(values: &[u8]) -> Vec<LumaPixel> {
    values.iter().map(|&y| LumaPixel { y }).collect()
}

#[test]
fn width() {
    let pixmap = LumaPixmap::new(3, 3, luma_pixels()).unwrap();
    assert_eq!(pixmap.width(), 3);
}

#[test]
fn height() {
    let pixmap = LumaPixmap::new(3, 3, luma_pixels()).unwrap();
    assert_eq!(pixmap.height(), 3);
}

#[test]
fn dimensions() {
    let pixmap = LumaPixmap::new(3, 3, luma_pixels()).unwrap();
    assert_eq!(pixmap.dimensions(), (3, 3));
}

#[test]
fn pixels() {
    let pixmap = LumaPixmap::new(3, 3, luma_pixels()).unwrap();
    assert_eq!(pixmap.pixels(), &luma_pixels());
}

#[test]
fn pixels_concat() {
    let pixmap = LumaPixmap::new(3, 3, luma_pixels()).unwrap();
    let expected_pixels: Vec<u8> = vec![255, 200, 145, 200, 145, 95, 145, 95, 40];
    assert_eq!(pixmap.pixels_concat(), expected_pixels);
}

#[test]
fn get_pixel() {
    let pixmap = LumaPixmap::new(3, 3, luma_pixels()).unwrap();
    let expected = luma_pixels();
    assert_eq!(pixmap.get_pixel(0, 0), Some(&expected[0]));
    assert_eq!(pixmap.get_pixel(1, 1), Some(&expected[4]));
    assert_eq!(pixmap.get_pixel(2, 2), Some(&expected[8]));
    assert_eq!(pixmap.get_pixel(3, 3), None);
}

#[test]
fn get_pixel_index() {
    let pixmap = LumaPixmap::new(3, 3, luma_pixels()).unwrap();
    assert_eq!(pixmap.get_pixel_index(0, 0), Some(0));
    assert_eq!(pixmap.get_pixel_index(1, 1), Some(4));
    assert_eq!(pixmap.get_pixel_index(2, 2), Some(8));
    assert_eq!(pixmap.get_pixel_index(3, 3), None);
}

#[test]
fn new_refuses_wrong_pixel_count() {
    let r = LumaPixmap::new(2, 3, luma_pixels());
    assert!(matches!(r, Err(RasterError::WrongDimensions(6, 9))));
}

#[test]
fn get_pixel_index_counts_pixels() {
    let pixels = vec![RgbPixel { r: 1, g: 2, b: 3 }, RgbPixel { r: 4, g: 5, b: 6 }];
    let pixmap = RgbPixmap::new(2, 1, pixels).unwrap();
    assert_eq!(pixmap.get_pixel_index(1, 0), Some(1));
    assert_eq!(pixmap.pixels().get(1), pixmap.get_pixel(1, 0));
    assert_eq!(pixmap.get_pixel(1, 0), Some(&RgbPixel { r: 4, g: 5, b: 6 }));
    assert_eq!(pixmap.pixels_concat(), vec![1, 2, 3, 4, 5, 6]);
}

#[test]
fn set_pixel() {
    let mut pixmap = LumaPixmap::new(3, 3, luma_pixels()).unwrap();
    pixmap.set_pixel(0, 0, LumaPixel { y: 40 });
    pixmap.set_pixel(2, 2, LumaPixel { y: 255 });
    let expected_pixels = lumas(&[40, 200, 145, 200, 145, 95, 145, 95, 255]);
    assert_eq!(pixmap.pixels(), &expected_pixels);
}

#[test]
fn flip_horizontal() {
    let mut pixmap = LumaPixmap::new(3, 3, luma_pixels()).unwrap();
    pixmap.flip_horizontal();
    let expected_pixels = lumas(&[145, 200, 255, 95, 145, 200, 40, 95, 145]);
    assert_eq!(pixmap.pixels(), &expected_pixels);
}

#[test]
fn flip_horizontal_and_back() {
    let mut pixmap = LumaPixmap::new(3, 3, luma_pixels()).unwrap();
    pixmap.flip_horizontal();
    pixmap.flip_horizontal();
    assert_eq!(pixmap.pixels(), &luma_pixels());
}

#[test]
fn flip_vertical() {
    let mut pixmap = LumaPixmap::new(3, 3, luma_pixels()).unwrap();
    pixmap.flip_vertical();
    let expected_pixels = lumas(&[145, 95, 40, 200, 145, 95, 255, 200, 145]);
    assert_eq!(pixmap.pixels(), &expected_pixels);
}

#[test]
fn flip_vertical_and_back() {
    let mut pixmap = LumaPixmap::new(3, 3, luma_pixels()).unwrap();
    pixmap.flip_vertical();
    pixmap.flip_vertical();
    assert_eq!(pixmap.pixels(), &luma_pixels());
}

#[test]
fn flip_horizontal_vertical() {
    let mut pixmap = LumaPixmap::new(3, 3, luma_pixels()).unwrap();
    pixmap.flip_horizontal();
    pixmap.flip_vertical();
    let expected_pixels = lumas(&[40, 95, 145, 95, 145, 200, 145, 200, 255]);
    assert_eq!(pixmap.pixels(), &expected_pixels);
}

#[test]
fn rotate_90() {
    let mut pixmap = LumaPixmap::new(3, 3, luma_pixels()).unwrap();
    pixmap.rotate_90();
    let expected_pixels = lumas(&[145, 200, 255, 95, 145, 200, 40, 95, 145]);
    assert_eq!(pixmap.pixels(), &expected_pixels);
}

#[test]
fn rotate_180() {
    let mut pixmap = LumaPixmap::new(3, 3, luma_pixels()).unwrap();
    pixmap.rotate_180();
    let expected_pixels = lumas(&[40, 95, 145, 95, 145, 200, 145, 200, 255]);
    assert_eq!(pixmap.pixels(), &expected_pixels);
}

#[test]
fn rotate_270() {
    let mut pixmap = LumaPixmap::new(3, 3, luma_pixels()).unwrap();
    pixmap.rotate_270();
    let expected_pixels = lumas(&[145, 95, 40, 200, 145, 95, 255, 200, 145]);
    assert_eq!(pixmap.pixels(), &expected_pixels);
}

#[test]
fn rotate_90_then_270_gives_back_the_pixmap() {
    let mut pixmap = LumaPixmap::new(3, 3, luma_pixels()).unwrap();
    pixmap.rotate_90();
    pixmap.rotate_270();
    assert_eq!(pixmap.pixels(), &luma_pixels());
}

#[test]
fn rotate_180_twice_gives_back_the_pixmap() {
    let mut pixmap = LumaPixmap::new(3, 3, luma_pixels()).unwrap();
    pixmap.rotate_180();
    pixmap.rotate_180();
    assert_eq!(pixmap.pixels(), &luma_pixels());
}

#[test]
fn rotate_90_twice_is_rotate_180() {
    let mut a = LumaPixmap::new(3, 3, luma_pixels()).unwrap();
    let mut b = LumaPixmap::new(3, 3, luma_pixels()).unwrap();
    a.rotate_90();
    a.rotate_90();
    b.rotate_180();
    assert_eq!(a.pixels(), b.pixels());
}

#[test]
fn flips_of_a_wide_pixmap() {
    let pixels = lumas(&[1, 2, 3, 4, 5, 6]);
    let mut pixmap = LumaPixmap::new(3, 2, pixels).unwrap();
    pixmap.flip_horizontal();
    assert_eq!(pixmap.pixels(), &lumas(&[3, 2, 1, 6, 5, 4]));
    pixmap.flip_vertical();
    assert_eq!(pixmap.pixels(), &lumas(&[6, 5, 4, 3, 2, 1]));
    assert_eq!(pixmap.dimensions(), (3, 2));
}

#[test]
fn rotate_180_of_a_wide_pixmap() {
    let mut pixmap = LumaPixmap::new(3, 2, lumas(&[1, 2, 3, 4, 5, 6])).unwrap();
    pixmap.rotate_180();
    assert_eq!(pixmap.pixels(), &lumas(&[6, 5, 4, 3, 2, 1]));
}

#[test]
fn transforms_of_an_empty_pixmap() {
    let mut pixmap = LumaPixmap::new(0, 5, Vec::new()).unwrap();
    pixmap.rotate_90();
    pixmap.rotate_270();
    pixmap.flip_horizontal();
    assert_eq!(pixmap.pixels().len(), 0);
    assert_eq!(pixmap.dimensions(), (0, 5));
}

#[test]
fn pixel_channels() {
    assert_eq!(LumaAlphaPixel { y: 7, a: 9 }.channels(), [7, 9]);
    assert_eq!(RgbPixel { r: 1, g: 2, b: 3 }.channels(), [1, 2, 3]);
    assert_eq!(LumaPixel::from(5), LumaPixel { y: 5 });
    assert_eq!(LumaAlphaPixel::from([5, 6]), LumaAlphaPixel { y: 5, a: 6 });
}

#[test]
fn concat_writes_each_pixel_channels_in_turn() {
    let rgb = RgbPixmap::new(2, 1, vec![RgbPixel { r: 1, g: 2, b: 3 }, RgbPixel { r: 4, g: 5, b: 6 }]).unwrap();
    assert_eq!(rgb.concat(), vec![1, 2, 3, 4, 5, 6]);
    let luma = LumaPixmap::new(3, 3, luma_pixels()).unwrap();
    assert_eq!(luma.concat(), vec![255, 200, 145, 200, 145, 95, 145, 95, 40]);
    let dynamic = DynamicPixmap::Rgb(rgb);
    assert_eq!(dynamic.concat(), vec![1, 2, 3, 4, 5, 6]);
}

#[test]
fn rotations_of_a_wide_pixmap_exchange_width_and_height() {
    // 3 wide, 2 tall:
    //   1 2 3
    //   4 5 6
    let mut pixmap = LumaPixmap::new(3, 2, lumas(&[1, 2, 3, 4, 5, 6])).unwrap();
    pixmap.rotate_90();
    assert_eq!(pixmap.dimensions(), (2, 3));
    assert_eq!(pixmap.pixels(), &lumas(&[4, 1, 5, 2, 6, 3]));
    pixmap.rotate_270();
    assert_eq!(pixmap.dimensions(), (3, 2));
    assert_eq!(pixmap.pixels(), &lumas(&[1, 2, 3, 4, 5, 6]));
    pixmap.rotate_270();
    assert_eq!(pixmap.dimensions(), (2, 3));
    assert_eq!(pixmap.pixels(), &lumas(&[3, 6, 2, 5, 1, 4]));
}

#[test]
fn transforms_keep_the_palette_and_alphas() {
    let palette = vec![RgbPixel { r: 1, g: 2, b: 3 }, RgbPixel { r: 4, g: 5, b: 6 }];
    let indexes = vec![PaletteIndex { i: 0 }, PaletteIndex { i: 1 }];
    let mut pixmap = IndexedPixmap::new(2, 1, indexes, palette.clone(), Some(vec![9])).unwrap();
    pixmap.rotate_90();
    pixmap.flip_horizontal();
    pixmap.set_pixel(0, 1, PaletteIndex { i: 0 });
    assert_eq!(pixmap.dimensions(), (1, 2));
    assert_eq!(pixmap.palette(), &palette);
    assert_eq!(pixmap.trns(), &Some(vec![9]));
}
