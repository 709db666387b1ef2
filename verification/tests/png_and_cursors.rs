use cursor_kit::cursor::windows::WindowsCursor;
use cursor_kit::cursor::xcursor::{X11Cursor, XCursor};
use cursor_kit::cursor::{Cursor, CursorDuration, CursorFrame, CursorHotspot, CursorImage};
use cursor_kit::formats::raster::pixmap::dynamic::{ColorType, DynamicPixmap};
use cursor_kit::formats::raster::pixmap::{
    IndexedPixmap, LumaAlphaPixel, LumaAlphaPixmap, LumaPixel, LumaPixmap, PaletteIndex, Pixmap, RgbAlphaPixel, RgbAlphaPixmap, RgbPixel,
};
use cursor_kit::formats::raster::RasterError;
use cursor_kit::formats::rgba::RasterImage as RgbaImage;

const PNG_MAGIC: [u8; 8] = [0x89, b'P', b'N', b'G', 0x0D, 0x0A, 0x1A, 0x0A];

#[test]
fn luma_png_roundtrip() {
    let pixels = vec![LumaPixel { y: 0 }, LumaPixel { y: 80 }, LumaPixel { y: 160 }, LumaPixel { y: 255 }];
    let pixmap = DynamicPixmap::Luma(LumaPixmap::new(2, 2, pixels.clone()).unwrap());
    let png = pixmap.encode_png().unwrap();
    assert_eq!(png[0..8], PNG_MAGIC);
    match DynamicPixmap::decode_png(&png).unwrap() {
        DynamicPixmap::Luma(p) => {
            assert_eq!(p.dimensions(), (2, 2));
            assert_eq!(p.pixels(), &pixels);
        }
        other => panic!("expected a greyscale pixmap, got {:?}", other.color_type()),
    }
}

#[test]
fn rgba_png_roundtrip() {
    let pixels = vec![RgbAlphaPixel { r: 1, g: 2, b: 3, a: 4 }, RgbAlphaPixel { r: 5, g: 6, b: 7, a: 8 }];
    let pixmap = DynamicPixmap::RgbAlpha(RgbAlphaPixmap::new(2, 1, pixels.clone()).unwrap());
    let png = pixmap.encode_png().unwrap();
    let decoded = DynamicPixmap::try_decode_png(&png).unwrap().unwrap();
    assert_eq!(decoded.color_type(), ColorType::Rgba);
    assert_eq!(decoded.pixels_concat(), vec![1, 2, 3, 4, 5, 6, 7, 8]);
}

#[test]
fn indexed_png_roundtrip() {
    let palette = vec![RgbPixel { r: 10, g: 20, b: 30 }, RgbPixel { r: 40, g: 50, b: 60 }];
    let indexes = vec![PaletteIndex { i: 1 }, PaletteIndex { i: 0 }];
    let pixmap = DynamicPixmap::Indexed(IndexedPixmap::new(2, 1, indexes, palette.clone(), Some(vec![7])).unwrap());
    let png = pixmap.encode_png().unwrap();
    match DynamicPixmap::decode_png(&png).unwrap() {
        DynamicPixmap::Indexed(p) => {
            assert_eq!(p.palette(), &palette);
            assert_eq!(p.trns(), &Some(vec![7]));
            assert_eq!(p.pixels_concat(), vec![1, 0]);
        }
        other => panic!("expected an indexed pixmap, got {:?}", other.color_type()),
    }
}

#[test]
fn decoding_garbage_fails() {
    assert!(matches!(DynamicPixmap::decode_png(b"not a png"), Err(RasterError::DecodingError(_))));
    assert!(matches!(DynamicPixmap::try_decode_png(b""), Some(Err(RasterError::DecodingError(_)))));
}

#[test]
fn rgba_image_png() {
    let image = RgbaImage::new(1, 1, vec![[9, 8, 7, 6]]);
    let png = image.encode_png().unwrap();
    assert_eq!(png[0..8], PNG_MAGIC);
    let decoded = DynamicPixmap::decode_png(&png).unwrap();
    assert_eq!(decoded.pixels_concat(), vec![9, 8, 7, 6]);
}

#[test]
fn rgba_image_decodes_its_own_png() {
    let image = RgbaImage::new(2, 1, vec![[9, 8, 7, 6], [1, 2, 3, 4]]);
    let png = image.encode_png().unwrap();
    let decoded = RgbaImage::decode_png(&png).unwrap();
    assert_eq!((decoded.width(), decoded.height()), (2, 1));
    assert_eq!(decoded.pixels(), &[[9, 8, 7, 6], [1, 2, 3, 4]]);
}

#[test]
fn rgba_image_repeats_grey_in_each_colour() {
    let pixels = vec![LumaAlphaPixel { y: 10, a: 20 }, LumaAlphaPixel { y: 30, a: 40 }];
    let png = DynamicPixmap::LumaAlpha(LumaAlphaPixmap::new(1, 2, pixels).unwrap()).encode_png().unwrap();
    let decoded = RgbaImage::try_decode_png(&png).unwrap().unwrap();
    assert_eq!((decoded.width(), decoded.height()), (1, 2));
    assert_eq!(decoded.to_rgba(), vec![10, 10, 10, 20, 30, 30, 30, 40]);
}

#[test]
fn rgba_image_of_an_opaque_grey_png() {
    let pixels = vec![LumaPixel { y: 5 }, LumaPixel { y: 250 }];
    let png = DynamicPixmap::Luma(LumaPixmap::new(2, 1, pixels).unwrap()).encode_png().unwrap();
    let decoded = RgbaImage::decode_png(&png).unwrap();
    assert_eq!(decoded.to_rgba(), vec![5, 5, 5, 255, 250, 250, 250, 255]);
}

#[test]
fn rgba_image_of_garbage_fails() {
    assert!(matches!(RgbaImage::decode_png(b"not a png"), Err(RasterError::DecodingError(_))));
    assert!(matches!(RgbaImage::try_decode_png(b""), Some(Err(RasterError::DecodingError(_)))));
}

fn image(nominal: u32) -> CursorImage {
    CursorImage {
        nominal,
        hotspot: CursorHotspot::new(1, 2),
        raster: RgbaImage::new(1, 1, vec![[255, 0, 0, 255]]),
    }
}

fn frame(ms: u32) -> CursorFrame {
    CursorFrame { images: vec![image(24)], duration: Some(CursorDuration::from_milliseconds(ms)) }
}

#[test]
fn windows_static_cursor_is_a_cur_file() {
    let cursor = Cursor { frames: vec![frame(100)], metadata: None };
    assert!(!cursor.is_animated());
    let bytes = WindowsCursor(&cursor).write(&vec![]).unwrap();
    assert_eq!(bytes[0..6], [0, 0, 2, 0, 1, 0]);
    assert_eq!(bytes[6..12], [24, 24, 0, 0, 1, 0]);
    assert_eq!(bytes[12..14], [2, 0]);
    let len = u32::from_le_bytes([bytes[14], bytes[15], bytes[16], bytes[17]]) as usize;
    assert_eq!(bytes[18..22], 22u32.to_le_bytes());
    assert_eq!(bytes.len(), 22 + len);
    assert_eq!(bytes[22..30], PNG_MAGIC);
}

#[test]
fn windows_animated_cursor_is_an_ani_file() {
    let cursor = Cursor { frames: vec![frame(100), frame(200)], metadata: None };
    assert!(cursor.is_animated());
    let bytes = WindowsCursor(&cursor).write(&vec![6, 12]).unwrap();
    assert_eq!(&bytes[0..4], b"RIFF");
    assert_eq!(&bytes[8..12], b"ACON");
    assert_eq!(&bytes[12..16], b"anih");
    assert_eq!(bytes[16..20], 36u32.to_le_bytes());
    assert_eq!(bytes[20..24], 2u32.to_le_bytes());
    assert_eq!(&bytes[52..56], b"rate");
    assert_eq!(bytes[56..60], 6u32.to_le_bytes());
    assert_eq!(bytes[60..64], 12u32.to_le_bytes());
    assert_eq!(&bytes[64..68], b"seq ");
    assert_eq!(bytes[68..72], 0u32.to_le_bytes());
    assert_eq!(bytes[76..80], 2u32.to_le_bytes());
    assert_eq!(&bytes[80..84], b"LIST");
    assert_eq!(&bytes[88..92], b"fram");
    assert_eq!(&bytes[92..96], b"icon");
}

#[test]
fn xcursor_of_a_cursor() {
    let cursor = Cursor { frames: vec![frame(50)], metadata: None };
    let mut out = Vec::new();
    XCursor(&cursor).write(&mut out);
    assert_eq!(&out[0..4], b"Xcur");
    assert_eq!(out[12..16], 1u32.to_le_bytes());
    assert_eq!(out[16..20], 0xfffd0002u32.to_le_bytes());
    assert_eq!(out[20..24], 24u32.to_le_bytes());
    assert_eq!(out[24..28], 28u32.to_le_bytes());
    assert_eq!(out[44..48], 1u32.to_le_bytes());
    assert_eq!(out[48..52], 1u32.to_le_bytes());
    assert_eq!(out[52..56], 1u32.to_le_bytes());
    assert_eq!(out[56..60], 2u32.to_le_bytes());
    assert_eq!(out[60..64], 50u32.to_le_bytes());
    assert_eq!(out[64..68], [0, 0, 255, 255]);
    assert_eq!(out.len(), 68);
}

#[test]
fn x11_cursor_writes_the_same_file_through_an_xcursor_file() {
    let cursor = Cursor { frames: vec![frame(50), frame(70)], metadata: None };
    let mut direct = Vec::new();
    XCursor(&cursor).write(&mut direct);
    let mut through_file = vec![1u8];
    X11Cursor(&cursor).write(&mut through_file).unwrap();
    assert_eq!(through_file[0], 1);
    assert_eq!(&through_file[1..], &direct[..]);
    assert_eq!(direct[12..16], 2u32.to_le_bytes());
}

#[test]
fn xcursor_try_write_checks_sizes() {
    let cursor = Cursor { frames: vec![frame(50)], metadata: None };
    let mut direct = Vec::new();
    XCursor(&cursor).write(&mut direct);
    let mut checked = Vec::new();
    assert!(XCursor(&cursor).try_write(&mut checked));
    assert_eq!(checked, direct);
    let mut x11 = Vec::new();
    assert!(matches!(X11Cursor(&cursor).try_write(&mut x11), Some(Ok(()))));
    assert_eq!(x11, direct);
    let empty = Cursor { frames: vec![], metadata: None };
    let mut none = vec![5u8];
    assert!(X11Cursor(&empty).try_write(&mut none).is_none());
    assert_eq!(none, vec![5]);
}
