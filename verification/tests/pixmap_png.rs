use cursor_kit::formats::raster::pixmap::dynamic::DynamicPixmap;
use cursor_kit::formats::raster::pixmap::{LumaAlphaPixel, LumaAlphaPixmap, Pixmap, RgbPixel, RgbPixmap};
use cursor_kit::pixmap_png::{decode, encode, try_decode, DecodeError};

const PNG_MAGIC: [u8; 8] = [0x89, b'P', b'N', b'G', 0x0D, 0x0A, 0x1A, 0x0A];

#[test]
fn encode_appends_a_png_to_the_buffer() {
    let pixels = vec![RgbPixel { r: 1, g: 2, b: 3 }, RgbPixel { r: 4, g: 5, b: 6 }];
    let pixmap = DynamicPixmap::Rgb(RgbPixmap::new(1, 2, pixels).unwrap());
    let mut buffer = vec![7u8, 7];
    encode(pixmap, &mut buffer).unwrap();
    assert_eq!(buffer[0..2], [7, 7]);
    assert_eq!(buffer[2..10], PNG_MAGIC);
}

#[test]
fn decode_gives_back_an_encoded_pixmap() {
    let pixels = vec![LumaAlphaPixel { y: 1, a: 2 }, LumaAlphaPixel { y: 3, a: 4 }];
    let pixmap = DynamicPixmap::LumaAlpha(LumaAlphaPixmap::new(2, 1, pixels.clone()).unwrap());
    let mut buffer = Vec::new();
    encode(pixmap, &mut buffer).unwrap();
    match decode(&buffer).unwrap() {
        DynamicPixmap::LumaAlpha(p) => {
            assert_eq!(p.dimensions(), (2, 1));
            assert_eq!(p.pixels(), &pixels);
        }
        other => panic!("expected a greyscale pixmap with alpha, got {:?}", other.color_type()),
    }
    assert_eq!(try_decode(&buffer).unwrap().unwrap().pixels_concat(), vec![1, 2, 3, 4]);
}

#[test]
fn decode_keeps_the_png_error() {
    assert!(matches!(decode(b"not a png"), Err(DecodeError::PngError(_))));
    assert!(matches!(try_decode(&PNG_MAGIC), Some(Err(DecodeError::PngError(_)))));
}
