use cursor_kit::formats::cursors::cur::{IconColorCount, IconDirEntry};
use cursor_kit::formats::cursors::xcursor::{XcursorCommentChunk, XcursorCommentSubtype, XcursorImageChunk};
use cursor_kit::formats::cursors::{
    AniFile, CurFile, CurIcon, CursorFile, Hotspot, XcursorChunk, XcursorCommentKind, XcursorFile,
};
use cursor_kit::point::Point;

fn icon(width: u16, data: &[u8]) -> CurIcon {
    CurIcon::new(width, width, Point { x: 1, y: 2 }, data.to_vec())
}

#[test]
fn cur_file_layout() {
    let file = CurFile::new(vec![icon(32, b"png!")]);
    assert_eq!(file.exact_size(), 6 + 16 + 4);
    assert_eq!(file.size(), 26);
    let mut out = Vec::new();
    assert_eq!(file.write(&mut out), 26);
    let expected: Vec<u8> = vec![
        0, 0, 2, 0, 1, 0, // header
        32, 32, 0, 0, 1, 0, 2, 0, 4, 0, 0, 0, 22, 0, 0, 0, // entry
        b'p', b'n', b'g', b'!',
    ];
    assert_eq!(out, expected);
}

#[test]
fn cur_file_read_back() {
    let mut out = Vec::new();
    CurFile::new(vec![icon(300, b"abc")]).write(&mut out);
    let icons = CurFile::read(&out).ok().unwrap().into_icons();
    assert_eq!(icons.len(), 1);
    assert_eq!(icons[0].width, 0);
    assert_eq!(icons[0].hotspot, Point { x: 1, y: 2 });
    assert_eq!(icons[0].buffer, b"abc".to_vec());
}

#[test]
fn icon_dir_entry_clamps_large_sizes() {
    let e = IconDirEntry::new(256, 48, IconColorCount::EightPlus, 3, 4, 10);
    assert_eq!(e.width, 0);
    assert_eq!(e.height, 48);
    assert_eq!(e.color_count, 0);
    assert_eq!(IconColorCount::Four.value(), 16);
    assert_eq!(IconColorCount::One.value(), 2);
    let e = IconDirEntry::new(16, 16, IconColorCount::Four, 16, 0, 7);
    assert_eq!((e.width, e.height, e.color_count), (16, 16, 16));
    assert_eq!((e.hotspot_x, e.hotspot_y, e.data_size), (16, 0, 7));
}

#[test]
fn ani_file_layout() {
    let frames = vec![CurFile::new(vec![icon(8, b"xy")])];
    let ani = AniFile::new(frames, vec![12], vec![0]);
    let size = ani.exact_size();
    let mut out = Vec::new();
    let n = ani.write(&mut out).unwrap();
    assert_eq!(n, size);
    assert_eq!(&out[0..4], b"RIFF");
    assert_eq!(&out[8..12], b"ACON");
    assert_eq!(&out[12..16], b"anih");
    assert_eq!(&out[16..20], &36u32.to_le_bytes());
    assert_eq!(&out[20..24], &36u32.to_le_bytes());
    assert_eq!(&out[24..28], &1u32.to_le_bytes());
    assert_eq!(&out[28..32], &1u32.to_le_bytes());
    assert_eq!(&out[52..56], &1u32.to_le_bytes());
    assert_eq!(&out[56..60], b"rate");
    assert_eq!(&out[64..68], &12u32.to_le_bytes());
    assert_eq!(&out[68..72], b"seq ");
    assert_eq!(&out[76..80], &0u32.to_le_bytes());
    assert_eq!(&out[80..84], b"LIST");
    assert_eq!(&out[88..92], b"fram");
    assert_eq!(&out[92..96], b"icon");
    assert_eq!(&out[96..100], &24u32.to_le_bytes());
    assert_eq!(out.len(), 100 + 24);
}

#[test]
fn xcursor_file_layout() {
    let chunks = vec![
        XcursorChunk::Comment { kind: XcursorCommentKind::License, value: "MIT".to_string() },
        XcursorChunk::Image {
            nominal: 24,
            width: 1,
            height: 1,
            hotspot: Point { x: 0, y: 0 },
            duration: 50,
            pixels: vec![1, 2, 3, 4],
        },
    ];
    let file = XcursorFile::new(chunks);
    let size = file.size();
    assert_eq!(size, 16 + 12 * 2 + 23 + 40);
    let mut out = Vec::new();
    file.write(&mut out).unwrap();
    assert_eq!(out.len(), size);
    assert_eq!(&out[0..4], b"Xcur");
    assert_eq!(&out[4..8], &16u32.to_le_bytes());
    assert_eq!(&out[8..12], &0x10000u32.to_le_bytes());
    assert_eq!(&out[12..16], &2u32.to_le_bytes());
    assert_eq!(&out[16..20], &0xfffe0001u32.to_le_bytes());
    assert_eq!(&out[20..24], &2u32.to_le_bytes());
    assert_eq!(&out[24..28], &40u32.to_le_bytes());
    assert_eq!(&out[28..32], &0xfffd0002u32.to_le_bytes());
    assert_eq!(&out[32..36], &24u32.to_le_bytes());
    assert_eq!(&out[36..40], &63u32.to_le_bytes());
    assert_eq!(&out[56..60], &3u32.to_le_bytes());
    assert_eq!(&out[60..63], b"MIT");
    assert_eq!(&out[95..99], &50u32.to_le_bytes());
    assert_eq!(&out[99..103], &[1, 2, 3, 4]);
}

#[test]
fn xcursor_chunk_sizes() {
    let comment = XcursorCommentChunk::new(XcursorCommentSubtype::Copyright, "ab".to_string());
    assert_eq!(comment.size(), 22);
    let image = XcursorImageChunk::new(32, 2, 2, 1, 1, None, vec![0; 16]);
    assert_eq!(image.size(), 52);
    match image.into_chunk() {
        XcursorChunk::Image { duration, nominal, .. } => {
            assert_eq!(duration, 0);
            assert_eq!(nominal, 32);
        }
        _ => panic!("expected an image chunk"),
    }
    assert_eq!(XcursorCommentKind::Other.number(), 3);
}

#[test]
fn hotspot_scales_with_the_image() {
    let hotspot = Hotspot::from((3, 4));
    assert_eq!(hotspot, Hotspot { x: 3, y: 4 });
    assert_eq!(hotspot * 2, Hotspot { x: 6, y: 8 });
    let mut scaled = hotspot;
    scaled *= 3;
    assert_eq!(scaled, Hotspot { x: 9, y: 12 });
}

#[test]
fn comment_chunk_writes_its_size() {
    let comment = XcursorCommentChunk::new(XcursorCommentSubtype::License, "abc".to_string());
    let size = comment.size();
    assert_eq!(size, 23);
    let mut out = Vec::new();
    XcursorFile::new(vec![comment.into_chunk()]).write(&mut out).unwrap();
    assert_eq!(out.len(), 16 + 12 + size);
    assert_eq!(out[28..32], 20u32.to_le_bytes());
    assert_eq!(out[44..48], 3u32.to_le_bytes());
    assert_eq!(&out[48..], b"abc");
}
