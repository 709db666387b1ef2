use cursor_kit::formats::containers::ico::common::{exact_size_impl, read_impl, write_impl, RawDirEntry};
use cursor_kit::formats::containers::ico::ReadError;
use cursor_kit::formats::containers::riff::chunk_value::ChunkValue as NamedChunk;
use cursor_kit::formats::containers::riff::{ChunkId, ChunkValue};

const EMPTY_IMAGES_BUF: &[u8] = &[0, 0, 0, 0, 0, 0];

const EMPTY_SINGLE_IMAGE_BUF: &[u8] = &[
    0, 0, 0, 0, 1, 0, // header
    0, 0, 0, 0, 0, 0, 0, 0, 0, 0, 0, 0, 22, 0, 0, 0, // entry
];

const SINGLE_IMAGE_BUFFER: &[u8] = &[
    0, 0, 0, 0, 1, 0, // header
    0, 0, 0, 0, 0, 0, 0, 0, 11, 0, 0, 0, 22, 0, 0, 0, // entry
    0x68, 0x65, 0x6C, 0x6C, 0x6F, 0x20, 0x77, 0x6F, 0x72, 0x6C, 0x64,
];

#[test]
fn read_empty_images() {
    let entries: Vec<(RawDirEntry, Vec<u8>)> = Vec::new();
    assert_eq!(read_impl(EMPTY_IMAGES_BUF, 0).unwrap(), entries);
}

#[test]
fn write_empty_images() {
    let entries: Vec<(RawDirEntry, Vec<u8>)> = Vec::new();
    let expected_size = EMPTY_IMAGES_BUF.len();
    assert_eq!(exact_size_impl(&entries), expected_size);
    let mut writer = Vec::with_capacity(expected_size);
    assert_eq!(write_impl(&mut writer, 0, entries), expected_size);
    assert_eq!(&writer, EMPTY_IMAGES_BUF);
}

#[test]
fn read_empty_single_image() {
    let entries = vec![(RawDirEntry::default(), Vec::new())];
    assert_eq!(read_impl(EMPTY_SINGLE_IMAGE_BUF, 0).unwrap(), entries);
}

#[test]
fn write_empty_single_image() {
    let entries = vec![(RawDirEntry::default(), Vec::new())];
    let expected_size = EMPTY_SINGLE_IMAGE_BUF.len();
    assert_eq!(exact_size_impl(&entries), expected_size);
    let mut writer = Vec::with_capacity(expected_size);
    assert_eq!(write_impl(&mut writer, 0, entries), expected_size);
    assert_eq!(&writer, EMPTY_SINGLE_IMAGE_BUF);
}

#[test]
fn read_single_image() {
    let entries = vec![(RawDirEntry::default(), b"hello world".to_vec())];
    assert_eq!(read_impl(SINGLE_IMAGE_BUFFER, 0).unwrap(), entries);
}

#[test]
fn write_single_image() {
    let entries = vec![(RawDirEntry::default(), b"hello world".to_vec())];
    let expected_size = SINGLE_IMAGE_BUFFER.len();
    assert_eq!(exact_size_impl(&entries), expected_size);
    let mut writer = Vec::with_capacity(expected_size);
    assert_eq!(write_impl(&mut writer, 0, entries), expected_size);
    assert_eq!(&writer, SINGLE_IMAGE_BUFFER);
}

#[test]
fn read_refuses_other_resource_type() {
    assert_eq!(read_impl(EMPTY_IMAGES_BUF, 2), Err(ReadError::InvalidResourceType(2, 0)));
}

#[test]
fn read_refuses_missing_reserved() {
    assert_eq!(read_impl(&[1, 0, 0, 0, 0, 0], 0), Err(ReadError::HeaderMissingReserved));
}

#[test]
fn read_refuses_short_input() {
    assert_eq!(read_impl(&[0, 0, 0], 0), Err(ReadError::UnexpectedEof));
}

fn chunks() -> ChunkValue {
    ChunkValue::riff(
        ChunkId(*b"ACON"),
        vec![ChunkValue::list(ChunkId(*b"fram"), vec![ChunkValue::Raw(b"icon".to_vec())])],
    )
}

#[test]
fn write() {
    let mut writer = Vec::new();
    chunks().write(&mut writer).unwrap();
    let mut expected = Vec::new();
    expected.extend_from_slice(b"RIFF");
    expected.extend_from_slice(&20u32.to_le_bytes());
    expected.extend_from_slice(b"ACON");
    expected.extend_from_slice(b"LIST");
    expected.extend_from_slice(&8u32.to_le_bytes());
    expected.extend_from_slice(b"fram");
    expected.extend_from_slice(b"icon");
    assert_eq!(writer, expected);
}

#[test]
fn size() {
    let capacity = chunks().size();
    let mut writer = Vec::new();
    chunks().write(&mut writer).unwrap();
    assert_eq!(writer.len(), capacity);
}

#[test]
fn empty_children() {
    let chunk = ChunkValue::riff(ChunkId(*b"MEOW"), vec![]);
    let expected_buffer: &[u8] = &[0x52, 0x49, 0x46, 0x46, 0x04, 0x00, 0x00, 0x00, 0x4D, 0x45, 0x4F, 0x57];
    let expected_size = expected_buffer.len();
    assert_eq!(chunk.exact_size(), expected_size);
    let mut buffer = Vec::with_capacity(expected_size);
    assert_eq!(chunk.write(&mut buffer).unwrap(), expected_size);
    assert_eq!(&buffer, expected_buffer);
}

#[test]
fn empty_raw() {
    let chunk = ChunkValue::Raw(Vec::new());
    assert_eq!(chunk.exact_size(), 0);
    let mut buffer = Vec::new();
    assert_eq!(chunk.write(&mut buffer).unwrap(), 0);
}

#[test]
fn single_child() {
    let chunk = chunks();
    let expected_buffer: &[u8] = &[
        0x52, 0x49, 0x46, 0x46, 0x14, 0x00, 0x00, 0x00, 0x41, 0x43, 0x4F, 0x4E, 0x4C, 0x49, 0x53, 0x54,
        0x08, 0x00, 0x00, 0x00, 0x66, 0x72, 0x61, 0x6D, 0x69, 0x63, 0x6F, 0x6E,
    ];
    let expected_size = expected_buffer.len();
    assert_eq!(chunk.exact_size(), expected_size);
    let mut buffer = Vec::with_capacity(expected_size);
    assert_eq!(chunk.write(&mut buffer).unwrap(), expected_size);
    assert_eq!(&buffer, expected_buffer);
}

const EMPTY_PARENT_BUF: &[u8] = &[0x52, 0x49, 0x46, 0x46, 0x04, 0x00, 0x00, 0x00, 0x4D, 0x45, 0x4F, 0x57];

const EMPTY_CHILD_BUF: &[u8] = &[
    0x52, 0x49, 0x46, 0x46, 0x18, 0x00, 0x00, 0x00, 0x41, 0x43, 0x4F, 0x4E, 0x4C, 0x49, 0x53, 0x54,
    0x0C, 0x00, 0x00, 0x00, 0x66, 0x72, 0x61, 0x6D, 0x69, 0x63, 0x6F, 0x6E, 0x00, 0x00, 0x00, 0x00,
];

fn empty_child_chunk() -> NamedChunk {
    NamedChunk::Parent(
        ChunkId::riff(),
        ChunkId(*b"ACON"),
        vec![NamedChunk::Parent(
            ChunkId::list(),
            ChunkId(*b"fram"),
            vec![NamedChunk::Child(ChunkId(*b"icon"), vec![])],
        )],
    )
}

#[test]
fn read_empty_parent() {
    let chunk = NamedChunk::Parent(ChunkId::riff(), ChunkId(*b"MEOW"), vec![]);
    assert_eq!(NamedChunk::read(EMPTY_PARENT_BUF).unwrap(), chunk);
}

#[test]
fn write_empty_parent() {
    let chunk = NamedChunk::Parent(ChunkId::riff(), ChunkId(*b"MEOW"), vec![]);
    let expected_size = EMPTY_PARENT_BUF.len();
    assert_eq!(chunk.exact_size(), expected_size);
    let mut writer = Vec::with_capacity(expected_size);
    assert_eq!(chunk.write(&mut writer).unwrap(), expected_size);
    assert_eq!(&writer, EMPTY_PARENT_BUF);
}

#[test]
fn read_empty_child() {
    assert_eq!(NamedChunk::read(EMPTY_CHILD_BUF).unwrap(), empty_child_chunk());
}

#[test]
fn write_empty_child() {
    let chunk = empty_child_chunk();
    let expected_size = EMPTY_CHILD_BUF.len();
    assert_eq!(chunk.exact_size(), expected_size);
    let mut writer = Vec::with_capacity(expected_size);
    assert_eq!(chunk.write(&mut writer).unwrap(), expected_size);
    assert_eq!(&writer, EMPTY_CHILD_BUF);
}

#[test]
fn odd_child_is_padded_and_read_back() {
    let chunk = NamedChunk::Parent(
        ChunkId::riff(),
        ChunkId(*b"TEST"),
        vec![NamedChunk::Child(ChunkId(*b"data"), vec![1, 2, 3])],
    );
    let mut writer = Vec::new();
    let n = chunk.write(&mut writer).unwrap();
    assert_eq!(n, 24);
    assert_eq!(writer[20..], [1, 2, 3, 0]);
    let expected = NamedChunk::Parent(
        ChunkId::riff(),
        ChunkId(*b"TEST"),
        vec![NamedChunk::Child(ChunkId(*b"data"), vec![1, 2, 3])],
    );
    assert_eq!(NamedChunk::read(&writer).unwrap(), expected);
}

#[test]
fn chunk_id_read() {
    assert_eq!(ChunkId::read(b"RIFFxx"), Ok(ChunkId(*b"RIFF")));
    assert!(ChunkId::read(b"RIF").is_err());
}
