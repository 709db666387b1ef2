//! Xcursor files: a header, a table of contents with one entry per chunk,
//! then the chunks, each a comment or an image.
//!
//! Every number is a little-endian 32-bit word. The header is `Xcur`, its
//! size (16), the version (0x10000) and the number of chunks. A table entry
//! is the chunk's type, its subtype and the position of the chunk in the
//! file. A chunk starts with its header size, type, subtype and version
//! (1); a comment then holds its length and its UTF-8 bytes, an image its
//! width, height, hotspot, delay and pixels.

use crate::bytes::{le32, push_all, push_le32};
use crate::point::Point;
use vstd::prelude::*;

verus! {

/// What a comment chunk holds.
#[derive(Debug, Clone, Copy, PartialEq, Eq, Structural)]
pub enum XcursorCommentKind {
    Copyright,
    License,
    Other,
}

impl XcursorCommentKind {
    /// The subtype that a comment of this kind is written with.
    pub open spec fn spec_number(self) -> u32 {
        match self {
            XcursorCommentKind::Copyright => 1,
            XcursorCommentKind::License => 2,
            XcursorCommentKind::Other => 3,
        }
    }

    /// Returns the subtype that a comment of this kind is written with: 1
    /// for a copyright, 2 for a license, 3 for any other comment.
    pub fn number(self) -> (n: u32)
        ensures
            n == self.spec_number(),
            n == match self {
                XcursorCommentKind::Copyright => 1u32,
                XcursorCommentKind::License => 2u32,
                XcursorCommentKind::Other => 3u32,
            },
    {
        match self {
            XcursorCommentKind::Copyright => 1,
            XcursorCommentKind::License => 2,
            XcursorCommentKind::Other => 3,
        }
    }
}

/// A chunk of an Xcursor file.
#[derive(Debug, Clone)]
pub enum XcursorChunk {
    Comment { kind: XcursorCommentKind, value: String },
    Image {
        nominal: u32,
        width: u32,
        height: u32,
        hotspot: Point<u32>,
        duration: u32,
        pixels: Vec<u8>,
    },
}

/// What a chunk holds, as plain values: a comment's UTF-8 bytes, an
/// image's fields and pixels.
pub enum XcursorChunkModel {
    Comment { kind: XcursorCommentKind, value: Seq<u8> },
    Image {
        nominal: u32,
        width: u32,
        height: u32,
        hotspot: Point<u32>,
        duration: u32,
        pixels: Seq<u8>,
    },
}

/// The plain values of a chunk.
pub open spec fn chunk_model_of(c: XcursorChunk) -> XcursorChunkModel {
    match c {
        XcursorChunk::Comment { kind, value } => XcursorChunkModel::Comment {
            kind,
            value: vstd::utf8::encode_utf8(value@),
        },
        XcursorChunk::Image { nominal, width, height, hotspot, duration, pixels } => XcursorChunkModel::Image {
            nominal,
            width,
            height,
            hotspot,
            duration,
            pixels: pixels@,
        },
    }
}

/// The plain values of a sequence of chunks.
pub open spec fn chunk_models(s: Seq<XcursorChunk>) -> Seq<XcursorChunkModel> {
    s.map_values(|c: XcursorChunk| chunk_model_of(c))
}

/// The size of a comment chunk's header.
pub open spec fn comment_header_size() -> nat {
    20
}

/// The size of an image chunk's header.
pub open spec fn image_header_size() -> nat {
    36
}

/// The type word of comment chunks.
pub open spec fn comment_chunk_type() -> u32 {
    0xfffe0001
}

/// The type word of image chunks.
pub open spec fn image_chunk_type() -> u32 {
    0xfffd0002
}

/// The bytes after a chunk's header: a comment's UTF-8 bytes, an image's
/// pixels.
pub open spec fn chunk_payload(c: XcursorChunkModel) -> Seq<u8> {
    match c {
        XcursorChunkModel::Comment { value, .. } => value,
        XcursorChunkModel::Image { pixels, .. } => pixels,
    }
}

/// The number of bytes a chunk takes.
pub open spec fn chunk_size(c: XcursorChunkModel) -> nat {
    match c {
        XcursorChunkModel::Comment { .. } => comment_header_size() + chunk_payload(c).len(),
        XcursorChunkModel::Image { .. } => image_header_size() + chunk_payload(c).len(),
    }
}

/// The type word of a chunk.
pub open spec fn chunk_type(c: XcursorChunkModel) -> u32 {
    match c {
        XcursorChunkModel::Comment { .. } => comment_chunk_type(),
        XcursorChunkModel::Image { .. } => image_chunk_type(),
    }
}

/// The subtype word of a chunk: a comment's kind, an image's nominal size.
pub open spec fn chunk_subtype(c: XcursorChunkModel) -> u32 {
    match c {
        XcursorChunkModel::Comment { kind, .. } => kind.spec_number(),
        XcursorChunkModel::Image { nominal, .. } => nominal,
    }
}

/// The bytes of a chunk.
pub open spec fn chunk_bytes(c: XcursorChunkModel) -> Seq<u8> {
    match c {
        XcursorChunkModel::Comment { kind, value } => le32(20) + le32(comment_chunk_type()) + le32(
            kind.spec_number(),
        ) + le32(1) + le32(chunk_payload(c).len() as u32) + chunk_payload(c),
        XcursorChunkModel::Image { nominal, width, height, hotspot, duration, pixels } => le32(36) + le32(
            image_chunk_type(),
        ) + le32(nominal) + le32(1) + le32(width) + le32(height) + le32(hotspot.x) + le32(hotspot.y)
            + le32(duration) + pixels,
    }
}

/// The total size of a sequence of chunks.
pub open spec fn chunks_size(s: Seq<XcursorChunkModel>) -> nat
    decreases s.len(),
{
    if s.len() == 0 {
        0
    } else {
        chunks_size(s.drop_last()) + chunk_size(s.last())
    }
}

/// Where the chunk numbered `k` of `s` starts in the file.
pub open spec fn chunk_position(s: Seq<XcursorChunkModel>, k: int) -> nat {
    16 + 12 * s.len() + chunks_size(s.take(k))
}

/// The table of contents entries of the first `k` chunks of `s`.
pub open spec fn toc_bytes(s: Seq<XcursorChunkModel>, k: int) -> Seq<u8>
    decreases k,
{
    if k <= 0 {
        Seq::empty()
    } else {
        toc_bytes(s, k - 1) + le32(chunk_type(s[k - 1])) + le32(chunk_subtype(s[k - 1])) + le32(
            chunk_position(s, k - 1) as u32,
        )
    }
}

/// The bytes of a sequence of chunks, one after the other.
pub open spec fn chunks_bytes(s: Seq<XcursorChunkModel>) -> Seq<u8>
    decreases s.len(),
{
    if s.len() == 0 {
        Seq::empty()
    } else {
        chunks_bytes(s.drop_last()) + chunk_bytes(s.last())
    }
}

/// The file header.
pub open spec fn xcursor_header(n: nat) -> Seq<u8> {
    seq![0x58u8, 0x63u8, 0x75u8, 0x72u8] + le32(16) + le32(0x10000) + le32(n as u32)
}

/// The bytes of an Xcursor file of the given chunks.
pub open spec fn xcursor_encoding(s: Seq<XcursorChunkModel>) -> Seq<u8> {
    xcursor_header(s.len()) + toc_bytes(s, s.len() as int) + chunks_bytes(s)
}

/// The chunk of `s` that is too large for its size to be written, the
/// first such, if any.
pub open spec fn first_oversized(s: Seq<XcursorChunkModel>) -> Option<int> {
    if exists|k: int| 0 <= k < s.len() && chunk_size(#[trigger] s[k]) > u32::MAX {
        Some(
            choose|k: int|
                0 <= k < s.len() && chunk_size(#[trigger] s[k]) > u32::MAX && forall|j: int|
                    0 <= j < k ==> chunk_size(#[trigger] s[j]) <= u32::MAX,
        )
    } else {
        None
    }
}

/// Where the chunk after the chunk numbered `k` of `s` starts.
pub open spec fn position_after(s: Seq<XcursorChunkModel>, k: int) -> nat {
    chunk_position(s, k + 1)
}

/// The running positions stay within 32 bits as long as the chunks met so
/// far can be written: what writing needs so as not to overflow.
pub open spec fn positions_fit(s: Seq<XcursorChunkModel>) -> bool {
    &&& 16 + 12 * s.len() <= u32::MAX
    &&& forall|k: int|
        0 <= k < s.len() && (forall|j: int| 0 <= j <= k ==> chunk_size(#[trigger] s[j]) <= u32::MAX)
            ==> #[trigger] position_after(s, k) <= u32::MAX
}

/// Every chunk's payload is no longer than any allocation can be.
pub open spec fn payloads_allocatable(s: Seq<XcursorChunkModel>) -> bool {
    forall|k: int| 0 <= k < s.len() ==> chunk_payload(#[trigger] s[k]).len() <= isize::MAX
}

proof fn lemma_toc_len(s: Seq<XcursorChunkModel>, k: int)
    requires
        0 <= k,
    ensures
        toc_bytes(s, k).len() == 12 * k,
    decreases k,
{
    if k > 0 {
        lemma_toc_len(s, k - 1);
    }
}

/// The bytes written for a chunk number its size: its header, then its
/// payload.
pub proof fn lemma_chunk_bytes_len(c: XcursorChunkModel)
    ensures
        chunk_bytes(c).len() == chunk_size(c),
{
}

/// A comment chunk of the string `s` takes, and writes, 20 bytes of header
/// and then the UTF-8 bytes of `s`.
pub proof fn lemma_comment_chunk_len(kind: XcursorCommentKind, s: String)
    ensures
        chunk_size(chunk_model_of(XcursorChunk::Comment { kind, value: s })) == 20 + vstd::utf8::encode_utf8(
            s@,
        ).len(),
        chunk_bytes(chunk_model_of(XcursorChunk::Comment { kind, value: s })).len() == 20
            + vstd::utf8::encode_utf8(s@).len(),
{
}

proof fn lemma_chunks_bytes_len(s: Seq<XcursorChunkModel>)
    ensures
        chunks_bytes(s).len() == chunks_size(s),
    decreases s.len(),
{
    if s.len() > 0 {
        lemma_chunks_bytes_len(s.drop_last());
    }
}

proof fn lemma_chunks_size_mono(s: Seq<XcursorChunkModel>, k: int)
    requires
        0 <= k <= s.len(),
    ensures
        chunks_size(s.take(k)) <= chunks_size(s),
    decreases s.len() - k,
{
    if k < s.len() {
        lemma_chunks_size_mono(s, k + 1);
        assert(s.take(k + 1).drop_last() =~= s.take(k));
    } else {
        assert(s.take(k) =~= s);
    }
}

/// The bytes of an Xcursor file number 16, then 12 for each chunk, then the
/// sizes of the chunks.
pub proof fn lemma_encoding_len(s: Seq<XcursorChunkModel>)
    ensures
        xcursor_encoding(s).len() == 16 + 12 * s.len() + chunks_size(s),
{
    lemma_toc_len(s, s.len() as int);
    lemma_chunks_bytes_len(s);
}

proof fn lemma_toc_entry(s: Seq<XcursorChunkModel>, n: int, k: int)
    requires
        0 <= k < n,
    ensures
        toc_bytes(s, n).subrange(12 * k, 12 * k + 12) == le32(chunk_type(s[k])) + le32(chunk_subtype(s[k]))
            + le32(chunk_position(s, k) as u32),
    decreases n,
{
    lemma_toc_len(s, n - 1);
    if k < n - 1 {
        lemma_toc_entry(s, n - 1, k);
        assert(toc_bytes(s, n).subrange(12 * k, 12 * k + 12) =~= toc_bytes(s, n - 1).subrange(12 * k, 12 * k + 12));
    } else {
        assert(toc_bytes(s, n).subrange(12 * k, 12 * k + 12) =~= le32(chunk_type(s[k])) + le32(chunk_subtype(s[k]))
            + le32(chunk_position(s, k) as u32));
    }
}

proof fn lemma_chunk_at(s: Seq<XcursorChunkModel>, k: int)
    requires
        0 <= k < s.len(),
    ensures
        chunks_size(s.take(k)) + chunk_size(s[k]) <= chunks_bytes(s).len(),
        chunks_bytes(s).subrange(chunks_size(s.take(k)) as int, (chunks_size(s.take(k)) + chunk_size(s[k])) as int)
            == chunk_bytes(s[k]),
    decreases s.len(),
{
    let prev = s.drop_last();
    lemma_chunks_bytes_len(prev);
    lemma_chunks_bytes_len(s);
    let a = chunks_size(s.take(k)) as int;
    let b = a + chunk_size(s[k]);
    if k == s.len() - 1 {
        assert(s.take(k) =~= prev);
        assert(chunks_bytes(s).subrange(a, b) =~= chunk_bytes(s[k]));
    } else {
        lemma_chunk_at(prev, k);
        assert(prev.take(k) =~= s.take(k));
        assert(prev[k] == s[k]);
        assert(chunks_bytes(s).subrange(a, b) =~= chunks_bytes(prev).subrange(a, b));
    }
}

/// In the bytes of an Xcursor file of the chunks `s`, the table entry of the
/// chunk with index `k` is the 12 bytes at `16 + 12 * k`: the chunk's type,
/// its subtype and its position; and at that position stand the chunk's
/// bytes.
pub proof fn lemma_xcursor_layout(s: Seq<XcursorChunkModel>, k: int)
    requires
        0 <= k < s.len(),
    ensures
        xcursor_encoding(s).subrange(16 + 12 * k, 28 + 12 * k) == le32(chunk_type(s[k])) + le32(
            chunk_subtype(s[k]),
        ) + le32(chunk_position(s, k) as u32),
        chunk_position(s, k) + chunk_size(s[k]) <= xcursor_encoding(s).len(),
        xcursor_encoding(s).subrange(chunk_position(s, k) as int, (chunk_position(s, k) + chunk_size(s[k])) as int)
            == chunk_bytes(s[k]),
{
    let e = xcursor_encoding(s);
    let n = s.len() as int;
    lemma_toc_len(s, n);
    lemma_toc_entry(s, n, k);
    lemma_chunk_at(s, k);
    let h = xcursor_header(s.len());
    assert(h.len() == 16);
    let t = toc_bytes(s, n);
    let c = chunks_bytes(s);
    assert(e =~= h + t + c);
    assert(e.subrange(16 + 12 * k, 28 + 12 * k) =~= t.subrange(12 * k, 12 * k + 12));
    let a = chunks_size(s.take(k)) as int;
    let b = a + chunk_size(s[k]);
    assert(chunk_position(s, k) == 16 + 12 * n + a);
    assert(e.subrange(16 + 12 * n + a, 16 + 12 * n + b) =~= c.subrange(a, b));
}

/// A comment chunk is written with the subtype 1 for a copyright, 2 for a
/// license and 3 for any other comment: in its table entry and in its own
/// header, which starts with 20, the comment type, the subtype, the version
/// 1 and the length of the text.
pub proof fn lemma_comment_subtype(s: Seq<XcursorChunkModel>, k: int)
    requires
        0 <= k < s.len(),
        s[k] is Comment,
    ensures
        ({
            let n: u32 = match s[k]->Comment_kind {
                XcursorCommentKind::Copyright => 1u32,
                XcursorCommentKind::License => 2u32,
                XcursorCommentKind::Other => 3u32,
            };
            let e = xcursor_encoding(s);
            let p = chunk_position(s, k) as int;
            &&& e.subrange(16 + 12 * k, 20 + 12 * k) == le32(0xfffe0001)
            &&& e.subrange(20 + 12 * k, 24 + 12 * k) == le32(n)
            &&& e.subrange(p, p + 4) == le32(20)
            &&& e.subrange(p + 4, p + 8) == le32(0xfffe0001)
            &&& e.subrange(p + 8, p + 12) == le32(n)
            &&& e.subrange(p + 12, p + 16) == le32(1)
            &&& e.subrange(p + 16, p + 20) == le32(s[k]->Comment_value.len() as u32)
            &&& e.subrange(p + 20, p + chunk_size(s[k])) == s[k]->Comment_value
        }),
{
    lemma_xcursor_layout(s, k);
    let e = xcursor_encoding(s);
    let p = chunk_position(s, k) as int;
    let q = p + chunk_size(s[k]);
    let t = e.subrange(16 + 12 * k, 28 + 12 * k);
    let c = e.subrange(p, q);
    assert(e.subrange(16 + 12 * k, 20 + 12 * k) =~= t.subrange(0, 4));
    assert(e.subrange(20 + 12 * k, 24 + 12 * k) =~= t.subrange(4, 8));
    assert(e.subrange(p, p + 4) =~= c.subrange(0, 4));
    assert(e.subrange(p + 4, p + 8) =~= c.subrange(4, 8));
    assert(e.subrange(p + 8, p + 12) =~= c.subrange(8, 12));
    assert(e.subrange(p + 12, p + 16) =~= c.subrange(12, 16));
    assert(e.subrange(p + 16, p + 20) =~= c.subrange(16, 20));
    assert(e.subrange(p + 20, q) =~= c.subrange(20, c.len() as int));
}

/// An image chunk is written with the image type and its nominal size in
/// its table entry, and as its header size 36, the image type, the nominal
/// size, the version 1, the width, the height, the hotspot and the delay,
/// each in its own word in that order, and then the pixels.
pub proof fn lemma_image_chunk_words(s: Seq<XcursorChunkModel>, k: int)
    requires
        0 <= k < s.len(),
        s[k] is Image,
    ensures
        ({
            let e = xcursor_encoding(s);
            let p = chunk_position(s, k) as int;
            &&& e.subrange(16 + 12 * k, 20 + 12 * k) == le32(0xfffd0002)
            &&& e.subrange(20 + 12 * k, 24 + 12 * k) == le32(s[k]->Image_nominal)
            &&& e.subrange(24 + 12 * k, 28 + 12 * k) == le32(p as u32)
            &&& e.subrange(p, p + 4) == le32(36)
            &&& e.subrange(p + 4, p + 8) == le32(0xfffd0002)
            &&& e.subrange(p + 8, p + 12) == le32(s[k]->Image_nominal)
            &&& e.subrange(p + 12, p + 16) == le32(1)
            &&& e.subrange(p + 16, p + 20) == le32(s[k]->Image_width)
            &&& e.subrange(p + 20, p + 24) == le32(s[k]->Image_height)
            &&& e.subrange(p + 24, p + 28) == le32(s[k]->Image_hotspot.x)
            &&& e.subrange(p + 28, p + 32) == le32(s[k]->Image_hotspot.y)
            &&& e.subrange(p + 32, p + 36) == le32(s[k]->Image_duration)
            &&& e.subrange(p + 36, p + chunk_size(s[k])) == s[k]->Image_pixels
        }),
{
    lemma_xcursor_layout(s, k);
    let e = xcursor_encoding(s);
    let p = chunk_position(s, k) as int;
    let q = p + chunk_size(s[k]);
    let t = e.subrange(16 + 12 * k, 28 + 12 * k);
    let c = e.subrange(p, q);
    assert(e.subrange(16 + 12 * k, 20 + 12 * k) =~= t.subrange(0, 4));
    assert(e.subrange(20 + 12 * k, 24 + 12 * k) =~= t.subrange(4, 8));
    assert(e.subrange(24 + 12 * k, 28 + 12 * k) =~= t.subrange(8, 12));
    assert(e.subrange(p, p + 4) =~= c.subrange(0, 4));
    assert(e.subrange(p + 4, p + 8) =~= c.subrange(4, 8));
    assert(e.subrange(p + 8, p + 12) =~= c.subrange(8, 12));
    assert(e.subrange(p + 12, p + 16) =~= c.subrange(12, 16));
    assert(e.subrange(p + 16, p + 20) =~= c.subrange(16, 20));
    assert(e.subrange(p + 20, p + 24) =~= c.subrange(20, 24));
    assert(e.subrange(p + 24, p + 28) =~= c.subrange(24, 28));
    assert(e.subrange(p + 28, p + 32) =~= c.subrange(28, 32));
    assert(e.subrange(p + 32, p + 36) =~= c.subrange(32, 36));
    assert(e.subrange(p + 36, q) =~= c.subrange(36, c.len() as int));
}

/// A file format that a cursor can be written in.
pub trait CursorFile: Sized {
    /// Whether the file can be written without overflowing a position or a
    /// size.
    spec fn writable(&self) -> bool;

    /// The bytes of the file.
    spec fn encoding(&self) -> Seq<u8>;

    /// Returns the size of the file in bytes.
    fn size(&self) -> (n: usize)
        requires
            self.writable(),
            self.encoding().len() <= usize::MAX,
        ensures
            n == self.encoding().len(),
    ;
}

/// Why an Xcursor file could not be written.
#[derive(Debug, Clone, Copy, PartialEq, Eq, Structural)]
pub enum XcursorWriteError {
    /// A chunk is longer than `u32::MAX` bytes.
    ChunkTooLong,
}

/// An Xcursor file.
#[derive(Debug, Clone)]
pub struct XcursorFile {
    chunks: Vec<XcursorChunk>,
}

fn payload_len(c: &XcursorChunk) -> (n: usize)
    ensures
        n == chunk_payload(chunk_model_of(*c)).len(),
{
    match c {
        XcursorChunk::Comment { value, .. } => value.as_str().as_bytes().len(),
        XcursorChunk::Image { pixels, .. } => pixels.len(),
    }
}

proof fn lemma_chunks_size_take(s: Seq<XcursorChunkModel>, k: int)
    requires
        0 <= k < s.len(),
    ensures
        chunks_size(s.take(k + 1)) == chunks_size(s.take(k)) + chunk_size(s[k]),
        chunks_bytes(s.take(k + 1)) == chunks_bytes(s.take(k)) + chunk_bytes(s[k]),
{
    assert(s.take(k + 1).drop_last() =~= s.take(k));
}

/// Writes one chunk.
fn write_chunk(out: &mut Vec<u8>, c: &XcursorChunk)
    requires
        chunk_payload(chunk_model_of(*c)).len() <= u32::MAX,
    ensures
        final(out)@ == old(out)@ + chunk_bytes(chunk_model_of(*c)),
{
    match c {
        XcursorChunk::Comment { kind, value } => {
            let bytes = value.as_str().as_bytes();
            push_le32(out, 20);
            push_le32(out, 0xfffe0001);
            push_le32(out, kind.number());
            push_le32(out, 1);
            push_le32(out, bytes.len() as u32);
            push_all(out, bytes);
        },
        XcursorChunk::Image { nominal, width, height, hotspot, duration, pixels } => {
            push_le32(out, 36);
            push_le32(out, 0xfffd0002);
            push_le32(out, *nominal);
            push_le32(out, 1);
            push_le32(out, *width);
            push_le32(out, *height);
            push_le32(out, hotspot.x);
            push_le32(out, hotspot.y);
            push_le32(out, *duration);
            push_all(out, pixels.as_slice());
        },
    }
    assert(out@ =~= old(out)@ + chunk_bytes(chunk_model_of(*c)));
}

/// Whether chunks can be written: `.0` whether their positions fit in 32
/// bits and their payloads can be allocated, and, where they can, `.1`
/// whether no chunk is too large for its size to be written.
pub(crate) fn chunks_check(chunks: &Vec<XcursorChunk>) -> (r: (bool, bool))
    ensures
        r.0 == (positions_fit(chunk_models(chunks@)) && payloads_allocatable(chunk_models(chunks@))),
        r.0 ==> (r.1 == (first_oversized(chunk_models(chunks@)) is None)),
{
    let ghost s = chunk_models(chunks@);
    let n = chunks.len();
    if n > 357913939 {
        assert(16 + 12 * s.len() > u32::MAX);
        return (false, false);
    }
    let mut pos: u64 = 16 + 12 * (n as u64);
    assert(s.take(0) =~= Seq::<XcursorChunkModel>::empty());
    let mut all_fit = true;
    let ghost mut bad: int = 0;
    let mut i: usize = 0;
    while i < n
        invariant
            s == chunk_models(chunks@),
            n == s.len(),
            16 + 12 * n <= u32::MAX,
            i <= n,
            forall|j: int| 0 <= j < i ==> chunk_payload(#[trigger] s[j]).len() <= isize::MAX,
            all_fit == (forall|j: int| 0 <= j < i ==> chunk_size(#[trigger] s[j]) <= u32::MAX),
            all_fit ==> pos == chunk_position(s, i as int) && pos <= u32::MAX,
            !all_fit ==> 0 <= bad < i && chunk_size(s[bad]) > u32::MAX,
            forall|k: int|
                0 <= k < i && (forall|j: int| 0 <= j <= k ==> chunk_size(#[trigger] s[j]) <= u32::MAX)
                    ==> #[trigger] position_after(s, k) <= u32::MAX,
        decreases n - i,
    {
        let c = &chunks[i];
        let len = payload_len(c);
        if len > isize::MAX as usize {
            assert(chunk_payload(s[i as int]).len() > isize::MAX);
            return (false, false);
        }
        let header: u64 = match c {
            XcursorChunk::Comment { .. } => 20,
            XcursorChunk::Image { .. } => 36,
        };
        let size = header + len as u64;
        assert(size == chunk_size(s[i as int]));
        proof {
            lemma_chunks_size_take(s, i as int);
        }
        if all_fit {
            if size > 0xffff_ffff {
                all_fit = false;
                proof {
                    bad = i as int;
                }
            } else {
                pos = pos + size;
                if pos > 0xffff_ffff {
                    assert(position_after(s, i as int) > u32::MAX);
                    return (false, false);
                }
            }
        }
        i = i + 1;
    }
    proof {
        if all_fit {
            assert(forall|k: int| 0 <= k < s.len() ==> chunk_size(#[trigger] s[k]) <= u32::MAX);
        } else {
            assert(chunk_size(s[bad]) > u32::MAX);
        }
    }
    (true, all_fit)
}

/// Writes an Xcursor file of the given chunks to `out`.
///
/// Fails with `ChunkTooLong` when a chunk is longer than `u32::MAX`
/// bytes; what was written before it (the header and the table entries
/// of the chunks before it) stays in `out`.
pub(crate) fn write_chunks(chunks: &Vec<XcursorChunk>, out: &mut Vec<u8>) -> (r: Result<(), XcursorWriteError>)
    requires
        positions_fit(chunk_models(chunks@)),
        payloads_allocatable(chunk_models(chunks@)),
    ensures
        match first_oversized(chunk_models(chunks@)) {
            None => r is Ok && final(out)@ == old(out)@ + xcursor_encoding(chunk_models(chunks@)),
            Some(k) => r is Err && final(out)@ == old(out)@ + xcursor_header(
                chunk_models(chunks@).len(),
            ) + toc_bytes(chunk_models(chunks@), k),
        },
{
    let ghost s = chunk_models(chunks@);
    let n = chunks.len();
    push_all(out, &[0x58u8, 0x63, 0x75, 0x72]);
    push_le32(out, 16);
    push_le32(out, 0x10000);
    push_le32(out, n as u32);
    let ghost start = old(out)@ + xcursor_header(s.len());
    assert(out@ =~= start);
    let mut data_pos: u32 = 16 + 12 * (n as u32);
    let mut i: usize = 0;
    while i < n
        invariant
            n == s.len(),
            s == chunk_models(chunks@),
            positions_fit(s),
            payloads_allocatable(s),
            i <= n,
            forall|j: int| 0 <= j < i ==> chunk_size(#[trigger] s[j]) <= u32::MAX,
            data_pos == chunk_position(s, i as int),
            start == old(out)@ + xcursor_header(s.len()),
            out@ == start + toc_bytes(s, i as int),
        decreases n - i,
    {
        let c = &chunks[i];
        let (ctype, csub, header) = match c {
            XcursorChunk::Comment { kind, .. } => (0xfffe0001u32, kind.number(), 20usize),
            XcursorChunk::Image { nominal, .. } => (0xfffd0002u32, *nominal, 36usize),
        };
        let len = payload_len(c);
        if len > 4294967295usize - header {
            proof {
                assert(chunk_size(s[i as int]) > u32::MAX);
                assert(0 <= i < s.len() && chunk_size(s[i as int]) > u32::MAX && forall|j: int|
                    0 <= j < i ==> chunk_size(#[trigger] s[j]) <= u32::MAX);
                let k = choose|k: int|
                    0 <= k < s.len() && chunk_size(#[trigger] s[k]) > u32::MAX && forall|j: int|
                        0 <= j < k ==> chunk_size(#[trigger] s[j]) <= u32::MAX;
                if k < i {
                    assert(chunk_size(s[k]) <= u32::MAX);
                } else if k > i {
                    assert(chunk_size(s[i as int]) <= u32::MAX);
                }
                assert(first_oversized(s) == Some(i as int));
            }
            return Err(XcursorWriteError::ChunkTooLong);
        }
        let size = header + len;
        push_le32(out, ctype);
        push_le32(out, csub);
        push_le32(out, data_pos);
        proof {
            assert(out@ =~= start + toc_bytes(s, i + 1));
            lemma_chunks_size_take(s, i as int);
            assert(chunk_size(s[i as int]) == size);
            assert(position_after(s, i as int) <= u32::MAX);
        }
        data_pos = data_pos + size as u32;
        i = i + 1;
    }
    proof {
        assert(first_oversized(s) is None);
    }
    let ghost mid = out@;
    let mut k: usize = 0;
    while k < n
        invariant
            n == s.len(),
            s == chunk_models(chunks@),
            forall|j: int| 0 <= j < n ==> chunk_size(#[trigger] s[j]) <= u32::MAX,
            k <= n,
            start == old(out)@ + xcursor_header(s.len()),
            mid == start + toc_bytes(s, n as int),
            out@ == mid + chunks_bytes(s.take(k as int)),
        decreases n - k,
    {
        let c = &chunks[k];
        proof {
            assert(chunk_size(s[k as int]) <= u32::MAX);
            lemma_chunks_size_take(s, k as int);
        }
        write_chunk(out, c);
        k = k + 1;
    }
    proof {
        assert(s.take(n as int) =~= s);
    }
    Ok(())
}

impl XcursorFile {
    /// The chunks of the file.
    pub closed spec fn spec_chunks(&self) -> Seq<XcursorChunk> {
        self.chunks@
    }

    /// Constructs a new `XcursorFile`. There must be at least one chunk,
    /// and no more than `u32::MAX`.
    pub fn new(chunks: Vec<XcursorChunk>) -> (f: Self)
        requires
            chunks@.len() > 0,
            chunks@.len() <= u32::MAX,
        ensures
            f.spec_chunks() == chunks@,
    {
        XcursorFile { chunks }
    }

    /// Writes the file to `out`.
    ///
    /// Fails with `ChunkTooLong` when a chunk is longer than `u32::MAX`
    /// bytes; what was written before it (the header and the table entries
    /// of the chunks before it) stays in `out`.
    pub fn write(self, out: &mut Vec<u8>) -> (r: Result<(), XcursorWriteError>)
        requires
            positions_fit(chunk_models(self.spec_chunks())),
            payloads_allocatable(chunk_models(self.spec_chunks())),
        ensures
            match first_oversized(chunk_models(self.spec_chunks())) {
                None => r is Ok && final(out)@ == old(out)@ + xcursor_encoding(chunk_models(self.spec_chunks())),
                Some(k) => r is Err && final(out)@ == old(out)@ + xcursor_header(
                    self.spec_chunks().len(),
                ) + toc_bytes(chunk_models(self.spec_chunks()), k),
            },
    {
        write_chunks(&self.chunks, out)
    }
}

impl CursorFile for XcursorFile {
    open spec fn writable(&self) -> bool {
        payloads_allocatable(chunk_models(self.spec_chunks()))
    }

    open spec fn encoding(&self) -> Seq<u8> {
        xcursor_encoding(chunk_models(self.spec_chunks()))
    }

    fn size(&self) -> (n: usize) {
        let ghost s = chunk_models(self.chunks@);
        proof {
            lemma_encoding_len(s);
        }
        let n = self.chunks.len();
        let mut acc: usize = 16;
        let mut i: usize = 0;
        while i < n
            invariant
                n == s.len(),
                s == chunk_models(self.chunks@),
                payloads_allocatable(s),
                16 + 12 * n + chunks_size(s) <= usize::MAX,
                i <= n,
                acc == 16 + 12 * i + chunks_size(s.take(i as int)),
            decreases n - i,
        {
            let c = &self.chunks[i];
            let header: usize = match c {
                XcursorChunk::Comment { .. } => 20,
                XcursorChunk::Image { .. } => 36,
            };
            let len = payload_len(c);
            proof {
                lemma_chunks_size_take(s, i as int);
                lemma_chunks_size_mono(s, i + 1);
            }
            acc = acc + 12 + header + len;
            i = i + 1;
        }
        proof {
            assert(s.take(n as int) =~= s);
        }
        acc
    }
}

/// What a comment chunk holds, as the chunk-by-chunk writer names it.
#[derive(Debug, Clone, Copy, PartialEq, Eq, Structural)]
pub enum XcursorCommentSubtype {
    Copyright,
    License,
    Other,
}

/// A comment chunk, built on its own.
#[derive(Debug, Clone)]
pub struct XcursorCommentChunk {
    subtype: XcursorCommentSubtype,
    string: String,
}

impl XcursorCommentChunk {
    /// The chunk this comment is.
    pub closed spec fn spec_chunk(&self) -> XcursorChunk {
        XcursorChunk::Comment {
            kind: match self.subtype {
                XcursorCommentSubtype::Copyright => XcursorCommentKind::Copyright,
                XcursorCommentSubtype::License => XcursorCommentKind::License,
                XcursorCommentSubtype::Other => XcursorCommentKind::Other,
            },
            value: self.string,
        }
    }

    /// Creates a new `XcursorCommentChunk`. The string must be no longer
    /// than `u32::MAX` bytes.
    pub fn new(subtype: XcursorCommentSubtype, string: String) -> (c: Self)
        requires
            vstd::utf8::encode_utf8(string@).len() <= u32::MAX,
        ensures
            c.spec_chunk() == (XcursorChunk::Comment {
                kind: match subtype {
                    XcursorCommentSubtype::Copyright => XcursorCommentKind::Copyright,
                    XcursorCommentSubtype::License => XcursorCommentKind::License,
                    XcursorCommentSubtype::Other => XcursorCommentKind::Other,
                },
                value: string,
            }),
    {
        XcursorCommentChunk { subtype, string }
    }

    /// Returns the formatted data size in bytes.
    pub fn size(&self) -> (n: usize)
        requires
            chunk_size(chunk_model_of(self.spec_chunk())) <= usize::MAX,
        ensures
            n == chunk_size(chunk_model_of(self.spec_chunk())),
    {
        20 + self.string.as_str().as_bytes().len()
    }

    /// The chunk this comment is, for a file of chunks.
    pub fn into_chunk(self) -> (c: XcursorChunk)
        ensures
            c == self.spec_chunk(),
    {
        let kind = match self.subtype {
            XcursorCommentSubtype::Copyright => XcursorCommentKind::Copyright,
            XcursorCommentSubtype::License => XcursorCommentKind::License,
            XcursorCommentSubtype::Other => XcursorCommentKind::Other,
        };
        XcursorChunk::Comment { kind, value: self.string }
    }
}

/// An image chunk, built on its own.
#[derive(Debug, Clone)]
pub struct XcursorImageChunk {
    nominal: u32,
    width: u32,
    height: u32,
    hotspot_x: u32,
    hotspot_y: u32,
    delay: Option<u32>,
    pixels: Vec<u8>,
}

impl XcursorImageChunk {
    /// The chunk this image is; no delay is written as 0.
    pub closed spec fn spec_chunk(&self) -> XcursorChunk {
        XcursorChunk::Image {
            nominal: self.nominal,
            width: self.width,
            height: self.height,
            hotspot: Point { x: self.hotspot_x, y: self.hotspot_y },
            duration: match self.delay {
                Some(d) => d,
                None => 0,
            },
            pixels: self.pixels,
        }
    }

    /// Creates a new `XcursorImageChunk`. The width and height must not be
    /// zero, and the hotspot must lie within them.
    pub fn new(
        nominal: u32,
        width: u32,
        height: u32,
        hotspot_x: u32,
        hotspot_y: u32,
        delay: Option<u32>,
        pixels: Vec<u8>,
    ) -> (c: Self)
        requires
            width != 0,
            height != 0,
            hotspot_x <= width,
            hotspot_y <= height,
        ensures
            c.spec_chunk() == (XcursorChunk::Image {
                nominal,
                width,
                height,
                hotspot: Point { x: hotspot_x, y: hotspot_y },
                duration: match delay {
                    Some(d) => d,
                    None => 0,
                },
                pixels,
            }),
    {
        XcursorImageChunk { nominal, width, height, hotspot_x, hotspot_y, delay, pixels }
    }

    /// Returns the formatted data size in bytes.
    pub fn size(&self) -> (n: usize)
        requires
            chunk_size(chunk_model_of(self.spec_chunk())) <= usize::MAX,
        ensures
            n == chunk_size(chunk_model_of(self.spec_chunk())),
    {
        36 + self.pixels.len()
    }

    /// The chunk this image is, for a file of chunks.
    pub fn into_chunk(self) -> (c: XcursorChunk)
        ensures
            c == self.spec_chunk(),
    {
        let duration = match self.delay {
            Some(d) => d,
            None => 0,
        };
        XcursorChunk::Image {
            nominal: self.nominal,
            width: self.width,
            height: self.height,
            hotspot: Point { x: self.hotspot_x, y: self.hotspot_y },
            duration,
            pixels: self.pixels,
        }
    }
}

} // verus!
