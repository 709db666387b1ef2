//! Writing a cursor as an Xcursor file: one image chunk for each image of
//! each frame, in order.

use super::duration::CursorDuration;
use super::model::{Cursor, CursorFrame, CursorImage};
use crate::formats::cursors::xcursor::{
    chunk_model_of, chunk_models, chunk_position, chunk_size, chunks_check, first_oversized, lemma_image_chunk_words,
    payloads_allocatable, positions_fit, toc_bytes, write_chunks, xcursor_encoding, xcursor_header, XcursorChunk, XcursorChunkModel,
    XcursorFile, XcursorWriteError,
};
use crate::bytes::le32;
use crate::formats::rgba::bgra_bytes;
use crate::point::Point;
use vstd::prelude::*;

verus! {

/// The chunk of an image of a frame shown for `duration` (0 where none is
/// given): its BGRA pixels with the image's size, nominal size and hotspot.
pub open spec fn image_chunk_model(img: CursorImage, duration: Option<CursorDuration>) -> XcursorChunkModel {
    XcursorChunkModel::Image {
        nominal: img.nominal,
        width: img.raster.spec_width(),
        height: img.raster.spec_height(),
        hotspot: Point { x: img.hotspot.x, y: img.hotspot.y },
        duration: match duration {
            Some(d) => d.spec_milliseconds(),
            None => 0,
        },
        pixels: bgra_bytes(img.raster.spec_pixels()),
    }
}

/// The chunks of a frame.
pub open spec fn frame_chunk_models(f: CursorFrame) -> Seq<XcursorChunkModel> {
    f.images@.map_values(|img: CursorImage| image_chunk_model(img, f.duration))
}

/// The chunks of a sequence of frames, frame after frame.
pub open spec fn cursor_chunk_models(frames: Seq<CursorFrame>) -> Seq<XcursorChunkModel>
    decreases frames.len(),
{
    if frames.len() == 0 {
        Seq::empty()
    } else {
        cursor_chunk_models(frames.drop_last()) + frame_chunk_models(frames.last())
    }
}

proof fn lemma_image_chunk_index(frames: Seq<CursorFrame>, i: int, k: int)
    requires
        0 <= i < frames.len(),
        0 <= k < frames[i].images@.len(),
    ensures
        cursor_chunk_models(frames.take(i)).len() + k < cursor_chunk_models(frames).len(),
        cursor_chunk_models(frames)[cursor_chunk_models(frames.take(i)).len() + k] == image_chunk_model(
            frames[i].images@[k],
            frames[i].duration,
        ),
    decreases frames.len(),
{
    let prev = frames.drop_last();
    let before = cursor_chunk_models(prev);
    let j = cursor_chunk_models(frames.take(i)).len() + k;
    if i == frames.len() - 1 {
        assert(frames.take(i) =~= prev);
        assert(cursor_chunk_models(frames)[j] == frame_chunk_models(frames.last())[k]);
    } else {
        lemma_image_chunk_index(prev, i, k);
        assert(prev.take(i) =~= frames.take(i));
        assert(prev[i] == frames[i]);
        assert(cursor_chunk_models(frames)[j] == before[j]);
    }
}

/// In the Xcursor file of a cursor, the image with index `k` of the frame
/// with index `i` has the chunk with index `j`, the number of images of
/// the frames before it plus `k`. Its table entry holds the image type and
/// the image's nominal size; its chunk holds the header size 36, the image
/// type, the nominal size, the version 1, the raster's width, the raster's
/// height, the hotspot, the frame's duration in milliseconds (0 where it
/// has none), and then the raster's pixels, BGRA, in row order.
pub proof fn lemma_xcursor_image_chunk(frames: Seq<CursorFrame>, i: int, k: int)
    requires
        0 <= i < frames.len(),
        0 <= k < frames[i].images@.len(),
    ensures
        ({
            let s = cursor_chunk_models(frames);
            let j = cursor_chunk_models(frames.take(i)).len() + k;
            let img = frames[i].images@[k];
            let e = xcursor_encoding(s);
            let p = chunk_position(s, j) as int;
            &&& j < s.len()
            &&& e.subrange(16 + 12 * j, 20 + 12 * j) == le32(0xfffd0002)
            &&& e.subrange(20 + 12 * j, 24 + 12 * j) == le32(img.nominal)
            &&& e.subrange(24 + 12 * j, 28 + 12 * j) == le32(p as u32)
            &&& e.subrange(p, p + 4) == le32(36)
            &&& e.subrange(p + 4, p + 8) == le32(0xfffd0002)
            &&& e.subrange(p + 8, p + 12) == le32(img.nominal)
            &&& e.subrange(p + 12, p + 16) == le32(1)
            &&& e.subrange(p + 16, p + 20) == le32(img.raster.spec_width())
            &&& e.subrange(p + 20, p + 24) == le32(img.raster.spec_height())
            &&& e.subrange(p + 24, p + 28) == le32(img.hotspot.x)
            &&& e.subrange(p + 28, p + 32) == le32(img.hotspot.y)
            &&& e.subrange(p + 32, p + 36) == le32(
                match frames[i].duration {
                    Some(d) => d.spec_milliseconds(),
                    None => 0,
                },
            )
            &&& e.subrange(p + 36, p + chunk_size(s[j])) == bgra_bytes(img.raster.spec_pixels())
        }),
{
    lemma_image_chunk_index(frames, i, k);
    let s = cursor_chunk_models(frames);
    let j = cursor_chunk_models(frames.take(i)).len() + k;
    lemma_image_chunk_words(s, j);
}

/// The image chunks of a cursor's frames, frame after frame.
fn cursor_chunks(frames: &Vec<CursorFrame>) -> (chunks: Vec<XcursorChunk>)
    ensures
        chunk_models(chunks@) == cursor_chunk_models(frames@),
{
    let mut chunks: Vec<XcursorChunk> = Vec::new();
    let mut i: usize = 0;
    while i < frames.len()
        invariant
            i <= frames@.len(),
            chunk_models(chunks@) == cursor_chunk_models(frames@.take(i as int)),
        decreases frames@.len() - i,
    {
        let frame = &frames[i];
        let duration = match frame.duration {
            Some(d) => d.milliseconds(),
            None => 0,
        };
        let ghost before = chunks@;
        let mut k: usize = 0;
        while k < frame.images.len()
            invariant
                k <= frame.images@.len(),
                chunk_models(chunks@) == chunk_models(before) + frame_chunk_models(*frame).take(k as int),
                duration == match frame.duration {
                    Some(d) => d.spec_milliseconds(),
                    None => 0,
                },
            decreases frame.images@.len() - k,
        {
            let image = &frame.images[k];
            let pixels = image.raster.to_bgra();
            let chunk = XcursorChunk::Image {
                nominal: image.nominal,
                width: image.raster.width(),
                height: image.raster.height(),
                hotspot: Point { x: image.hotspot.x, y: image.hotspot.y },
                duration,
                pixels,
            };
            let ghost mid = chunks@;
            chunks.push(chunk);
            proof {
                assert(chunk_models(chunks@) =~= chunk_models(mid).push(chunk_model_of(chunk)));
                assert(frame_chunk_models(*frame).take(k + 1) =~= frame_chunk_models(*frame).take(
                    k as int,
                ).push(image_chunk_model(*image, frame.duration)));
                assert(chunk_models(chunks@) =~= chunk_models(before) + frame_chunk_models(*frame).take(
                    k + 1,
                ));
            }
            k = k + 1;
        }
        proof {
            assert(frame_chunk_models(*frame).take(frame.images@.len() as int) =~= frame_chunk_models(*frame));
            assert(frames@.take(i + 1).drop_last() =~= frames@.take(i as int));
        }
        i = i + 1;
    }
    proof {
        assert(frames@.take(frames@.len() as int) =~= frames@);
    }
    chunks
}

/// An Xcursor view of a cursor.
pub struct XCursor<'c>(pub &'c Cursor);

impl<'c> XCursor<'c> {
    /// Writes an Xcursor file of the cursor to `out`.
    ///
    /// Each image must be small enough for its chunk's size to be written,
    /// and the chunk positions must fit in 32 bits.
    pub fn write(self, out: &mut Vec<u8>)
        requires
            positions_fit(cursor_chunk_models(self.0.frames@)),
            payloads_allocatable(cursor_chunk_models(self.0.frames@)),
            first_oversized(cursor_chunk_models(self.0.frames@)) is None,
        ensures
            final(out)@ == old(out)@ + xcursor_encoding(cursor_chunk_models(self.0.frames@)),
    {
        let chunks = cursor_chunks(&self.0.frames);
        let _ = write_chunks(&chunks, out);
    }

    /// Writes an Xcursor file of the cursor to `out`, as [`write`] does,
    /// where every chunk's size and position fit in 32 bits; where they do
    /// not, `out` stays as it is and `false` comes back.
    ///
    /// [`write`]: Self::write
    pub fn try_write(self, out: &mut Vec<u8>) -> (written: bool)
        ensures
            written == (positions_fit(cursor_chunk_models(self.0.frames@)) && payloads_allocatable(
                cursor_chunk_models(self.0.frames@),
            ) && first_oversized(cursor_chunk_models(self.0.frames@)) is None),
            written ==> final(out)@ == old(out)@ + xcursor_encoding(cursor_chunk_models(self.0.frames@)),
            !written ==> final(out)@ == old(out)@,
    {
        let chunks = cursor_chunks(&self.0.frames);
        let (fits, small) = chunks_check(&chunks);
        if fits && small {
            let _ = write_chunks(&chunks, out);
            true
        } else {
            false
        }
    }
}

/// An X11 view of a cursor, written through an `XcursorFile`.
pub struct X11Cursor<'c>(pub &'c Cursor);

impl<'c> X11Cursor<'c> {
    /// Writes an Xcursor file of the cursor's images to `out`, frame after
    /// frame. The cursor must have at least one image, and no more than
    /// `u32::MAX`, and the chunk positions must fit in 32 bits.
    ///
    /// Fails with `ChunkTooLong` where an image's chunk is longer than
    /// `u32::MAX` bytes; what was written before it (the header and the
    /// table entries of the chunks before it) stays in `out`.
    pub fn write(self, out: &mut Vec<u8>) -> (r: Result<(), XcursorWriteError>)
        requires
            0 < cursor_chunk_models(self.0.frames@).len() <= u32::MAX,
            positions_fit(cursor_chunk_models(self.0.frames@)),
            payloads_allocatable(cursor_chunk_models(self.0.frames@)),
        ensures
            match first_oversized(cursor_chunk_models(self.0.frames@)) {
                None => r is Ok && final(out)@ == old(out)@ + xcursor_encoding(
                    cursor_chunk_models(self.0.frames@),
                ),
                Some(k) => r is Err && final(out)@ == old(out)@ + xcursor_header(
                    cursor_chunk_models(self.0.frames@).len(),
                ) + toc_bytes(cursor_chunk_models(self.0.frames@), k),
            },
    {
        let chunks = cursor_chunks(&self.0.frames);
        XcursorFile::new(chunks).write(out)
    }

    /// Writes the cursor as [`write`] does, where it has at least one image
    /// and no more than `u32::MAX`, and its chunk positions fit in 32 bits;
    /// `None`, with `out` as it was, where it does not.
    ///
    /// [`write`]: Self::write
    pub fn try_write(self, out: &mut Vec<u8>) -> (r: Option<Result<(), XcursorWriteError>>)
        ensures
            r is None <==> !(0 < cursor_chunk_models(self.0.frames@).len() <= u32::MAX && positions_fit(
                cursor_chunk_models(self.0.frames@),
            ) && payloads_allocatable(cursor_chunk_models(self.0.frames@))),
            r is None ==> final(out)@ == old(out)@,
            r matches Some(w) ==> match first_oversized(cursor_chunk_models(self.0.frames@)) {
                None => w is Ok && final(out)@ == old(out)@ + xcursor_encoding(
                    cursor_chunk_models(self.0.frames@),
                ),
                Some(k) => w is Err && final(out)@ == old(out)@ + xcursor_header(
                    cursor_chunk_models(self.0.frames@).len(),
                ) + toc_bytes(cursor_chunk_models(self.0.frames@), k),
            },
    {
        let chunks = cursor_chunks(&self.0.frames);
        let n = chunks.len();
        let (fits, _) = chunks_check(&chunks);
        if n == 0 || n > 0xffff_ffff || !fits {
            return None;
        }
        Some(XcursorFile::new(chunks).write(out))
    }
}

} // verus!
