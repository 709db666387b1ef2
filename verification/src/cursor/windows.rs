//! Writing a cursor in the Windows formats: a CUR file for a static cursor,
//! an ANI file (a RIFF form of CUR files) for an animated one. Each image is
//! stored as an uncompressed RGBA PNG file.

use super::model::{Cursor, CursorFrame, CursorImage};
use crate::bytes::{le16, le32, push_all, push_le16, push_le32};
use crate::formats::cursors::ani::{lemma_le32_all_at, lemma_le32_all_len, le32_all};
use crate::formats::raster::error::RasterError;
use crate::formats::raster::png::png_encoding;
use crate::formats::rgba::rgba_bytes;
use vstd::prelude::*;

verus! {

/// The PNG file of an image, where the encoder makes one.
pub open spec fn png_of(img: CursorImage) -> Option<Seq<u8>> {
    png_encoding(
        img.raster.spec_width(),
        img.raster.spec_height(),
        6,
        false,
        None,
        None,
        rgba_bytes(img.raster.spec_pixels()),
    )
}

/// The PNG file of an image, read where it exists.
pub open spec fn png_bytes(img: CursorImage) -> Seq<u8> {
    png_of(img).unwrap()
}

/// The number of bytes of the PNG files of the first `k` images.
pub open spec fn pngs_len(images: Seq<CursorImage>, k: int) -> nat
    decreases k,
{
    if k <= 0 {
        0
    } else {
        pngs_len(images, k - 1) + png_bytes(images[k - 1]).len()
    }
}

/// Where the data of image `k` starts in a CUR file of `images`.
pub open spec fn cur_offset(images: Seq<CursorImage>, k: int) -> nat {
    6 + 16 * images.len() + pngs_len(images, k)
}

/// A nominal size as a directory entry holds it: `0` above 255.
pub open spec fn nominal_byte(n: u32) -> u8 {
    if n > 255 {
        0
    } else {
        n as u8
    }
}

/// The directory entry of image `k`.
pub open spec fn cur_entry(images: Seq<CursorImage>, k: int) -> Seq<u8> {
    let img = images[k];
    seq![nominal_byte(img.nominal), nominal_byte(img.nominal), 0u8, 0u8] + le16(img.hotspot.x as u16) + le16(
        img.hotspot.y as u16,
    ) + le32(png_bytes(img).len() as u32) + le32(cur_offset(images, k) as u32)
}

/// The directory entries of the first `k` images.
pub open spec fn cur_entries(images: Seq<CursorImage>, k: int) -> Seq<u8>
    decreases k,
{
    if k <= 0 {
        Seq::empty()
    } else {
        cur_entries(images, k - 1) + cur_entry(images, k - 1)
    }
}

/// The PNG files of the first `k` images, one after the other.
pub open spec fn cur_data(images: Seq<CursorImage>, k: int) -> Seq<u8>
    decreases k,
{
    if k <= 0 {
        Seq::empty()
    } else {
        cur_data(images, k - 1) + png_bytes(images[k - 1])
    }
}

/// The bytes of a CUR file of `images`: the header, the entries, the data.
pub open spec fn cur_bytes(images: Seq<CursorImage>) -> Seq<u8> {
    le16(0) + le16(2) + le16(images.len() as u16) + cur_entries(images, images.len() as int) + cur_data(
        images,
        images.len() as int,
    )
}

/// Every image of `images` is encoded.
pub open spec fn all_encoded(images: Seq<CursorImage>) -> bool {
    forall|k: int| 0 <= k < images.len() ==> (#[trigger] png_of(images[k])) is Some
}

/// The images up to `k` are encoded.
pub open spec fn encoded_through(images: Seq<CursorImage>, k: int) -> bool {
    forall|j: int| 0 <= j <= k ==> (#[trigger] png_of(images[j])) is Some
}

/// The data positions stay within 32 bits as long as the images met so far
/// are encoded: what writing needs so as not to overflow.
pub open spec fn cur_offsets_fit(images: Seq<CursorImage>) -> bool {
    &&& 6 + 16 * images.len() <= u32::MAX
    &&& forall|k: int|
        0 <= k < images.len() && encoded_through(images, k) ==> #[trigger] cur_offset(images, k + 1)
            <= u32::MAX
}

/// What writing a frame as a CUR file gives: the file, where the encoder
/// takes every image; nothing where it refuses one.
pub open spec fn cur_result(images: Seq<CursorImage>) -> Option<Seq<u8>> {
    if all_encoded(images) {
        Some(cur_bytes(images))
    } else {
        None
    }
}

proof fn lemma_cur_entries_at(images: Seq<CursorImage>, m: int, k: int)
    requires
        0 <= k < m <= images.len(),
    ensures
        cur_entries(images, m).len() == 16 * m,
        cur_entries(images, m).subrange(16 * k, 16 * k + 16) == cur_entry(images, k),
    decreases m,
{
    if k < m - 1 {
        lemma_cur_entries_at(images, m - 1, k);
        assert(cur_entries(images, m).subrange(16 * k, 16 * k + 16) =~= cur_entries(images, m - 1).subrange(
            16 * k,
            16 * k + 16,
        ));
    } else {
        lemma_cur_entries_len(images, m - 1);
        assert(cur_entries(images, m).subrange(16 * k, 16 * k + 16) =~= cur_entry(images, k));
    }
}

proof fn lemma_cur_data_at(images: Seq<CursorImage>, m: int, k: int)
    requires
        0 <= k < m <= images.len(),
    ensures
        cur_data(images, m).len() == pngs_len(images, m),
        pngs_len(images, k) + png_bytes(images[k]).len() <= pngs_len(images, m),
        cur_data(images, m).subrange(
            pngs_len(images, k) as int,
            (pngs_len(images, k) + png_bytes(images[k]).len()) as int,
        ) == png_bytes(images[k]),
    decreases m,
{
    lemma_cur_entries_len(images, m - 1);
    if k < m - 1 {
        lemma_cur_data_at(images, m - 1, k);
        assert(cur_data(images, m).subrange(
            pngs_len(images, k) as int,
            (pngs_len(images, k) + png_bytes(images[k]).len()) as int,
        ) =~= cur_data(images, m - 1).subrange(
            pngs_len(images, k) as int,
            (pngs_len(images, k) + png_bytes(images[k]).len()) as int,
        ));
    } else {
        assert(cur_data(images, m).subrange(
            pngs_len(images, k) as int,
            (pngs_len(images, k) + png_bytes(images[k]).len()) as int,
        ) =~= png_bytes(images[k]));
    }
}

/// In a CUR file of `images`, the directory entry of the image with index
/// `k` is the 16 bytes at `6 + 16 * k`: the nominal size as width and as
/// height (0 above 255), two zeros, the hotspot's `x` and then its `y`, the
/// length of the image's PNG file and its offset; and at that offset stands
/// the image's PNG file.
pub proof fn lemma_cur_bytes_layout(images: Seq<CursorImage>, k: int)
    requires
        0 <= k < images.len(),
    ensures
        ({
            let s = cur_bytes(images);
            let img = images[k];
            let size: u8 = if img.nominal > 255 { 0u8 } else { img.nominal as u8 };
            let o = cur_offset(images, k) as int;
            let png = png_bytes(img);
            &&& s.subrange(0, 2) == le16(0)
            &&& s.subrange(2, 4) == le16(2)
            &&& s.subrange(4, 6) == le16(images.len() as u16)
            &&& s[6 + 16 * k] == size
            &&& s[7 + 16 * k] == size
            &&& s[8 + 16 * k] == 0
            &&& s[9 + 16 * k] == 0
            &&& s.subrange(10 + 16 * k, 12 + 16 * k) == le16(img.hotspot.x as u16)
            &&& s.subrange(12 + 16 * k, 14 + 16 * k) == le16(img.hotspot.y as u16)
            &&& s.subrange(14 + 16 * k, 18 + 16 * k) == le32(png.len() as u32)
            &&& s.subrange(18 + 16 * k, 22 + 16 * k) == le32(o as u32)
            &&& o + png.len() <= s.len()
            &&& s.subrange(o, o + png.len()) == png
        }),
{
    let n = images.len() as int;
    let s = cur_bytes(images);
    let h = le16(0) + le16(2) + le16(n as u16);
    let t = cur_entries(images, n);
    let d = cur_data(images, n);
    lemma_cur_entries_at(images, n, k);
    lemma_cur_data_at(images, n, k);
    assert(s =~= h + t + d);
    assert(h.len() == 6);
    let e = t.subrange(16 * k, 16 * k + 16);
    assert(s.subrange(0, 2) =~= le16(0));
    assert(s.subrange(2, 4) =~= le16(2));
    assert(s.subrange(4, 6) =~= le16(n as u16));
    assert(s.subrange(6 + 16 * k, 22 + 16 * k) =~= e);
    assert(s[6 + 16 * k] == e[0]);
    assert(s[7 + 16 * k] == e[1]);
    assert(s[8 + 16 * k] == e[2]);
    assert(s[9 + 16 * k] == e[3]);
    assert(s.subrange(10 + 16 * k, 12 + 16 * k) =~= e.subrange(4, 6));
    assert(s.subrange(12 + 16 * k, 14 + 16 * k) =~= e.subrange(6, 8));
    assert(s.subrange(14 + 16 * k, 18 + 16 * k) =~= e.subrange(8, 12));
    assert(s.subrange(18 + 16 * k, 22 + 16 * k) =~= e.subrange(12, 16));
    let a = pngs_len(images, k) as int;
    let b = a + png_bytes(images[k]).len();
    assert(cur_offset(images, k) == 6 + 16 * n + a);
    assert(s.subrange(6 + 16 * n + a, 6 + 16 * n + b) =~= d.subrange(a, b));
}

proof fn lemma_encoded_through(images: Seq<CursorImage>, k: int)
    requires
        0 <= k < images.len(),
        forall|j: int| 0 <= j < k ==> (#[trigger] png_of(images[j])) is Some,
        png_of(images[k]) is Some,
    ensures
        encoded_through(images, k),
{
    assert forall|j: int| 0 <= j <= k implies (#[trigger] png_of(images[j])) is Some by {
        if j < k {
        }
    }
}

/// Writes a frame as a CUR file.
pub fn write_cur(frame: &CursorFrame) -> (r: Result<Vec<u8>, RasterError>)
    requires
        cur_offsets_fit(frame.images@),
    ensures
        match cur_result(frame.images@) {
            Some(bytes) => r matches Ok(v) && v@ == bytes,
            None => r matches Err(RasterError::EncodingError(_)),
        },
{
    let images = &frame.images;
    let ghost s = images@;
    let n = images.len();
    let mut out: Vec<u8> = Vec::new();
    push_le16(&mut out, 0);
    push_le16(&mut out, 2);
    push_le16(&mut out, n as u16);
    let ghost head = out@;
    let mut offset: u32 = 6 + 16 * (n as u32);
    let mut pngs: Vec<Vec<u8>> = Vec::new();
    let mut k: usize = 0;
    while k < n
        invariant
            n == s.len(),
            s == images@,
            s == frame.images@,
            cur_offsets_fit(s),
            k <= n,
            head == le16(0) + le16(2) + le16(n as u16),
            out@ == head + cur_entries(s, k as int),
            pngs@.len() == k,
            forall|j: int| 0 <= j < k ==> (#[trigger] png_of(s[j])) is Some,
            forall|j: int| 0 <= j < k ==> (#[trigger] pngs@[j])@ == png_bytes(s[j]),
            offset == cur_offset(s, k as int),
        decreases n - k,
    {
        let image = &images[k];
        let nominal: u8 = if image.nominal > 255 {
            0
        } else {
            image.nominal as u8
        };
        let png = match image.raster.encode_png() {
            Ok(v) => v,
            Err(e) => {
                proof {
                    assert(png_of(s[k as int]) is None);
                    assert(!all_encoded(s));
                    assert(e is EncodingError);
                    assert(s == frame.images@);
                    assert(cur_result(frame.images@) is None);
                }
                return Err(e);
            },
        };
        proof {
            lemma_encoded_through(s, k as int);
            assert(cur_offset(s, k + 1) <= u32::MAX);
        }
        let len = png.len() as u32;
        let ghost before = out@;
        out.push(nominal);
        out.push(nominal);
        out.push(0);
        out.push(0);
        push_le16(&mut out, image.hotspot.x as u16);
        push_le16(&mut out, image.hotspot.y as u16);
        push_le32(&mut out, len);
        push_le32(&mut out, offset);
        proof {
            assert(out@ =~= before + cur_entry(s, k as int));
        }
        offset = offset + len;
        pngs.push(png);
        k = k + 1;
    }
    let ghost table = out@;
    let mut i: usize = 0;
    while i < n
        invariant
            n == s.len(),
            s == images@,
            i <= n,
            pngs@.len() == n,
            forall|j: int| 0 <= j < n ==> (#[trigger] pngs@[j])@ == png_bytes(s[j]),
            out@ == table + cur_data(s, i as int),
        decreases n - i,
    {
        push_all(&mut out, pngs[i].as_slice());
        i = i + 1;
    }
    proof {
        assert(out@ =~= cur_bytes(s));
    }
    Ok(out)
}

/// The bytes of the `fram` list of an ANI file: `fram`, then each CUR file
/// under `icon`.
pub open spec fn ani_icons(curs: Seq<Seq<u8>>) -> Seq<u8>
    decreases curs.len(),
{
    if curs.len() == 0 {
        Seq::empty()
    } else {
        ani_icons(curs.drop_last()) + seq![0x69u8, 0x63u8, 0x6Fu8, 0x6Eu8] + curs.last()
    }
}

/// The size of the `fram` list: 4, then 4 and the size of each CUR file.
pub open spec fn ani_list_len(curs: Seq<Seq<u8>>) -> nat
    decreases curs.len(),
{
    if curs.len() == 0 {
        4
    } else {
        ani_list_len(curs.drop_last()) + 4 + curs.last().len()
    }
}

/// The frame sequence that is written: every index from 0 to the number of
/// frames, that number included.
pub open spec fn ani_sequence(n: nat) -> Seq<u32> {
    Seq::new(n + 1, |i: int| i as u32)
}

/// The bytes of an ANI file of the given CUR files and frame rates.
pub open spec fn ani_bytes(curs: Seq<Seq<u8>>, rates: Seq<u32>) -> Seq<u8> {
    let n = curs.len();
    let list_len = ani_list_len(curs);
    seq![0x52u8, 0x49u8, 0x46u8, 0x46u8] + le32((68 + 8 * n + list_len) as u32) + seq![
        0x41u8,
        0x43u8,
        0x4Fu8,
        0x4Eu8,
    ] + seq![0x61u8, 0x6Eu8, 0x69u8, 0x68u8] + le32(36) + le32(n as u32) + le32(n as u32) + le32(0) + le32(0)
        + le32(0) + le32(0) + le32(0) + le32(1) + seq![0x72u8, 0x61u8, 0x74u8, 0x65u8] + le32_all(rates)
        + seq![0x73u8, 0x65u8, 0x71u8, 0x20u8] + le32_all(ani_sequence(n)) + seq![
        0x4Cu8,
        0x49u8,
        0x53u8,
        0x54u8,
    ] + le32(list_len as u32) + seq![0x66u8, 0x72u8, 0x61u8, 0x6Du8] + ani_icons(curs)
}

proof fn lemma_words_at(w: Seq<u8>, off: int, vals: Seq<u32>)
    requires
        0 <= off,
        off + 4 * vals.len() <= w.len(),
        w.subrange(off, off + 4 * vals.len()) == le32_all(vals),
    ensures
        forall|i: int| 0 <= i < vals.len() ==> #[trigger] w.subrange(off + 4 * i, off + 4 * i + 4) == le32(vals[i]),
{
    assert forall|i: int| 0 <= i < vals.len() implies #[trigger] w.subrange(off + 4 * i, off + 4 * i + 4) == le32(
        vals[i],
    ) by {
        lemma_le32_all_at(vals, i);
        assert(w.subrange(off + 4 * i, off + 4 * i + 4) =~= w.subrange(off, off + 4 * vals.len()).subrange(
            4 * i,
            4 * i + 4,
        ));
    }
}

/// In an ANI file of `curs` written with the frame rates `rates`, the
/// header chunk `anih` at byte 12 is followed by its words 36, the number
/// of frames as the number of icons, the number of frames as the number of
/// steps, five zeros and the flag 1; then `rate` and each rate, in order;
/// then `seq ` and each index from 0 to the number of frames, that number
/// included; then `LIST`, the size of the list, and `fram`.
pub proof fn lemma_ani_bytes_layout(curs: Seq<Seq<u8>>, rates: Seq<u32>)
    ensures
        ({
            let s = ani_bytes(curs, rates);
            let n = curs.len();
            let r: int = 4 * rates.len() as int;
            let q: int = 60 + r + 4 * (n + 1);
            &&& s.len() >= q + 8
            &&& s.subrange(8, 12) == seq![0x41u8, 0x43u8, 0x4Fu8, 0x4Eu8]
            &&& s.subrange(12, 16) == seq![0x61u8, 0x6Eu8, 0x69u8, 0x68u8]
            &&& s.subrange(16, 20) == le32(36)
            &&& s.subrange(20, 24) == le32(n as u32)
            &&& s.subrange(24, 28) == le32(n as u32)
            &&& s.subrange(28, 48) == Seq::new(20, |i: int| 0u8)
            &&& s.subrange(48, 52) == le32(1)
            &&& s.subrange(52, 56) == seq![0x72u8, 0x61u8, 0x74u8, 0x65u8]
            &&& forall|i: int| 0 <= i < rates.len() ==> #[trigger] s.subrange(56 + 4 * i, 60 + 4 * i) == le32(rates[i])
            &&& s.subrange(56 + r, 60 + r) == seq![0x73u8, 0x65u8, 0x71u8, 0x20u8]
            &&& forall|i: int| 0 <= i <= n ==> #[trigger] s.subrange(60 + r + 4 * i, 64 + r + 4 * i) == le32(i as u32)
            &&& s.subrange(q, q + 4) == seq![0x4Cu8, 0x49u8, 0x53u8, 0x54u8]
            &&& s.subrange(q + 4, q + 8) == le32(ani_list_len(curs) as u32)
        }),
{
    let s = ani_bytes(curs, rates);
    let n = curs.len();
    let r: int = 4 * rates.len() as int;
    let q: int = 60 + r + 4 * (n + 1);
    let rd = le32_all(rates);
    let sq = ani_sequence(n);
    let sd = le32_all(sq);
    lemma_le32_all_len(rates);
    lemma_le32_all_len(sq);
    let head = seq![0x52u8, 0x49u8, 0x46u8, 0x46u8] + le32((68 + 8 * n + ani_list_len(curs)) as u32) + seq![
        0x41u8,
        0x43u8,
        0x4Fu8,
        0x4Eu8,
    ] + seq![0x61u8, 0x6Eu8, 0x69u8, 0x68u8] + le32(36) + le32(n as u32) + le32(n as u32) + le32(0) + le32(0)
        + le32(0) + le32(0) + le32(0) + le32(1) + seq![0x72u8, 0x61u8, 0x74u8, 0x65u8];
    let mid = seq![0x73u8, 0x65u8, 0x71u8, 0x20u8];
    let tail = seq![0x4Cu8, 0x49u8, 0x53u8, 0x54u8] + le32(ani_list_len(curs) as u32) + seq![
        0x66u8,
        0x72u8,
        0x61u8,
        0x6Du8,
    ] + ani_icons(curs);
    assert(head.len() == 56);
    assert(s =~= head + rd + mid + sd + tail);
    assert(s.subrange(8, 12) =~= head.subrange(8, 12));
    assert(s.subrange(12, 16) =~= head.subrange(12, 16));
    assert(s.subrange(16, 20) =~= head.subrange(16, 20));
    assert(s.subrange(20, 24) =~= head.subrange(20, 24));
    assert(s.subrange(24, 28) =~= head.subrange(24, 28));
    assert(s.subrange(28, 48) =~= Seq::new(20, |i: int| 0u8));
    assert(s.subrange(48, 52) =~= head.subrange(48, 52));
    assert(s.subrange(52, 56) =~= head.subrange(52, 56));
    assert(s.subrange(56, 56 + r) =~= rd);
    lemma_words_at(s, 56, rates);
    assert forall|i: int| 0 <= i < rates.len() implies #[trigger] s.subrange(56 + 4 * i, 60 + 4 * i) == le32(
        rates[i],
    ) by {
        assert(s.subrange(56 + 4 * i, 56 + 4 * i + 4) == le32(rates[i]));
    }
    assert(s.subrange(56 + r, 60 + r) =~= mid);
    assert(s.subrange(60 + r, 60 + r + 4 * sq.len()) =~= sd);
    lemma_words_at(s, 60 + r, sq);
    assert forall|i: int| 0 <= i <= n implies #[trigger] s.subrange(60 + r + 4 * i, 64 + r + 4 * i) == le32(
        i as u32,
    ) by {
        assert(sq[i] == i as u32);
        assert(s.subrange(60 + r + 4 * i, 60 + r + 4 * i + 4) == le32(sq[i]));
    }
    assert(s.subrange(q, q + 4) =~= tail.subrange(0, 4));
    assert(s.subrange(q + 4, q + 8) =~= tail.subrange(4, 8));
}

/// Every frame of `frames` can be written as a CUR file.
pub open spec fn frames_fit(frames: Seq<CursorFrame>) -> bool {
    forall|k: int| 0 <= k < frames.len() ==> cur_offsets_fit(#[trigger] frames[k].images@)
}

/// Every frame's images are encoded.
pub open spec fn frames_encoded(frames: Seq<CursorFrame>) -> bool {
    forall|k: int| 0 <= k < frames.len() ==> all_encoded(#[trigger] frames[k].images@)
}

/// The CUR files of the frames.
pub open spec fn frame_curs(frames: Seq<CursorFrame>) -> Seq<Seq<u8>> {
    frames.map_values(|f: CursorFrame| cur_bytes(f.images@))
}

/// What writing frames as an ANI file gives: the file, where the encoder
/// takes every image of every frame; nothing where it refuses one.
pub open spec fn ani_result(frames: Seq<CursorFrame>, rates: Seq<u32>) -> Option<Seq<u8>> {
    if frames_encoded(frames) {
        Some(ani_bytes(frame_curs(frames), rates))
    } else {
        None
    }
}

/// The sizes of an ANI file of the frames can be added up.
pub open spec fn ani_sizes_fit(frames: Seq<CursorFrame>) -> bool {
    frames_encoded(frames) ==> 68 + 8 * frames.len() + ani_list_len(frame_curs(frames)) <= usize::MAX
}

/// Writes frames as an ANI file, with the frame rates (in jiffies) given,
/// one for each frame.
pub fn write_ani(frames: &Vec<CursorFrame>, rates: &Vec<u32>) -> (r: Result<Vec<u8>, RasterError>)
    requires
        rates@.len() == frames@.len(),
        frames_fit(frames@),
        ani_sizes_fit(frames@),
        frames@.len() < u32::MAX,
    ensures
        match ani_result(frames@, rates@) {
            Some(bytes) => r matches Ok(v) && v@ == bytes,
            None => r matches Err(RasterError::EncodingError(_)),
        },
{
    let n = frames.len();
    let ghost fs = frames@;
    let mut curs: Vec<Vec<u8>> = Vec::new();
    let mut k: usize = 0;
    while k < n
        invariant
            n == fs.len(),
            fs == frames@,
            frames_fit(fs),
            k <= n,
            curs@.len() == k,
            forall|j: int| 0 <= j < k ==> all_encoded(#[trigger] fs[j].images@),
            forall|j: int| 0 <= j < k ==> (#[trigger] curs@[j])@ == cur_bytes(fs[j].images@),
        decreases n - k,
    {
        let frame = &frames[k];
        proof {
            assert(cur_offsets_fit(fs[k as int].images@));
        }
        let cur = match write_cur(frame) {
            Ok(v) => v,
            Err(e) => {
                proof {
                    assert(!frames_encoded(fs));
                }
                return Err(e);
            },
        };
        curs.push(cur);
        k = k + 1;
    }
    let ghost cs = frame_curs(fs);
    proof {
        assert(frames_encoded(fs));
    }
    let mut list_len: usize = 4;
    let mut i: usize = 0;
    while i < n
        invariant
            n == fs.len(),
            cs == frame_curs(fs),
            i <= n,
            curs@.len() == n,
            forall|j: int| 0 <= j < n ==> (#[trigger] curs@[j])@ == cs[j],
            68 + 8 * n + ani_list_len(cs) <= usize::MAX,
            list_len == ani_list_len(cs.take(i as int)),
        decreases n - i,
    {
        proof {
            assert(cs.take(i + 1).drop_last() =~= cs.take(i as int));
            lemma_list_len_mono(cs, i + 1);
        }
        list_len = list_len + 4 + curs[i].len();
        i = i + 1;
    }
    proof {
        assert(cs.take(n as int) =~= cs);
    }
    let data_len = 68 + 8 * n + list_len;
    let mut out: Vec<u8> = Vec::new();
    push_all(&mut out, &[0x52u8, 0x49, 0x46, 0x46]);
    push_le32(&mut out, data_len as u32);
    push_all(&mut out, &[0x41u8, 0x43, 0x4F, 0x4E]);
    push_all(&mut out, &[0x61u8, 0x6E, 0x69, 0x68]);
    push_le32(&mut out, 36);
    push_le32(&mut out, n as u32);
    push_le32(&mut out, n as u32);
    push_le32(&mut out, 0);
    push_le32(&mut out, 0);
    push_le32(&mut out, 0);
    push_le32(&mut out, 0);
    push_le32(&mut out, 0);
    push_le32(&mut out, 1);
    push_all(&mut out, &[0x72u8, 0x61, 0x74, 0x65]);
    let ghost before_rates = out@;
    let mut j: usize = 0;
    while j < rates.len()
        invariant
            j <= rates@.len(),
            out@ == before_rates + le32_all(rates@.take(j as int)),
        decreases rates@.len() - j,
    {
        push_le32(&mut out, rates[j]);
        proof {
            assert(rates@.take(j + 1).drop_last() =~= rates@.take(j as int));
        }
        j = j + 1;
    }
    proof {
        assert(rates@.take(rates@.len() as int) =~= rates@);
    }
    push_all(&mut out, &[0x73u8, 0x65, 0x71, 0x20]);
    let ghost before_seq = out@;
    let mut index: usize = 0;
    while index <= n
        invariant
            n < u32::MAX,
            index <= n + 1,
            out@ == before_seq + le32_all(ani_sequence(n as nat).take(index as int)),
        decreases n + 1 - index,
    {
        push_le32(&mut out, index as u32);
        proof {
            assert(ani_sequence(n as nat).take(index + 1).drop_last() =~= ani_sequence(n as nat).take(
                index as int,
            ));
        }
        index = index + 1;
    }
    proof {
        assert(ani_sequence(n as nat).take(n + 1) =~= ani_sequence(n as nat));
    }
    push_all(&mut out, &[0x4Cu8, 0x49, 0x53, 0x54]);
    push_le32(&mut out, list_len as u32);
    push_all(&mut out, &[0x66u8, 0x72, 0x61, 0x6D]);
    let ghost before_icons = out@;
    let mut m: usize = 0;
    while m < n
        invariant
            n == fs.len(),
            cs == frame_curs(fs),
            m <= n,
            curs@.len() == n,
            forall|q: int| 0 <= q < n ==> (#[trigger] curs@[q])@ == cs[q],
            out@ == before_icons + ani_icons(cs.take(m as int)),
        decreases n - m,
    {
        push_all(&mut out, &[0x69u8, 0x63, 0x6F, 0x6E]);
        push_all(&mut out, curs[m].as_slice());
        proof {
            assert(cs.take(m + 1).drop_last() =~= cs.take(m as int));
        }
        m = m + 1;
    }
    proof {
        assert(cs.take(n as int) =~= cs);
        assert(out@ =~= ani_bytes(cs, rates@));
    }
    Ok(out)
}

proof fn lemma_list_len_mono(cs: Seq<Seq<u8>>, k: int)
    requires
        0 <= k <= cs.len(),
    ensures
        ani_list_len(cs.take(k)) <= ani_list_len(cs),
    decreases cs.len() - k,
{
    if k < cs.len() {
        lemma_list_len_mono(cs, k + 1);
        assert(cs.take(k + 1).drop_last() =~= cs.take(k));
    } else {
        assert(cs.take(k) =~= cs);
    }
}

/// What writing needs so as not to overflow: the data positions of the one
/// frame's CUR file, or, for an animated cursor, those of every frame's and
/// the sizes of the ANI file.
pub open spec fn windows_writable(frames: Seq<CursorFrame>) -> bool {
    if frames.len() == 1 {
        cur_offsets_fit(frames[0].images@)
    } else {
        frames_fit(frames) && ani_sizes_fit(frames) && frames.len() < u32::MAX
    }
}

proof fn lemma_cur_entries_len(images: Seq<CursorImage>, k: int)
    requires
        0 <= k <= images.len(),
    ensures
        cur_entries(images, k).len() == 16 * k,
        cur_data(images, k).len() == pngs_len(images, k),
    decreases k,
{
    if k > 0 {
        lemma_cur_entries_len(images, k - 1);
    }
}

/// Whether a frame's CUR file can be written, whether all its images are
/// encoded, and then the size of the file.
fn cur_check(frame: &CursorFrame) -> (r: (bool, bool, u64))
    ensures
        r.0 == cur_offsets_fit(frame.images@),
        r.0 ==> (r.1 == all_encoded(frame.images@)),
        r.0 && r.1 ==> r.2 == cur_bytes(frame.images@).len() && r.2 <= u32::MAX,
{
    let images = &frame.images;
    let ghost s = images@;
    let n = images.len();
    if n > 268435455 {
        return (false, false, 0);
    }
    let mut total: u64 = 6 + 16 * (n as u64);
    let mut k: usize = 0;
    while k < n
        invariant
            n == s.len(),
            s == images@,
            s == frame.images@,
            n <= 268435455,
            k <= n,
            forall|j: int| 0 <= j < k ==> (#[trigger] png_of(s[j])) is Some,
            forall|j: int| 0 <= j < k ==> #[trigger] cur_offset(s, j + 1) <= u32::MAX,
            total == cur_offset(s, k as int),
            total <= u32::MAX,
        decreases n - k,
    {
        match images[k].raster.encode_png() {
            Err(_) => {
                proof {
                    assert(png_of(s[k as int]) is None);
                    assert forall|j: int| 0 <= j < s.len() && encoded_through(s, j) implies #[trigger] cur_offset(s, j + 1)
                        <= u32::MAX by {
                        if j >= k {
                            assert(png_of(s[k as int]) is Some);
                        }
                    }
                    assert(!all_encoded(s));
                }
                return (true, false, 0);
            },
            Ok(png) => {
                proof {
                    lemma_encoded_through(s, k as int);
                }
                let len = png.len() as u64;
                if len > 4294967295u64 - total {
                    proof {
                        assert(cur_offset(s, k + 1) > u32::MAX);
                    }
                    return (false, false, 0);
                }
                total = total + len;
            },
        }
        k = k + 1;
    }
    proof {
        lemma_cur_entries_len(s, n as int);
        assert forall|j: int| 0 <= j < s.len() && encoded_through(s, j) implies #[trigger] cur_offset(s, j + 1)
            <= u32::MAX by {
        }
    }
    (true, true, total)
}

/// A Windows view of a cursor.
pub struct WindowsCursor<'c>(pub &'c Cursor);

impl<'c> WindowsCursor<'c> {
    /// Writes the cursor in its Windows format: a CUR file of its frame
    /// where it has exactly one, else an ANI file with the frame rates (in
    /// jiffies) given, one for each frame.
    pub fn write(self, rates: &Vec<u32>) -> (r: Result<Vec<u8>, RasterError>)
        requires
            self.0.frames@.len() != 1 ==> rates@.len() == self.0.frames@.len(),
            windows_writable(self.0.frames@),
        ensures
            if self.0.frames@.len() == 1 {
                match cur_result(self.0.frames@[0].images@) {
                    Some(bytes) => r matches Ok(v) && v@ == bytes,
                    None => r matches Err(RasterError::EncodingError(_)),
                }
            } else {
                match ani_result(self.0.frames@, rates@) {
                    Some(bytes) => r matches Ok(v) && v@ == bytes,
                    None => r matches Err(RasterError::EncodingError(_)),
                }
            },
    {
        if self.0.frames.len() == 1 {
            write_cur(&self.0.frames[0])
        } else {
            write_ani(&self.0.frames, rates)
        }
    }

    /// Writes the cursor in its Windows format, as [`write`] does, where its
    /// sizes and positions fit; `None` where they do not.
    ///
    /// [`write`]: Self::write
    pub fn try_write(self, rates: &Vec<u32>) -> (r: Option<Result<Vec<u8>, RasterError>>)
        requires
            self.0.frames@.len() != 1 ==> rates@.len() == self.0.frames@.len(),
        ensures
            r is None <==> !windows_writable(self.0.frames@),
            r matches Some(w) ==> if self.0.frames@.len() == 1 {
                match cur_result(self.0.frames@[0].images@) {
                    Some(bytes) => w matches Ok(v) && v@ == bytes,
                    None => w matches Err(RasterError::EncodingError(_)),
                }
            } else {
                match ani_result(self.0.frames@, rates@) {
                    Some(bytes) => w matches Ok(v) && v@ == bytes,
                    None => w matches Err(RasterError::EncodingError(_)),
                }
            },
    {
        let frames = &self.0.frames;
        let ghost fs = frames@;
        let n = frames.len();
        if n == 1 {
            let (fits, _, _) = cur_check(&frames[0]);
            if !fits {
                return None;
            }
            return Some(self.write(rates));
        }
        if n >= 4294967295usize {
            return None;
        }
        let mut all = true;
        let ghost mut bad: int = 0;
        let mut list: u128 = 4;
        let mut k: usize = 0;
        while k < n
            invariant
                n == fs.len(),
                fs == frames@,
                fs == self.0.frames@,
                n < u32::MAX,
                k <= n,
                forall|j: int| 0 <= j < k ==> cur_offsets_fit(#[trigger] fs[j].images@),
                all ==> forall|j: int| 0 <= j < k ==> all_encoded(#[trigger] fs[j].images@),
                !all ==> 0 <= bad < k && !all_encoded(fs[bad].images@),
                all ==> list == ani_list_len(frame_curs(fs).take(k as int)),
                list <= 4 + k * (4 + 4294967295u128),
            decreases n - k,
        {
            let (fits, encoded, len) = cur_check(&frames[k]);
            if !fits {
                proof {
                    assert(!frames_fit(fs));
                }
                return None;
            }
            if encoded {
                proof {
                    if all {
                        assert(frame_curs(fs).take(k + 1).drop_last() =~= frame_curs(fs).take(k as int));
                    }
                }
                list = list + 4 + len as u128;
            } else {
                if all {
                    proof {
                        bad = k as int;
                    }
                }
                all = false;
            }
            proof {
                assert(list <= 4 + (k + 1) * (4 + 4294967295u128)) by (nonlinear_arith)
                    requires
                        list <= 4 + k * (4 + 4294967295u128) + 4 + 4294967295u128,
                ;
            }
            k = k + 1;
        }
        proof {
            assert(frame_curs(fs).take(n as int) =~= frame_curs(fs));
            assert(frames_fit(fs));
            if !all {
                assert(!all_encoded(fs[bad].images@));
            }
            assert(all == frames_encoded(fs));
            assert(n * 8 <= 8 * 4294967295u128) by (nonlinear_arith)
                requires
                    n < u32::MAX,
            ;
        }
        if all && 68 + 8 * (n as u128) + list > usize::MAX as u128 {
            return None;
        }
        Some(self.write(rates))
    }
}

} // verus!
