//! The layout shared by ICO and CUR files.
//!
//! A file is a six-byte header (a reserved zero, the resource type, and the
//! number of entries), one 16-byte entry per image (width, height, colour
//! count, a reserved zero, two 16-bit fields that mean colour planes and bit
//! depth in ICO files and the hotspot in CUR files, the size of the image data
//! and its offset in the file), and then the image data.

use vstd::prelude::*;

use super::error::ReadError;
use crate::bytes::{le16, le16_value, le32, le32_value, push_all, push_le16, push_le32, read_le16, read_le32};

verus! {

/// The fields of a directory entry, as they are stored.
#[derive(Debug, Clone, Copy, PartialEq, Eq, Default)]
pub struct RawDirEntry {
    pub width: u8,
    pub height: u8,
    pub color_count: u8,
    pub planes_or_hotx: u16,
    pub depth_or_hoty: u16,
}

/// A directory: each entry with its image data.
pub type DirModel = Seq<(RawDirEntry, Seq<u8>)>;

/// The images of a directory as stored: each entry with its data.
pub open spec fn dir_model(entries: Seq<(RawDirEntry, Vec<u8>)>) -> DirModel {
    entries.map_values(|e: (RawDirEntry, Vec<u8>)| (e.0, e.1@))
}

/// Reading the entry with number `i` (counting from 1) at `pos`: the entry,
/// its data, and where the next read starts.
///
/// The data is read at the offset that the entry gives and stops where the
/// input ends; afterwards the reading position moves back by that offset,
/// which leaves it at the number of data bytes read.
pub open spec fn read_entry(s: Seq<u8>, pos: int, i: nat) -> Result<(RawDirEntry, Seq<u8>, nat), ReadError> {
    if pos + 4 > s.len() {
        Err(ReadError::UnexpectedEof)
    } else if s[pos + 3] != 0 {
        Err(ReadError::EntryMissingReserved(i as u16))
    } else if pos + 16 > s.len() {
        Err(ReadError::UnexpectedEof)
    } else {
        let e = RawDirEntry {
            width: s[pos],
            height: s[pos + 1],
            color_count: s[pos + 2],
            planes_or_hotx: le16_value(s.subrange(pos + 4, pos + 6)) as u16,
            depth_or_hoty: le16_value(s.subrange(pos + 6, pos + 8)) as u16,
        };
        let size = le32_value(s.subrange(pos + 8, pos + 12)) as nat;
        let dpos = le32_value(s.subrange(pos + 12, pos + 16)) as nat;
        let avail: nat = if dpos >= s.len() {
            0
        } else {
            (s.len() - dpos) as nat
        };
        let n: nat = if size <= avail {
            size
        } else {
            avail
        };
        let data = if n == 0 {
            Seq::empty()
        } else {
            s.subrange(dpos as int, (dpos + n) as int)
        };
        Ok((e, data, n))
    }
}

/// Reading the entries numbered `i` to `count`, the first at `pos`.
pub open spec fn read_entries(s: Seq<u8>, pos: int, i: nat, count: nat) -> Result<DirModel, ReadError>
    decreases count + 1 - i,
{
    if i > count || i == 0 {
        Ok(Seq::empty())
    } else {
        match read_entry(s, pos, i) {
            Err(e) => Err(e),
            Ok((e, data, next)) => match read_entries(s, next as int, i + 1, count) {
                Err(err) => Err(err),
                Ok(rest) => Ok(seq![(e, data)] + rest),
            },
        }
    }
}

/// The number of entries that the header of `s` declares.
pub open spec fn declared_count(s: Seq<u8>) -> nat {
    le16_value(s.subrange(4, 6)) as nat
}

/// Reading a directory of resource type `rt` from `s`.
pub open spec fn read_dir(s: Seq<u8>, rt: u16) -> Result<DirModel, ReadError> {
    if s.len() < 2 {
        Err(ReadError::UnexpectedEof)
    } else if le16_value(s.subrange(0, 2)) != 0 {
        Err(ReadError::HeaderMissingReserved)
    } else if s.len() < 4 {
        Err(ReadError::UnexpectedEof)
    } else if le16_value(s.subrange(2, 4)) != rt {
        Err(ReadError::InvalidResourceType(rt, le16_value(s.subrange(2, 4)) as u16))
    } else if s.len() < 6 {
        Err(ReadError::UnexpectedEof)
    } else {
        read_entries(s, 6, 1, declared_count(s))
    }
}

/// The size field of an entry: the length of its data, cut to 32 bits.
pub open spec fn size32(d: Seq<u8>) -> nat {
    d.len() % 0x1_0000_0000
}

/// The size fields of a sequence of entries, added up.
pub open spec fn sizes32(es: DirModel) -> nat
    decreases es.len(),
{
    if es.len() == 0 {
        0
    } else {
        sizes32(es.drop_last()) + size32(es.last().1)
    }
}

/// The lengths of the data of a sequence of entries, added up.
pub open spec fn data_len(es: DirModel) -> nat
    decreases es.len(),
{
    if es.len() == 0 {
        0
    } else {
        data_len(es.drop_last()) + es.last().1.len()
    }
}

/// The data of a sequence of entries, one after the other.
pub open spec fn data_bytes(es: DirModel) -> Seq<u8>
    decreases es.len(),
{
    if es.len() == 0 {
        Seq::empty()
    } else {
        data_bytes(es.drop_last()) + es.last().1
    }
}

/// The 16 bytes of an entry whose data starts at `dpos`.
pub open spec fn entry_bytes(e: RawDirEntry, data: Seq<u8>, dpos: nat) -> Seq<u8> {
    seq![e.width, e.height, e.color_count, 0u8] + le16(e.planes_or_hotx) + le16(e.depth_or_hoty)
        + le32(size32(data) as u32) + le32(dpos as u32)
}

/// The entries of a directory whose first data starts at `first`.
pub open spec fn entry_table(es: DirModel, first: nat) -> Seq<u8>
    decreases es.len(),
{
    if es.len() == 0 {
        Seq::empty()
    } else {
        entry_table(es.drop_last(), first) + entry_bytes(
            es.last().0,
            es.last().1,
            first + sizes32(es.drop_last()),
        )
    }
}

/// The number of entries as the header stores it: cut to 16 bits.
pub open spec fn count16(es: DirModel) -> nat {
    es.len() % 0x10000
}

/// Where the data of the first entry starts.
pub open spec fn first_data_pos(es: DirModel) -> nat {
    6 + 16 * count16(es)
}

/// The bytes of a directory of resource type `rt`.
pub open spec fn dir_encoding(rt: u16, es: DirModel) -> Seq<u8> {
    le16(0) + le16(rt) + le16(count16(es) as u16) + entry_table(es, first_data_pos(es))
        + data_bytes(es)
}

/// Whether every data offset fits in the 32-bit offset field.
pub open spec fn offsets_fit(es: DirModel) -> bool {
    first_data_pos(es) + sizes32(es) <= u32::MAX
}

/// The number of bytes of a directory.
pub open spec fn dir_size(es: DirModel) -> nat {
    6 + 16 * es.len() + data_len(es)
}

proof fn lemma_sums_push(es: DirModel, x: (RawDirEntry, Seq<u8>), first: nat)
    ensures
        sizes32(es.push(x)) == sizes32(es) + size32(x.1),
        data_len(es.push(x)) == data_len(es) + x.1.len(),
        data_bytes(es.push(x)) == data_bytes(es) + x.1,
        entry_table(es.push(x), first) == entry_table(es, first) + entry_bytes(
            x.0,
            x.1,
            first + sizes32(es),
        ),
{
    assert(es.push(x).drop_last() =~= es);
}

proof fn lemma_sizes_prefix(es: DirModel, i: int)
    requires
        0 <= i <= es.len(),
    ensures
        sizes32(es.subrange(0, i)) <= sizes32(es),
        data_len(es.subrange(0, i)) <= data_len(es),
    decreases es.len() - i,
{
    if i < es.len() {
        lemma_sizes_prefix(es, i + 1);
        assert(es.subrange(0, i + 1).drop_last() =~= es.subrange(0, i));
    } else {
        assert(es.subrange(0, i) =~= es);
    }
}

proof fn lemma_table_len(es: DirModel, first: nat)
    ensures
        entry_table(es, first).len() == 16 * es.len(),
    decreases es.len(),
{
    if es.len() > 0 {
        lemma_table_len(es.drop_last(), first);
    }
}

proof fn lemma_data_bytes_len(es: DirModel)
    ensures
        data_bytes(es).len() == data_len(es),
    decreases es.len(),
{
    if es.len() > 0 {
        lemma_data_bytes_len(es.drop_last());
    }
}

/// The bytes that `write_impl` writes are as many as `exact_size_impl` counts
/// and `write_impl` returns.
pub proof fn lemma_dir_encoding_len(rt: u16, es: DirModel)
    ensures
        dir_encoding(rt, es).len() == dir_size(es),
{
    lemma_table_len(es, first_data_pos(es));
    lemma_data_bytes_len(es);
}

/// The entry with index `k` of a table takes the 16 bytes that start at
/// `16 * k`.
proof fn lemma_table_entry(es: DirModel, first: nat, k: int)
    requires
        0 <= k < es.len(),
    ensures
        entry_table(es, first).subrange(16 * k, 16 * k + 16) == entry_bytes(
            es[k].0,
            es[k].1,
            first + sizes32(es.subrange(0, k)),
        ),
    decreases es.len(),
{
    let t = entry_table(es, first);
    let prev = es.drop_last();
    lemma_table_len(prev, first);
    if k == es.len() - 1 {
        assert(prev =~= es.subrange(0, k));
        assert(t.subrange(16 * k, 16 * k + 16) =~= entry_bytes(es.last().0, es.last().1, first + sizes32(prev)));
    } else {
        lemma_table_entry(prev, first, k);
        assert(prev.subrange(0, k) =~= es.subrange(0, k));
        assert(t.subrange(16 * k, 16 * k + 16) =~= entry_table(prev, first).subrange(16 * k, 16 * k + 16));
    }
}

/// In the bytes of a directory, the entry of the image with index `k` stores
/// its width at byte `6 + 16 * k`, its height at the byte after, then its
/// colour count and a zero, then its two 16-bit fields.
pub proof fn lemma_dir_entry_fields(rt: u16, es: DirModel, k: int)
    requires
        0 <= k < es.len(),
    ensures
        dir_encoding(rt, es)[6 + 16 * k] == es[k].0.width,
        dir_encoding(rt, es)[7 + 16 * k] == es[k].0.height,
        dir_encoding(rt, es)[8 + 16 * k] == es[k].0.color_count,
        dir_encoding(rt, es)[9 + 16 * k] == 0,
        dir_encoding(rt, es).subrange(10 + 16 * k, 12 + 16 * k) == le16(es[k].0.planes_or_hotx),
        dir_encoding(rt, es).subrange(12 + 16 * k, 14 + 16 * k) == le16(es[k].0.depth_or_hoty),
{
    let s = dir_encoding(rt, es);
    let t = entry_table(es, first_data_pos(es));
    lemma_table_len(es, first_data_pos(es));
    lemma_table_entry(es, first_data_pos(es), k);
    let b = t.subrange(16 * k, 16 * k + 16);
    assert(forall|j: int| 0 <= j < 16 ==> s[6 + 16 * k + j] == #[trigger] b[j]);
    assert(b[0] == es[k].0.width);
    assert(b[1] == es[k].0.height);
    assert(s[6 + 16 * k] == b[0]);
    assert(s[7 + 16 * k] == b[1]);
    assert(s[8 + 16 * k] == b[2]);
    assert(s[9 + 16 * k] == b[3]);
    assert(s.subrange(10 + 16 * k, 12 + 16 * k) =~= b.subrange(4, 6));
    assert(s.subrange(12 + 16 * k, 14 + 16 * k) =~= b.subrange(6, 8));
}

/// Reading back what `write_impl` wrote for at most one image gives that
/// image back, whatever follows the bytes. (With two images or more it does
/// not: after reading the data of an image, the reading position is left at
/// the number of bytes read, not at the next entry.)
pub proof fn lemma_read_write_roundtrip(rt: u16, es: DirModel, t: Seq<u8>)
    requires
        es.len() <= 1,
        es.len() == 1 ==> es[0].1.len() <= u32::MAX,
        offsets_fit(es),
    ensures
        read_dir(dir_encoding(rt, es) + t, rt) == Ok::<DirModel, ReadError>(es),
{
    let s = dir_encoding(rt, es) + t;
    crate::bytes::lemma_le16_roundtrip(0);
    crate::bytes::lemma_le16_roundtrip(rt);
    crate::bytes::lemma_le16_roundtrip(count16(es) as u16);
    assert(s.subrange(0, 2) =~= le16(0));
    assert(s.subrange(2, 4) =~= le16(rt));
    assert(s.subrange(4, 6) =~= le16(count16(es) as u16));
    assert(le16_value(s.subrange(0, 2)) == 0);
    assert(le16_value(s.subrange(2, 4)) == rt);
    if es.len() == 0 {
        assert(declared_count(s) == 0);
        assert(read_entries(s, 6, 1, 0) == Ok::<DirModel, ReadError>(Seq::empty()));
        assert(es =~= Seq::<(RawDirEntry, Seq<u8>)>::empty());
    } else {
        let e = es[0].0;
        let d = es[0].1;
        assert(es.drop_last() =~= Seq::<(RawDirEntry, Seq<u8>)>::empty());
        assert(sizes32(es.drop_last()) == 0);
        assert(entry_table(es.drop_last(), 22) =~= Seq::<u8>::empty());
        assert(data_bytes(es.drop_last()) =~= Seq::<u8>::empty());
        assert(first_data_pos(es) == 22);
        assert(size32(d) == d.len());
        crate::bytes::lemma_le16_roundtrip(e.planes_or_hotx);
        crate::bytes::lemma_le16_roundtrip(e.depth_or_hoty);
        crate::bytes::lemma_le32_roundtrip(d.len() as u32);
        crate::bytes::lemma_le32_roundtrip(22);
        assert(s.subrange(10, 12) =~= le16(e.planes_or_hotx));
        assert(s.subrange(12, 14) =~= le16(e.depth_or_hoty));
        assert(s.subrange(14, 18) =~= le32(d.len() as u32));
        assert(s.subrange(18, 22) =~= le32(22));
        assert(s[9] == 0);
        assert(declared_count(s) == 1);
        if d.len() > 0 {
            assert(s.subrange(22, 22 + d.len() as int) =~= d);
        }
        let r = read_entry(s, 6, 1);
        assert(r matches Ok((e2, d2, _)) && e2 == e && d2 =~= d);
        let n = r.unwrap().2;
        assert(read_entries(s, n as int, 2, 1) == Ok::<DirModel, ReadError>(Seq::empty()));
        assert(seq![(e, d)] + Seq::<(RawDirEntry, Seq<u8>)>::empty() =~= es);
        assert(read_entries(s, 6, 1, 1) == Ok::<DirModel, ReadError>(es));
    }
}

/// Reads a directory of resource type `resource_type` from `input`: each entry
/// with its image data.
///
/// Fails with `HeaderMissingReserved` or `InvalidResourceType` when the
/// header is wrong, with `EntryMissingReserved` when an entry's reserved byte
/// is not zero, and with `UnexpectedEof` when the input ends inside the header
/// or an entry. A directory of 65535 entries that would otherwise be read makes
/// the counter of entries overflow, which `requires` rules out.
pub fn read_impl(input: &[u8], resource_type: u16) -> (r: Result<Vec<(RawDirEntry, Vec<u8>)>, ReadError>)
    requires
        !(read_dir(input@, resource_type) is Ok && declared_count(input@) == 65535),
    ensures
        match read_dir(input@, resource_type) {
            Ok(es) => r matches Ok(v) && dir_model(v@) == es,
            Err(e) => r == Err::<Vec<(RawDirEntry, Vec<u8>)>, ReadError>(e),
        },
{
    let len = input.len();
    if len < 2 {
        return Err(ReadError::UnexpectedEof);
    }
    if read_le16(vstd::slice::slice_subrange(input, 0, 2)) != 0 {
        return Err(ReadError::HeaderMissingReserved);
    }
    if len < 4 {
        return Err(ReadError::UnexpectedEof);
    }
    let res_type = read_le16(vstd::slice::slice_subrange(input, 2, 4));
    if res_type != resource_type {
        return Err(ReadError::InvalidResourceType(resource_type, res_type));
    }
    if len < 6 {
        return Err(ReadError::UnexpectedEof);
    }
    let count = read_le16(vstd::slice::slice_subrange(input, 4, 6));
    let mut entries: Vec<(RawDirEntry, Vec<u8>)> = Vec::new();
    let mut pos: usize = 6;
    let mut i: u32 = 1;
    let ghost s = input@;
    assert(dir_model(entries@) =~= Seq::<(RawDirEntry, Seq<u8>)>::empty());
    while i <= count as u32
        invariant
            s == input@,
            len == s.len(),
            1 <= i <= count as u32 + 1,
            pos <= s.len(),
            count == declared_count(s),
            read_dir(s, resource_type) == match read_entries(s, pos as int, i as nat, count as nat) {
                Err(e) => Err::<DirModel, ReadError>(e),
                Ok(rest) => Ok(dir_model(entries@) + rest),
            },
        decreases count as u32 + 1 - i,
    {
        if len - pos < 4 {
            return Err(ReadError::UnexpectedEof);
        }
        let width = input[pos];
        let height = input[pos + 1];
        let color_count = input[pos + 2];
        if input[pos + 3] != 0 {
            return Err(ReadError::EntryMissingReserved(i as u16));
        }
        if len - pos < 16 {
            return Err(ReadError::UnexpectedEof);
        }
        let planes_or_hotx = read_le16(vstd::slice::slice_subrange(input, pos + 4, pos + 6));
        let depth_or_hoty = read_le16(vstd::slice::slice_subrange(input, pos + 6, pos + 8));
        let data_size = read_le32(vstd::slice::slice_subrange(input, pos + 8, pos + 12));
        let data_pos = read_le32(vstd::slice::slice_subrange(input, pos + 12, pos + 16));
        let entry = RawDirEntry { width, height, color_count, planes_or_hotx, depth_or_hoty };
        let dpos = data_pos as usize;
        let avail: usize = if dpos >= len {
            0
        } else {
            len - dpos
        };
        let n: usize = if (data_size as usize) <= avail {
            data_size as usize
        } else {
            avail
        };
        let data = if n == 0 {
            Vec::new()
        } else {
            vstd::slice::slice_to_vec(vstd::slice::slice_subrange(input, dpos, dpos + n))
        };
        proof {
            let next = read_entry(s, pos as int, i as nat);
            assert(next matches Ok((e, d, m)) && e == entry && d == data@ && m == n);
            let ghost old_model = dir_model(entries@);
            assert(dir_model(entries@.push((entry, data))) =~= old_model.push((entry, data@)));
            match read_entries(s, n as int, (i + 1) as nat, count as nat) {
                Err(_) => {},
                Ok(rest) => {
                    assert(old_model + (seq![(entry, data@)] + rest) =~= old_model.push((entry, data@))
                        + rest);
                },
            }
        }
        entries.push((entry, data));
        pos = n;
        i = i + 1;
    }
    assert(dir_model(entries@) + Seq::<(RawDirEntry, Seq<u8>)>::empty() =~= dir_model(entries@));
    Ok(entries)
}

/// Appends the 16 bytes of an entry with the given size and offset fields.
fn push_entry(out: &mut Vec<u8>, entry: &RawDirEntry, data_size: u32, data_pos: u32)
    ensures
        final(out)@ == old(out)@ + (seq![entry.width, entry.height, entry.color_count, 0u8]
            + le16(entry.planes_or_hotx) + le16(entry.depth_or_hoty) + le32(data_size) + le32(
            data_pos,
        )),
{
    out.push(entry.width);
    out.push(entry.height);
    out.push(entry.color_count);
    out.push(0);
    push_le16(out, entry.planes_or_hotx);
    push_le16(out, entry.depth_or_hoty);
    push_le32(out, data_size);
    push_le32(out, data_pos);
    assert(final(out)@ =~= old(out)@ + (seq![entry.width, entry.height, entry.color_count, 0u8]
        + le16(entry.planes_or_hotx) + le16(entry.depth_or_hoty) + le32(data_size) + le32(
        data_pos,
    )));
}

/// Writes a directory of resource type `resource_type` to `out`, returning how
/// many bytes were written.
///
/// The header stores the number of entries cut to 16 bits, and each entry the
/// length of its data cut to 32 bits. A data offset that overflows 32 bits
/// panics, which `requires` rules out; so does a byte count that overflows
/// `usize`.
pub fn write_impl(out: &mut Vec<u8>, resource_type: u16, entries: Vec<(RawDirEntry, Vec<u8>)>) -> (n: usize)
    requires
        offsets_fit(dir_model(entries@)),
        dir_size(dir_model(entries@)) <= usize::MAX,
    ensures
        final(out)@ == old(out)@ + dir_encoding(resource_type, dir_model(entries@)),
        n == dir_size(dir_model(entries@)),
{
    let ghost es = dir_model(entries@);
    let count = (entries.len() % 65536) as u16;
    push_le16(out, 0);
    push_le16(out, resource_type);
    push_le16(out, count);
    let mut total: usize = 6;
    let mut data_pos: u32 = 6 + 16 * count as u32;
    let ghost header = out@;
    let mut i: usize = 0;
    assert(es.len() == entries@.len());
    while i < entries.len()
        invariant
            es == dir_model(entries@),
            es.len() == entries@.len(),
            i <= entries@.len(),
            offsets_fit(es),
            dir_size(es) <= usize::MAX,
            count == count16(es),
            data_pos == first_data_pos(es) + sizes32(es.subrange(0, i as int)),
            total == 6 + 16 * i + data_len(es.subrange(0, i as int)),
            out@ == header + entry_table(es.subrange(0, i as int), first_data_pos(es)),
        decreases entries@.len() - i,
    {
        let entry = entries[i].0;
        let size = entries[i].1.len();
        let data_size = (size as u64 % 0x1_0000_0000u64) as u32;
        proof {
            let x = es[i as int];
            assert(es.subrange(0, i + 1) =~= es.subrange(0, i as int).push(x));
            lemma_sums_push(es.subrange(0, i as int), x, first_data_pos(es));
            lemma_sizes_prefix(es, i + 1);
            assert(x.1 == entries@[i as int].1@);
            assert(x.0 == entry);
            assert(size == x.1.len());
            assert(data_size == size32(x.1));
            assert(data_pos + data_size <= u32::MAX);
            assert(total + 16 + size <= usize::MAX);
        }
        push_entry(out, &entry, data_size, data_pos);
        proof {
            let x = es[i as int];
            let pre = es.subrange(0, i as int);
            assert(entry_bytes(x.0, x.1, first_data_pos(es) + sizes32(pre)) =~= seq![entry.width, entry.height, entry.color_count, 0u8]
                + le16(entry.planes_or_hotx) + le16(entry.depth_or_hoty) + le32(data_size) + le32(data_pos));
            assert(out@ =~= header + entry_table(es.subrange(0, i + 1), first_data_pos(es)));
        }
        total = total + 16 + size;
        data_pos = data_pos + data_size;
        i = i + 1;
    }
    assert(es.subrange(0, i as int) =~= es);
    let ghost table_end = out@;
    let mut j: usize = 0;
    while j < entries.len()
        invariant
            es == dir_model(entries@),
            es.len() == entries@.len(),
            j <= entries@.len(),
            out@ == table_end + data_bytes(es.subrange(0, j as int)),
        decreases entries@.len() - j,
    {
        proof {
            let x = es[j as int];
            assert(es.subrange(0, j + 1) =~= es.subrange(0, j as int).push(x));
            lemma_sums_push(es.subrange(0, j as int), x, first_data_pos(es));
        }
        push_all(out, entries[j].1.as_slice());
        j = j + 1;
    }
    assert(es.subrange(0, j as int) =~= es);
    assert(out@ =~= old(out)@ + dir_encoding(resource_type, es));
    total
}

/// The lengths of the data of a sequence of images, added up.
pub open spec fn total_data_len<T>(s: Seq<(T, Vec<u8>)>) -> nat
    decreases s.len(),
{
    if s.len() == 0 {
        0
    } else {
        total_data_len(s.drop_last()) + s.last().1@.len()
    }
}

/// A directory whose images have data of the same lengths as those of `v`
/// has as much data.
pub proof fn lemma_total_data_len<T>(m: DirModel, v: Seq<(T, Vec<u8>)>)
    requires
        m.len() == v.len(),
        forall|k: int| 0 <= k < v.len() ==> (#[trigger] m[k]).1.len() == v[k].1@.len(),
    ensures
        data_len(m) == total_data_len(v),
    decreases v.len(),
{
    if v.len() > 0 {
        lemma_total_data_len(m.drop_last(), v.drop_last());
    }
}

/// Returns how many bytes `write_impl` writes for `entries`: the header, 16
/// bytes per entry, and the data.
pub fn exact_size_impl<T>(entries: &[(T, Vec<u8>)]) -> (n: usize)
    requires
        6 + 16 * entries@.len() + total_data_len(entries@) <= usize::MAX,
    ensures
        n == 6 + 16 * entries@.len() + total_data_len(entries@),
{
    let mut acc: usize = 6 + 16 * entries.len();
    let mut i: usize = 0;
    while i < entries.len()
        invariant
            i <= entries@.len(),
            6 + 16 * entries@.len() + total_data_len(entries@) <= usize::MAX,
            acc == 6 + 16 * entries@.len() + total_data_len(entries@.subrange(0, i as int)),
        decreases entries@.len() - i,
    {
        proof {
            assert(entries@.subrange(0, i + 1).drop_last() =~= entries@.subrange(0, i as int));
            lemma_total_prefix(entries@, i + 1);
        }
        acc = acc + entries[i].1.len();
        i = i + 1;
    }
    assert(entries@.subrange(0, i as int) =~= entries@);
    acc
}

proof fn lemma_total_prefix<T>(s: Seq<(T, Vec<u8>)>, i: int)
    requires
        0 <= i <= s.len(),
    ensures
        total_data_len(s.subrange(0, i)) <= total_data_len(s),
    decreases s.len() - i,
{
    if i < s.len() {
        lemma_total_prefix(s, i + 1);
        assert(s.subrange(0, i + 1).drop_last() =~= s.subrange(0, i));
    } else {
        assert(s.subrange(0, i) =~= s);
    }
}

} // verus!
