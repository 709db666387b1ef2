//! ANI files: a RIFF `ACON` form holding a header, the frame rates, the
//! frame sequence and the frames, each frame a CUR file.

use super::cur::CurFile;
use crate::bytes::{le32, push_le32};
use crate::formats::containers::ico::common::{dir_encoding, dir_size, offsets_fit, DirModel};
use crate::formats::containers::riff::chunk_id::{list_tag, riff_tag, ChunkId};
use crate::formats::containers::riff::chunk_value::{
    chunk_model, children_encoding, children_models, children_written, lemma_children_encoding_push, lemma_children_models,
    lemma_children_models_push, lemma_model_written_encoding, model_encoding, model_size, model_written, pad, ChunkModel,
    ChunkValue, WriteError,
};
use vstd::prelude::*;

verus! {

/// The form type `ACON`.
pub open spec fn acon_tag() -> Seq<u8> {
    seq![0x41u8, 0x43u8, 0x4Fu8, 0x4Eu8]
}

/// The identifier `anih` of the header chunk.
pub open spec fn anih_tag() -> Seq<u8> {
    seq![0x61u8, 0x6Eu8, 0x69u8, 0x68u8]
}

/// The identifier `rate` of the frame rates chunk.
pub open spec fn rate_tag() -> Seq<u8> {
    seq![0x72u8, 0x61u8, 0x74u8, 0x65u8]
}

/// The identifier `seq ` of the frame sequence chunk.
pub open spec fn seq_tag() -> Seq<u8> {
    seq![0x73u8, 0x65u8, 0x71u8, 0x20u8]
}

/// The list type `fram` of the frames list.
pub open spec fn fram_tag() -> Seq<u8> {
    seq![0x66u8, 0x72u8, 0x61u8, 0x6Du8]
}

/// The identifier `icon` of each frame chunk.
pub open spec fn icon_tag() -> Seq<u8> {
    seq![0x69u8, 0x63u8, 0x6Fu8, 0x6Eu8]
}

/// Each value as four little-endian bytes, in turn.
pub open spec fn le32_all(s: Seq<u32>) -> Seq<u8>
    decreases s.len(),
{
    if s.len() == 0 {
        Seq::empty()
    } else {
        le32_all(s.drop_last()) + le32(s.last())
    }
}

/// The bytes of `s` are four for each value, and the value with index `i`
/// stands at `4 * i`.
pub proof fn lemma_le32_all_at(s: Seq<u32>, i: int)
    requires
        0 <= i < s.len(),
    ensures
        le32_all(s).len() == 4 * s.len(),
        le32_all(s).subrange(4 * i, 4 * i + 4) == le32(s[i]),
    decreases s.len(),
{
    lemma_le32_all_len(s.drop_last());
    if i < s.len() - 1 {
        lemma_le32_all_at(s.drop_last(), i);
        assert(le32_all(s).subrange(4 * i, 4 * i + 4) =~= le32_all(s.drop_last()).subrange(4 * i, 4 * i + 4));
    } else {
        assert(le32_all(s).subrange(4 * i, 4 * i + 4) =~= le32(s[i]));
    }
}

/// The bytes of `s` are four for each value.
pub proof fn lemma_le32_all_len(s: Seq<u32>)
    ensures
        le32_all(s).len() == 4 * s.len(),
    decreases s.len(),
{
    if s.len() > 0 {
        lemma_le32_all_len(s.drop_last());
    }
}

/// The data of the header chunk: its size (36), the number of icons, the
/// number of frames, five unused zero words, and the sequence flag (1).
pub open spec fn anih_data(icons_len: u32, sequence_len: u32) -> Seq<u8> {
    le32(36) + le32(icons_len) + le32(sequence_len) + Seq::new(20, |i: int| 0u8) + le32(1)
}

/// The chunk tree of an ANI file with the given icons, rates and sequence.
pub open spec fn ani_model(icons: Seq<DirModel>, rates: Seq<u32>, sequence: Seq<u32>) -> ChunkModel {
    ChunkModel::Parent(
        riff_tag(),
        acon_tag(),
        seq![
            ChunkModel::Child(anih_tag(), anih_data(icons.len() as u32, sequence.len() as u32)),
            ChunkModel::Child(rate_tag(), le32_all(rates)),
            ChunkModel::Child(seq_tag(), le32_all(sequence)),
            ChunkModel::Parent(
                list_tag(),
                fram_tag(),
                icons.map_values(|d: DirModel| ChunkModel::Child(icon_tag(), dir_encoding(2, d))),
            ),
        ],
    )
}

/// What writing an ANI file leaves in the output starts with the RIFF
/// header (`RIFF`, a size word, `ACON`) and then the header chunk: `anih`,
/// its data size 36, and the data, whose words are 36, the number of icons
/// given, the length of the sequence given, five zeros, and the flag 1. So
/// the number of icons stands at bytes 24 to 28 and the number of steps at
/// bytes 28 to 32, whatever else the file holds.
pub proof fn lemma_ani_header_words(icons: Seq<DirModel>, rates: Seq<u32>, sequence: Seq<u32>)
    ensures
        ({
            let w = model_written(ani_model(icons, rates, sequence));
            &&& w.len() >= 56
            &&& w.subrange(8, 12) == acon_tag()
            &&& w.subrange(12, 16) == anih_tag()
            &&& w.subrange(16, 20) == le32(36)
            &&& w.subrange(20, 24) == le32(36)
            &&& w.subrange(24, 28) == le32(icons.len() as u32)
            &&& w.subrange(28, 32) == le32(sequence.len() as u32)
            &&& w.subrange(32, 52) == Seq::new(20, |i: int| 0u8)
            &&& w.subrange(52, 56) == le32(1)
        }),
{
    let m = ani_model(icons, rates, sequence);
    let w = model_written(m);
    let ch = m->Parent_2;
    let data = anih_data(icons.len() as u32, sequence.len() as u32);
    assert(data.len() == 36);
    assert(pad(36) =~= Seq::<u8>::empty());
    let first = anih_tag() + le32(36) + data;
    assert(ch[0] == ChunkModel::Child(anih_tag(), data));
    assert(model_encoding(ch[0]) == Some(first));
    lemma_children_encoding_push(Seq::<ChunkModel>::empty(), ch[0]);
    assert(ch.subrange(0, 1) =~= Seq::<ChunkModel>::empty().push(ch[0]));
    assert(Seq::<u8>::empty() + first =~= first);
    lemma_written_children_prefix(riff_tag(), acon_tag(), ch, 1);
    assert(w.subrange(12, 16) =~= first.subrange(0, 4));
    assert(w.subrange(16, 20) =~= first.subrange(4, 8));
    assert(w.subrange(20, 24) =~= first.subrange(8, 12));
    assert(w.subrange(24, 28) =~= first.subrange(12, 16));
    assert(w.subrange(28, 32) =~= first.subrange(16, 20));
    assert(w.subrange(32, 52) =~= first.subrange(20, 40));
    assert(w.subrange(52, 56) =~= first.subrange(40, 44));
    assert(first.subrange(0, 4) =~= anih_tag());
    assert(first.subrange(4, 8) =~= le32(36));
    assert(first.subrange(8, 12) =~= le32(36));
    assert(first.subrange(12, 16) =~= le32(icons.len() as u32));
    assert(first.subrange(16, 20) =~= le32(sequence.len() as u32));
    assert(first.subrange(20, 40) =~= Seq::new(20, |i: int| 0u8));
    assert(first.subrange(40, 44) =~= le32(1));
}

proof fn lemma_children_prefix(ch: Seq<ChunkModel>, j: int)
    requires
        0 <= j <= ch.len(),
        children_encoding(ch.subrange(0, j)) is Some,
    ensures
        ({
            let p = children_encoding(ch.subrange(0, j)).unwrap();
            &&& children_written(ch).len() >= p.len()
            &&& children_written(ch).subrange(0, p.len() as int) == p
            &&& children_encoding(ch) matches Some(b) ==> b.len() >= p.len() && b.subrange(0, p.len() as int) == p
        }),
    decreases j,
{
    let p = children_encoding(ch.subrange(0, j)).unwrap();
    if j == 0 {
        assert(ch.subrange(0, 0) =~= Seq::<ChunkModel>::empty());
        assert(p =~= Seq::<u8>::empty());
        assert(children_written(ch).subrange(0, 0) =~= p);
        if let Some(b) = children_encoding(ch) {
            assert(b.subrange(0, 0) =~= p);
        }
    } else {
        let t = ch.subrange(1, ch.len() as int);
        let q = ch.subrange(0, j);
        assert(q[0] == ch[0]);
        assert(q.subrange(1, j) =~= t.subrange(0, j - 1));
        let f = model_encoding(ch[0]).unwrap();
        let pt = children_encoding(t.subrange(0, j - 1)).unwrap();
        assert(p == f + pt);
        lemma_children_prefix(t, j - 1);
        lemma_model_written_encoding(ch[0]);
        assert(children_written(ch) == f + children_written(t));
        assert(children_written(ch).subrange(0, p.len() as int) =~= f + children_written(t).subrange(
            0,
            pt.len() as int,
        ));
        if let Some(b) = children_encoding(ch) {
            let bt = children_encoding(t).unwrap();
            assert(b == f + bt);
            assert(b.subrange(0, p.len() as int) =~= f + bt.subrange(0, pt.len() as int));
        }
    }
}

/// What writing an ANI file leaves in the output holds, after the header
/// chunk, the frame rates chunk at byte 56 (`rate`, the size of its data,
/// and each rate given, in order, four bytes each) and right after it the
/// sequence chunk (`seq `, the size of its data, and each index of the
/// sequence given, in order, four bytes each).
pub proof fn lemma_ani_rate_and_sequence(icons: Seq<DirModel>, rates: Seq<u32>, sequence: Seq<u32>)
    requires
        4 * rates.len() <= u32::MAX,
        4 * sequence.len() <= u32::MAX,
    ensures
        ({
            let w = model_written(ani_model(icons, rates, sequence));
            let r = 4 * rates.len();
            let q: int = 64 + r as int;
            &&& w.len() >= q + 8 + 4 * sequence.len()
            &&& w.subrange(56, 60) == rate_tag()
            &&& w.subrange(60, 64) == le32(r as u32)
            &&& forall|i: int| 0 <= i < rates.len() ==> #[trigger] w.subrange(64 + 4 * i, 68 + 4 * i) == le32(rates[i])
            &&& w.subrange(q, q + 4) == seq_tag()
            &&& w.subrange(q + 4, q + 8) == le32((4 * sequence.len()) as u32)
            &&& forall|i: int|
                0 <= i < sequence.len() ==> #[trigger] w.subrange(q + 8 + 4 * i, q + 12 + 4 * i) == le32(sequence[i])
        }),
{
    let e0 = anih_tag() + le32(36) + anih_data(icons.len() as u32, sequence.len() as u32);
    lemma_ani_first_chunks(icons, rates, sequence);
    lemma_ani_words(model_written(ani_model(icons, rates, sequence)), e0, rates, sequence);
}

proof fn lemma_ani_words(w: Seq<u8>, e0: Seq<u8>, rates: Seq<u32>, sequence: Seq<u32>)
    requires
        e0.len() == 44,
        4 * rates.len() <= u32::MAX,
        4 * sequence.len() <= u32::MAX,
        ({
            let p = e0 + (rate_tag() + le32((4 * rates.len()) as u32) + le32_all(rates)) + (seq_tag() + le32(
                (4 * sequence.len()) as u32,
            ) + le32_all(sequence));
            &&& w.len() >= 12 + p.len()
            &&& w.subrange(12, 12 + p.len() as int) == p
        }),
    ensures
        ({
            let r = 4 * rates.len();
            let q: int = 64 + r as int;
            &&& w.len() >= q + 8 + 4 * sequence.len()
            &&& w.subrange(56, 60) == rate_tag()
            &&& w.subrange(60, 64) == le32(r as u32)
            &&& forall|i: int| 0 <= i < rates.len() ==> #[trigger] w.subrange(64 + 4 * i, 68 + 4 * i) == le32(rates[i])
            &&& w.subrange(q, q + 4) == seq_tag()
            &&& w.subrange(q + 4, q + 8) == le32((4 * sequence.len()) as u32)
            &&& forall|i: int|
                0 <= i < sequence.len() ==> #[trigger] w.subrange(q + 8 + 4 * i, q + 12 + 4 * i) == le32(sequence[i])
        }),
{
    let rd = le32_all(rates);
    let sd = le32_all(sequence);
    lemma_le32_all_len(rates);
    lemma_le32_all_len(sequence);
    let r = 4 * rates.len();
    let n = 4 * sequence.len();
    let q: int = 64 + r as int;
    let e1 = rate_tag() + le32(r as u32) + rd;
    let e2 = seq_tag() + le32(n as u32) + sd;
    let p = e0 + e1 + e2;
    assert(w.subrange(56, 60) =~= p.subrange(44, 48));
    assert(p.subrange(44, 48) =~= rate_tag());
    assert(w.subrange(60, 64) =~= p.subrange(48, 52));
    assert(p.subrange(48, 52) =~= le32(r as u32));
    let wr = w.subrange(64, q);
    assert(wr =~= p.subrange(52, 52 + r as int));
    assert(p.subrange(52, 52 + r as int) =~= rd);
    assert forall|i: int| 0 <= i < rates.len() implies #[trigger] w.subrange(64 + 4 * i, 68 + 4 * i) == le32(
        rates[i],
    ) by {
        lemma_le32_all_at(rates, i);
        assert(w.subrange(64 + 4 * i, 68 + 4 * i) =~= wr.subrange(4 * i, 4 * i + 4));
    }
    assert(w.subrange(q, q + 4) =~= p.subrange(q - 12, q - 8));
    assert(p.subrange(q - 12, q - 8) =~= seq_tag());
    assert(w.subrange(q + 4, q + 8) =~= p.subrange(q - 8, q - 4));
    assert(p.subrange(q - 8, q - 4) =~= le32(n as u32));
    let ws = w.subrange(q + 8, q + 8 + n);
    assert(ws =~= p.subrange(q - 4, q - 4 + n));
    assert(p.subrange(q - 4, q - 4 + n) =~= sd);
    assert forall|i: int| 0 <= i < sequence.len() implies #[trigger] w.subrange(q + 8 + 4 * i, q + 12 + 4 * i)
        == le32(sequence[i]) by {
        lemma_le32_all_at(sequence, i);
        assert(w.subrange(q + 8 + 4 * i, q + 12 + 4 * i) =~= ws.subrange(4 * i, 4 * i + 4));
    }
}

proof fn lemma_ani_first_chunks(icons: Seq<DirModel>, rates: Seq<u32>, sequence: Seq<u32>)
    requires
        4 * rates.len() <= u32::MAX,
        4 * sequence.len() <= u32::MAX,
    ensures
        ({
            let w = model_written(ani_model(icons, rates, sequence));
            let p = (anih_tag() + le32(36) + anih_data(icons.len() as u32, sequence.len() as u32)) + (rate_tag()
                + le32((4 * rates.len()) as u32) + le32_all(rates)) + (seq_tag() + le32((4 * sequence.len()) as u32)
                + le32_all(sequence));
            &&& w.len() >= 12 + p.len()
            &&& w.subrange(12, 12 + p.len() as int) == p
        }),
{
    let m = ani_model(icons, rates, sequence);
    let ch = m->Parent_2;
    let data = anih_data(icons.len() as u32, sequence.len() as u32);
    lemma_le32_all_len(rates);
    lemma_le32_all_len(sequence);
    let r = 4 * rates.len();
    let n = 4 * sequence.len();
    assert(data.len() == 36);
    assert(pad(36) =~= Seq::<u8>::empty());
    assert(pad(r) =~= Seq::<u8>::empty());
    assert(pad(n) =~= Seq::<u8>::empty());
    let e0 = anih_tag() + le32(36) + data;
    let e1 = rate_tag() + le32(r as u32) + le32_all(rates);
    let e2 = seq_tag() + le32(n as u32) + le32_all(sequence);
    assert(model_encoding(ch[0]) == Some(e0));
    assert(model_encoding(ch[1]) == Some(e1));
    assert(model_encoding(ch[2]) == Some(e2));
    let z = Seq::<ChunkModel>::empty();
    lemma_children_encoding_push(z, ch[0]);
    lemma_children_encoding_push(z.push(ch[0]), ch[1]);
    lemma_children_encoding_push(z.push(ch[0]).push(ch[1]), ch[2]);
    assert(ch.subrange(0, 3) =~= z.push(ch[0]).push(ch[1]).push(ch[2]));
    assert(Seq::<u8>::empty() + e0 =~= e0);
    assert(children_encoding(ch.subrange(0, 3)) == Some(e0 + e1 + e2));
    lemma_written_children_prefix(riff_tag(), acon_tag(), ch, 3);
}

/// What writing a container leaves in the output has its type at bytes 8
/// to 12 and then the bytes of its first `j` chunks, where those can be
/// written.
proof fn lemma_written_children_prefix(kind: Seq<u8>, id: Seq<u8>, ch: Seq<ChunkModel>, j: int)
    requires
        kind.len() == 4,
        id.len() == 4,
        0 <= j <= ch.len(),
        children_encoding(ch.subrange(0, j)) is Some,
    ensures
        ({
            let p = children_encoding(ch.subrange(0, j)).unwrap();
            let w = model_written(ChunkModel::Parent(kind, id, ch));
            &&& w.len() >= 12 + p.len()
            &&& w.subrange(8, 12) == id
            &&& w.subrange(12, 12 + p.len() as int) == p
        }),
{
    let p = children_encoding(ch.subrange(0, j)).unwrap();
    let w = model_written(ChunkModel::Parent(kind, id, ch));
    lemma_children_prefix(ch, j);
    if let Some(body) = children_encoding(ch) {
        if 4 + body.len() > u32::MAX {
            assert(w == le32(0) + le32(0) + id + body);
        } else {
            let d = 4 + body.len();
            assert(w == kind + le32(d as u32) + id + body + pad(d));
        }
        assert(w.subrange(8, 12) =~= id);
        assert(w.subrange(12, 12 + p.len() as int) =~= body.subrange(0, p.len() as int));
    } else {
        assert(w == le32(0) + le32(0) + id + children_written(ch));
        assert(w.subrange(8, 12) =~= id);
        assert(w.subrange(12, 12 + p.len() as int) =~= children_written(ch).subrange(0, p.len() as int));
    }
}

/// An animated cursor file.
pub struct AniFile(ChunkValue);

/// The bytes of every value, four little-endian bytes each.
fn le32_bytes(values: &Vec<u32>) -> (out: Vec<u8>)
    ensures
        out@ == le32_all(values@),
{
    let mut out: Vec<u8> = Vec::new();
    let mut i: usize = 0;
    while i < values.len()
        invariant
            i <= values@.len(),
            out@ == le32_all(values@.take(i as int)),
        decreases values@.len() - i,
    {
        push_le32(&mut out, values[i]);
        proof {
            assert(values@.take(i + 1).drop_last() =~= values@.take(i as int));
        }
        i = i + 1;
    }
    proof {
        assert(values@.take(values@.len() as int) =~= values@);
    }
    out
}

/// The header chunk.
fn header_chunk(icons_len: u32, sequence_len: u32) -> (c: ChunkValue)
    ensures
        chunk_model(c) == ChunkModel::Child(anih_tag(), anih_data(icons_len, sequence_len)),
        chunk_model(c) matches ChunkModel::Child(_, d) && d.len() == 36 && d.subrange(0, 4) == le32(36)
            && d.subrange(4, 8) == le32(icons_len) && d.subrange(8, 12) == le32(sequence_len)
            && d.subrange(32, 36) == le32(1),
{
    let mut data: Vec<u8> = Vec::new();
    push_le32(&mut data, 36);
    push_le32(&mut data, icons_len);
    push_le32(&mut data, sequence_len);
    let mut k: usize = 0;
    let ghost base = data@;
    while k < 20
        invariant
            k <= 20,
            data@ == base + Seq::new(k as nat, |i: int| 0u8),
        decreases 20 - k,
    {
        data.push(0);
        proof {
            assert(data@ =~= base + Seq::new((k + 1) as nat, |i: int| 0u8));
        }
        k = k + 1;
    }
    push_le32(&mut data, 1);
    let id = ChunkId([0x61, 0x6E, 0x69, 0x68]);
    assert(id.0@ =~= anih_tag());
    assert(data@ =~= anih_data(icons_len, sequence_len));
    assert(data@.subrange(0, 4) =~= le32(36));
    assert(data@.subrange(4, 8) =~= le32(icons_len));
    assert(data@.subrange(8, 12) =~= le32(sequence_len));
    assert(data@.subrange(32, 36) =~= le32(1));
    ChunkValue::Child(id, data)
}

/// The frame rates chunk.
fn rates_chunk(rates: Vec<u32>) -> (c: ChunkValue)
    ensures
        chunk_model(c) == ChunkModel::Child(rate_tag(), le32_all(rates@)),
{
    let id = ChunkId([0x72, 0x61, 0x74, 0x65]);
    assert(id.0@ =~= rate_tag());
    ChunkValue::Child(id, le32_bytes(&rates))
}

/// The frame sequence chunk.
fn sequence_chunk(sequence: Vec<u32>) -> (c: ChunkValue)
    ensures
        chunk_model(c) == ChunkModel::Child(seq_tag(), le32_all(sequence@)),
{
    let id = ChunkId([0x73, 0x65, 0x71, 0x20]);
    assert(id.0@ =~= seq_tag());
    ChunkValue::Child(id, le32_bytes(&sequence))
}

/// The frames list: each icon written out as a CUR file in an `icon` chunk.
fn frames_chunk(icons: Vec<CurFile>) -> (c: ChunkValue)
    requires
        forall|i: int|
            0 <= i < icons@.len() ==> offsets_fit(#[trigger] icons@[i].model()) && dir_size(
                icons@[i].model(),
            ) <= usize::MAX,
    ensures
        chunk_model(c) == ChunkModel::Parent(
            list_tag(),
            fram_tag(),
            icons@.map_values(|f: CurFile| f.model()).map_values(
                |d: DirModel| ChunkModel::Child(icon_tag(), dir_encoding(2, d)),
            ),
        ),
{
    let ghost want = icons@.map_values(|f: CurFile| f.model()).map_values(
        |d: DirModel| ChunkModel::Child(icon_tag(), dir_encoding(2, d)),
    );
    let mut icons = icons;
    let mut children: Vec<ChunkValue> = Vec::new();
    while icons.len() > 0
        invariant
            want.len() == children@.len() + icons@.len(),
            children_models(children@) == want.take(children@.len() as int),
            forall|i: int|
                0 <= i < icons@.len() ==> offsets_fit(#[trigger] icons@[i].model()) && dir_size(
                    icons@[i].model(),
                ) <= usize::MAX,
            forall|i: int|
                0 <= i < icons@.len() ==> ChunkModel::Child(icon_tag(), dir_encoding(2, (#[trigger] icons@[i]).model()))
                    == want[children@.len() + i],
        decreases icons@.len(),
    {
        let icon = icons.remove(0);
        let ghost m = icon.model();
        let mut buffer: Vec<u8> = Vec::with_capacity(icon.exact_size());
        icon.write(&mut buffer);
        let id = ChunkId([0x69, 0x63, 0x6F, 0x6E]);
        assert(id.0@ =~= icon_tag());
        let child = ChunkValue::Child(id, buffer);
        proof {
            lemma_children_models_push(children@, child);
        }
        children.push(child);
        proof {
            assert(want.take(children@.len() as int) =~= want.take(children@.len() - 1).push(
                want[children@.len() - 1],
            ));
        }
    }
    assert(want.take(children@.len() as int) =~= want);
    let list = ChunkId::list();
    let id = ChunkId([0x66, 0x72, 0x61, 0x6D]);
    assert(id.0@ =~= fram_tag());
    ChunkValue::Parent(list, id, children)
}

impl AniFile {
    /// The chunk tree of the file.
    pub closed spec fn model(&self) -> ChunkModel {
        chunk_model(self.0)
    }

    /// Constructs a new `AniFile`.
    ///
    /// There must be no more icons than indices in `sequence`, and each icon
    /// must be writable.
    pub fn new(icons: Vec<CurFile>, rates: Vec<u32>, sequence: Vec<u32>) -> (f: Self)
        requires
            icons@.len() <= sequence@.len(),
            sequence@.len() <= u32::MAX,
            forall|i: int|
                0 <= i < icons@.len() ==> offsets_fit(#[trigger] icons@[i].model()) && dir_size(
                    icons@[i].model(),
                ) <= usize::MAX,
        ensures
            f.model() == ani_model(icons@.map_values(|c: CurFile| c.model()), rates@, sequence@),
            f.model() matches ChunkModel::Parent(_, _, ch) && ch.len() == 4 && (ch[0] matches ChunkModel::Child(
                id,
                d,
            ) && id == anih_tag() && d.subrange(4, 8) == le32(icons@.len() as u32) && d.subrange(8, 12) == le32(
                sequence@.len() as u32,
            )),
    {
        let icons_len = icons.len() as u32;
        let sequence_len = sequence.len() as u32;
        let ghost models = icons@.map_values(|c: CurFile| c.model());
        let ghost r = rates@;
        let ghost s = sequence@;
        let header = header_chunk(icons_len, sequence_len);
        assert(models.len() == icons_len && s.len() == sequence_len);
        let rates_c = rates_chunk(rates);
        let sequence_c = sequence_chunk(sequence);
        let frames = frames_chunk(icons);
        let children = vec![header, rates_c, sequence_c, frames];
        proof {
            lemma_children_models(children@);
            assert(children_models(children@) =~= seq![
                ChunkModel::Child(anih_tag(), anih_data(models.len() as u32, s.len() as u32)),
                ChunkModel::Child(rate_tag(), le32_all(r)),
                ChunkModel::Child(seq_tag(), le32_all(s)),
                ChunkModel::Parent(
                    list_tag(),
                    fram_tag(),
                    models.map_values(|d: DirModel| ChunkModel::Child(icon_tag(), dir_encoding(2, d))),
                ),
            ]);
        }
        let riff = ChunkId::riff();
        let acon = ChunkId([0x41, 0x43, 0x4F, 0x4E]);
        assert(acon.0@ =~= acon_tag());
        AniFile(ChunkValue::Parent(riff, acon, children))
    }

    /// Writes an ANI file to `out`, returning how many bytes were written.
    ///
    /// Fails with `DataTooLong` when a chunk is longer than its size field
    /// can say; what was written up to then stays in `out`, the headers of
    /// the unfinished chunks still zero.
    pub fn write(self, out: &mut Vec<u8>) -> (r: Result<usize, WriteError>)
        ensures
            model_encoding(self.model()) is Some <==> r is Ok,
            final(out)@ == old(out)@ + model_written(self.model()),
            r matches Ok(n) ==> model_written(self.model()) == model_encoding(self.model()).unwrap()
                && n == model_encoding(self.model()).unwrap().len(),
    {
        self.0.write(out)
    }

    /// Returns how many bytes [`write`] writes.
    ///
    /// [`write`]: Self::write
    pub fn exact_size(&self) -> (n: usize)
        requires
            model_size(self.model()) <= usize::MAX,
        ensures
            n == model_size(self.model()),
    {
        self.0.exact_size()
    }
}

} // verus!
