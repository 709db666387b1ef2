//! RIFF chunk trees with named leaves: a chunk is either a parent (`RIFF` or
//! `LIST`) holding sub-chunks, or a child holding raw data under its own
//! identifier.
//!
//! On disk a chunk is its identifier, the little-endian length of its data,
//! the data, and one zero pad byte when that length is odd. A parent's data is
//! its own identifier followed by its sub-chunks.

use vstd::prelude::*;

use super::chunk_id::{list_tag, riff_tag, ChunkId, ReadError};
use crate::bytes::{le32, le32_value, push_all, push_le32, read_le32, set_le32};

verus! {

/// A RIFF chunk.
#[derive(Debug, PartialEq, Eq)]
pub enum ChunkValue {
    /// A container (`RIFF` or `LIST`), its own identifier, and its sub-chunks.
    Parent(ChunkId, ChunkId, Vec<ChunkValue>),
    /// A leaf: its identifier and its data.
    Child(ChunkId, Vec<u8>),
}

/// What a chunk means: the same tree with byte sequences in place of arrays
/// and vectors.
pub enum ChunkModel {
    Parent(Seq<u8>, Seq<u8>, Seq<ChunkModel>),
    Child(Seq<u8>, Seq<u8>),
}

/// The model of a chunk.
pub open spec fn chunk_model(c: ChunkValue) -> ChunkModel
    decreases c,
{
    match c {
        ChunkValue::Parent(kind, id, children) => ChunkModel::Parent(
            kind.0@,
            id.0@,
            children_models(children@),
        ),
        ChunkValue::Child(id, data) => ChunkModel::Child(id.0@, data@),
    }
}

/// The models of a sequence of chunks.
pub open spec fn children_models(s: Seq<ChunkValue>) -> Seq<ChunkModel>
    decreases s,
{
    if s.len() == 0 {
        Seq::empty()
    } else {
        seq![chunk_model(s[0])] + children_models(s.subrange(1, s.len() as int))
    }
}

impl View for ChunkValue {
    type V = ChunkModel;

    open spec fn view(&self) -> ChunkModel {
        chunk_model(*self)
    }
}

/// Whether every identifier in the tree is four bytes long, as it is in every
/// model of a `ChunkValue`.
pub open spec fn model_wf(m: ChunkModel) -> bool
    decreases m,
{
    match m {
        ChunkModel::Parent(kind, id, children) => kind.len() == 4 && id.len() == 4
            && children_wf(children),
        ChunkModel::Child(id, _) => id.len() == 4,
    }
}

/// Whether every chunk of a sequence is well formed.
pub open spec fn children_wf(s: Seq<ChunkModel>) -> bool
    decreases s,
{
    if s.len() == 0 {
        true
    } else {
        model_wf(s[0]) && children_wf(s.subrange(1, s.len() as int))
    }
}

/// The pad byte that follows data of odd length.
pub open spec fn pad(d: nat) -> Seq<u8> {
    if d % 2 == 1 {
        seq![0u8]
    } else {
        Seq::empty()
    }
}

/// The number of bytes that a chunk takes on disk.
pub open spec fn model_size(m: ChunkModel) -> nat
    decreases m,
{
    match m {
        ChunkModel::Parent(_, _, children) => {
            let d = 4 + children_size(children);
            8 + d + d % 2
        },
        ChunkModel::Child(_, data) => 8 + data.len() + data.len() % 2,
    }
}

/// The number of bytes that a sequence of chunks takes on disk.
pub open spec fn children_size(s: Seq<ChunkModel>) -> nat
    decreases s,
{
    if s.len() == 0 {
        0
    } else {
        model_size(s[0]) + children_size(s.subrange(1, s.len() as int))
    }
}

/// The bytes of a chunk, or `None` when the data of the chunk or of one of its
/// sub-chunks is longer than `u32::MAX` bytes.
pub open spec fn model_encoding(m: ChunkModel) -> Option<Seq<u8>>
    decreases m,
{
    match m {
        ChunkModel::Parent(kind, id, children) => match children_encoding(children) {
            None => None,
            Some(body) => {
                let d = 4 + body.len();
                if d > u32::MAX {
                    None
                } else {
                    Some(kind + le32(d as u32) + id + body + pad(d))
                }
            },
        },
        ChunkModel::Child(id, data) => {
            let d = data.len();
            if d > u32::MAX {
                None
            } else {
                Some(id + le32(d as u32) + data + pad(d))
            }
        },
    }
}

/// The bytes of a sequence of chunks, one after the other.
pub open spec fn children_encoding(s: Seq<ChunkModel>) -> Option<Seq<u8>>
    decreases s,
{
    if s.len() == 0 {
        Some(Seq::empty())
    } else {
        match model_encoding(s[0]) {
            None => None,
            Some(first) => match children_encoding(s.subrange(1, s.len() as int)) {
                None => None,
                Some(rest) => Some(first + rest),
            },
        }
    }
}

/// The bytes that writing a chunk leaves in the output: its bytes where it
/// can be written; where its data, or that of a chunk in it, is too long,
/// the eight placeholder bytes of each unfinished chunk and what was
/// written after them up to the failure.
pub open spec fn model_written(m: ChunkModel) -> Seq<u8>
    decreases m,
{
    match m {
        ChunkModel::Parent(kind, id, children) => match children_encoding(children) {
            Some(body) => if 4 + body.len() > u32::MAX {
                le32(0) + le32(0) + id + body
            } else {
                let d = 4 + body.len();
                kind + le32(d as u32) + id + body + pad(d)
            },
            None => le32(0) + le32(0) + id + children_written(children),
        },
        ChunkModel::Child(id, data) => if data.len() > u32::MAX {
            le32(0) + le32(0) + data
        } else {
            id + le32(data.len() as u32) + data + pad(data.len())
        },
    }
}

/// The bytes that writing a sequence of chunks leaves in the output: each
/// chunk in turn, up to and including the first that cannot be written.
pub open spec fn children_written(s: Seq<ChunkModel>) -> Seq<u8>
    decreases s,
{
    if s.len() == 0 {
        Seq::empty()
    } else if model_encoding(s[0]) is Some {
        model_written(s[0]) + children_written(s.subrange(1, s.len() as int))
    } else {
        model_written(s[0])
    }
}

/// Where a chunk can be written, what is written is its bytes.
pub proof fn lemma_model_written_encoding(m: ChunkModel)
    ensures
        model_encoding(m) matches Some(b) ==> model_written(m) == b,
    decreases m,
{
    match m {
        ChunkModel::Parent(_, _, children) => lemma_children_written_encoding(children),
        ChunkModel::Child(_, _) => {},
    }
}

/// Where a sequence of chunks can be written, what is written is their
/// bytes.
pub proof fn lemma_children_written_encoding(s: Seq<ChunkModel>)
    ensures
        children_encoding(s) matches Some(b) ==> children_written(s) == b,
    decreases s,
{
    if s.len() > 0 {
        lemma_model_written_encoding(s[0]);
        lemma_children_written_encoding(s.subrange(1, s.len() as int));
    }
}

/// Where the first `i` chunks can be written and chunk `i` cannot, writing
/// the sequence leaves the bytes of the first `i`, then what writing chunk
/// `i` leaves.
pub proof fn lemma_children_written_at(s: Seq<ChunkModel>, i: int)
    requires
        0 <= i < s.len(),
        children_encoding(s.subrange(0, i)) is Some,
        model_encoding(s[i]) is None,
    ensures
        children_written(s) == children_encoding(s.subrange(0, i)).unwrap() + model_written(s[i]),
    decreases i,
{
    if i == 0 {
        assert(children_encoding(s.subrange(0, 0)) == Some(Seq::<u8>::empty()));
        assert(children_written(s) =~= Seq::<u8>::empty() + model_written(s[0]));
    } else {
        let t = s.subrange(1, s.len() as int);
        let p = s.subrange(0, i);
        assert(p[0] == s[0]);
        assert(p.subrange(1, p.len() as int) =~= t.subrange(0, i - 1));
        assert(t[i - 1] == s[i]);
        lemma_model_written_encoding(s[0]);
        lemma_children_written_at(t, i - 1);
        let f = model_encoding(s[0]).unwrap();
        let q = children_encoding(t.subrange(0, i - 1)).unwrap();
        assert(children_encoding(p) == Some(f + q));
        assert(children_written(s) =~= (f + q) + model_written(s[i]));
    }
}

/// Whether a chunk identifier names a container.
pub open spec fn is_container(id: Seq<u8>) -> bool {
    id == riff_tag() || id == list_tag()
}

/// Reading one chunk from the start of `s`: the chunk and the number of bytes
/// read, or `None` when the input ends too early.
///
/// A chunk whose identifier is `RIFF` or `LIST` is read as a parent: after
/// its own identifier, sub-chunks are read while the sizes of those read so
/// far (plus four) stay below the declared length. Any other chunk is read as
/// a child, whose data is cut short where the input ends. Either way, a pad
/// byte is read after an odd declared length.
pub open spec fn parse_chunk(s: Seq<u8>) -> Option<(ChunkModel, nat)>
    decreases s.len(), 0nat,
{
    if s.len() < 8 {
        None
    } else {
        let id = s.subrange(0, 4);
        let d = le32_value(s.subrange(4, 8)) as nat;
        if is_container(id) {
            if s.len() < 12 {
                None
            } else {
                match parse_children(s.subrange(12, s.len() as int), d, 4) {
                    None => None,
                    Some((children, n)) => {
                        let pos = 12 + n;
                        let m = ChunkModel::Parent(id, s.subrange(8, 12), children);
                        if d % 2 == 1 {
                            if s.len() > pos {
                                Some((m, pos + 1))
                            } else {
                                None
                            }
                        } else {
                            Some((m, pos))
                        }
                    },
                }
            }
        } else {
            let avail = (s.len() - 8) as nat;
            let take = if d <= avail {
                d
            } else {
                avail
            };
            let pos = 8 + take;
            let m = ChunkModel::Child(id, s.subrange(8, pos as int));
            if d % 2 == 1 {
                if s.len() > pos {
                    Some((m, pos + 1))
                } else {
                    None
                }
            } else {
                Some((m, pos))
            }
        }
    }
}

/// Reading the sub-chunks of a parent whose declared length is `d`, when the
/// sizes of those read so far (plus four) add up to `done`.
pub open spec fn parse_children(s: Seq<u8>, d: nat, done: nat) -> Option<(Seq<ChunkModel>, nat)>
    decreases s.len(), 1nat,
{
    if done >= d {
        Some((Seq::empty(), 0))
    } else {
        match parse_chunk(s) {
            None => None,
            Some((c, n)) => if n == 0 || n > s.len() {
                None
            } else {
                match parse_children(s.subrange(n as int, s.len() as int), d, done + model_size(c)) {
                    None => None,
                    Some((rest, m)) => Some((seq![c] + rest, n + m)),
                }
            },
        }
    }
}


/// Why writing a chunk failed: the data of a chunk, or of one of its
/// sub-chunks, is longer than `u32::MAX` bytes.
#[derive(Debug, Clone, Copy, PartialEq, Eq)]
pub enum WriteError {
    DataTooLong,
}

/// The models of a sequence of chunks are the models of its elements, one by
/// one.
pub proof fn lemma_children_models(s: Seq<ChunkValue>)
    ensures
        children_models(s).len() == s.len(),
        forall|i: int| 0 <= i < s.len() ==> #[trigger] children_models(s)[i] == chunk_model(s[i]),
    decreases s.len(),
{
    if s.len() > 0 {
        let t = s.subrange(1, s.len() as int);
        lemma_children_models(t);
        assert forall|i: int| 0 <= i < s.len() implies #[trigger] children_models(s)[i] == chunk_model(
            s[i],
        ) by {
            if i > 0 {
                assert(s[i] == t[i - 1]);
            }
        }
    }
}

/// Appending a chunk adds its size.
pub proof fn lemma_children_size_push(s: Seq<ChunkModel>, x: ChunkModel)
    ensures
        children_size(s.push(x)) == children_size(s) + model_size(x),
    decreases s.len(),
{
    if s.len() == 0 {
        assert(s.push(x).subrange(1, 1) =~= Seq::<ChunkModel>::empty());
        assert(children_size(Seq::<ChunkModel>::empty()) == 0);
    } else {
        let t = s.subrange(1, s.len() as int);
        assert(s.push(x).subrange(1, s.push(x).len() as int) =~= t.push(x));
        assert(s.push(x)[0] == s[0]);
        lemma_children_size_push(t, x);
    }
}

/// Appending a chunk appends its bytes.
pub proof fn lemma_children_encoding_push(s: Seq<ChunkModel>, x: ChunkModel)
    ensures
        children_encoding(s.push(x)) == match (children_encoding(s), model_encoding(x)) {
            (Some(a), Some(b)) => Some(a + b),
            _ => None::<Seq<u8>>,
        },
    decreases s.len(),
{
    if s.len() == 0 {
        assert(s.push(x).subrange(1, 1) =~= Seq::<ChunkModel>::empty());
        assert(children_encoding(Seq::<ChunkModel>::empty()) == Some(Seq::<u8>::empty()));
        if let Some(b) = model_encoding(x) {
            assert(b + Seq::<u8>::empty() =~= Seq::<u8>::empty() + b);
        }
    } else {
        let t = s.subrange(1, s.len() as int);
        assert(s.push(x).subrange(1, s.push(x).len() as int) =~= t.push(x));
        assert(s.push(x)[0] == s[0]);
        lemma_children_encoding_push(t, x);
        if let (Some(f), Some(r), Some(b)) = (model_encoding(s[0]), children_encoding(t), model_encoding(x)) {
            assert(f + (r + b) =~= (f + r) + b);
        }
    }
}

/// The bytes of a chunk are as many as its size.
pub proof fn lemma_encoding_len(m: ChunkModel)
    requires
        model_wf(m),
    ensures
        model_encoding(m) matches Some(b) ==> b.len() == model_size(m),
    decreases m,
{
    match m {
        ChunkModel::Parent(_, _, children) => {
            lemma_children_encoding_len(children);
        },
        ChunkModel::Child(_, _) => {},
    }
}

/// The bytes of a sequence of chunks are as many as its size.
pub proof fn lemma_children_encoding_len(s: Seq<ChunkModel>)
    requires
        children_wf(s),
    ensures
        children_encoding(s) matches Some(b) ==> b.len() == children_size(s),
    decreases s,
{
    if s.len() > 0 {
        lemma_encoding_len(s[0]);
        lemma_children_encoding_len(s.subrange(1, s.len() as int));
    }
}

/// The model of every chunk is well formed.
pub proof fn lemma_model_wf(c: ChunkValue)
    ensures
        model_wf(chunk_model(c)),
    decreases c,
{
    match c {
        ChunkValue::Parent(_, _, children) => {
            lemma_children_models_wf(children@);
        },
        ChunkValue::Child(_, _) => {},
    }
}

/// The models of a sequence of chunks are well formed.
pub proof fn lemma_children_models_wf(s: Seq<ChunkValue>)
    ensures
        children_wf(children_models(s)),
    decreases s,
{
    if s.len() > 0 {
        let t = s.subrange(1, s.len() as int);
        lemma_model_wf(s[0]);
        lemma_children_models_wf(t);
        let ms = children_models(s);
        assert(ms[0] == chunk_model(s[0]));
        assert(ms.subrange(1, ms.len() as int) =~= children_models(t));
    }
}

impl ChunkValue {
    /// Returns how many bytes [`write`] writes for this chunk.
    ///
    /// [`write`]: Self::write
    #[verifier::loop_isolation(false)]
    pub fn exact_size(&self) -> (n: usize)
        requires
            model_size(self@) <= usize::MAX,
        ensures
            n == model_size(self@),
        decreases self,
    {
        match self {
            ChunkValue::Parent(_, _, children) => {
                let ghost ms = children_models(children@);
                proof {
                    lemma_children_models(children@);
                }
                let mut acc: usize = 4;
                let mut i: usize = 0;
                while i < children.len()
                    invariant
                        i <= children@.len(),
                        ms == children_models(children@),
                        ms.len() == children@.len(),
                        forall|j: int| 0 <= j < children@.len() ==> #[trigger] ms[j] == chunk_model(children@[j]),
                        8 + (4 + children_size(ms)) + (4 + children_size(ms)) % 2 <= usize::MAX,
                        acc == 4 + children_size(ms.subrange(0, i as int)),
                    decreases children@.len() - i,
                {
                    proof {
                        lemma_children_size_push(ms.subrange(0, i as int), ms[i as int]);
                        assert(ms.subrange(0, i as int).push(ms[i as int]) =~= ms.subrange(0, i + 1));
                        lemma_children_size_prefix(ms, i + 1);
                        lemma_children_size_prefix(ms, i as int);
                    }
                    proof {
                        assert(*children == (*self)->2);
                        assert(decreases_to!(*self => (*self)->2));
                        assert(decreases_to!(*children => children@));
                        vstd::seq::axiom_seq_index_decreases(children@, i as int);
                        assert(decreases_to!(children@ => children@[i as int]));
                    }
                    let n = children[i].exact_size();
                    acc = acc + n;
                    i = i + 1;
                }
                assert(ms.subrange(0, i as int) =~= ms);
                8 + acc + acc % 2
            },
            ChunkValue::Child(_, data) => {
                let d = data.len();
                8 + d + d % 2
            },
        }
    }
}

/// Appends the four bytes of `id` to `out`.
pub fn push_id(out: &mut Vec<u8>, id: &ChunkId)
    ensures
        final(out)@ == old(out)@ + id.0@,
{
    out.push(id.0[0]);
    out.push(id.0[1]);
    out.push(id.0[2]);
    out.push(id.0[3]);
    assert(final(out)@ =~= old(out)@ + id.0@);
}

/// Overwrites the four bytes of `out` at `pos` with `id`.
fn set_id(out: &mut Vec<u8>, pos: usize, id: &ChunkId)
    requires
        pos + 4 <= old(out)@.len(),
    ensures
        final(out)@ == old(out)@.subrange(0, pos as int) + id.0@ + old(out)@.subrange(
            pos + 4,
            old(out)@.len() as int,
        ),
{
    let _len = out.len();
    out.set(pos, id.0[0]);
    out.set(pos + 1, id.0[1]);
    out.set(pos + 2, id.0[2]);
    out.set(pos + 3, id.0[3]);
    assert(final(out)@ =~= old(out)@.subrange(0, pos as int) + id.0@ + old(out)@.subrange(
        pos + 4,
        old(out)@.len() as int,
    ));
}

/// Appends the pad byte that follows data of length `d`, if `d` is odd.
fn push_pad(out: &mut Vec<u8>, d: usize)
    ensures
        final(out)@ == old(out)@ + pad(d as nat),
{
    if d % 2 == 1 {
        out.push(0);
    }
    assert(final(out)@ =~= old(out)@ + pad(d as nat));
}

impl ChunkValue {
    /// Writes this chunk to `out`, returning how many bytes were written.
    ///
    /// Fails with `DataTooLong` when the data of this chunk, or of one of its
    /// sub-chunks, is longer than `u32::MAX` bytes; what was written up to
    /// then stays in `out`, the eight header bytes of each unfinished chunk
    /// still zero.
    pub fn write(self, out: &mut Vec<u8>) -> (r: Result<usize, WriteError>)
        ensures
            model_encoding(self@) is Some <==> r is Ok,
            final(out)@ == old(out)@ + model_written(self@),
            r matches Ok(n) ==> model_written(self@) == model_encoding(self@).unwrap()
                && n == model_encoding(self@).unwrap().len(),
    {
        self.write_ref(out)
    }

    #[verifier::loop_isolation(false)]
    #[verifier::rlimit(40)]
    fn write_ref(&self, out: &mut Vec<u8>) -> (r: Result<usize, WriteError>)
        ensures
            model_encoding(self@) is Some <==> r is Ok,
            final(out)@ == old(out)@ + model_written(self@),
            r matches Ok(n) ==> model_written(self@) == model_encoding(self@).unwrap()
                && n == model_encoding(self@).unwrap().len(),
        decreases self,
    {
        let start = out.len();
        proof {
            lemma_model_written_encoding(self@);
        }
        push_le32(out, 0);
        push_le32(out, 0);
        match self {
            ChunkValue::Parent(kind, id, children) => {
                let ghost ms = children_models(children@);
                proof {
                    lemma_children_models(children@);
                }
                push_id(out, id);
                let ghost head = out@;
                assert(head == old(out)@ + le32(0) + le32(0) + id.0@);
                let mut i: usize = 0;
                while i < children.len()
                    invariant
                        i <= children@.len(),
                        children_encoding(ms.subrange(0, i as int)) is Some,
                        out@ == head + children_encoding(ms.subrange(0, i as int)).unwrap(),
                    decreases children@.len() - i,
                {
                    proof {
                        assert(*children == (*self)->2);
                        assert(decreases_to!(*self => (*self)->2));
                        assert(decreases_to!(*children => children@));
                        vstd::seq::axiom_seq_index_decreases(children@, i as int);
                        lemma_children_encoding_push(ms.subrange(0, i as int), ms[i as int]);
                        assert(ms.subrange(0, i as int).push(ms[i as int]) =~= ms.subrange(0, i + 1));
                    }
                    match children[i].write_ref(out) {
                        Ok(_) => {
                            proof {
                                lemma_model_written_encoding(ms[i as int]);
                                assert(out@ =~= head + children_encoding(ms.subrange(0, i + 1)).unwrap());
                            }
                        },
                        Err(e) => {
                            proof {
                                lemma_children_encoding_none(ms, i + 1);
                                lemma_children_written_at(ms, i as int);
                                assert(out@ =~= old(out)@ + model_written(self@));
                            }
                            return Err(e);
                        },
                    }
                    i = i + 1;
                }
                assert(ms.subrange(0, i as int) =~= ms);
                let len = out.len() - start - 12;
                if len > u32::MAX as usize - 4 {
                    assert(out@ =~= old(out)@ + model_written(self@));
                    return Err(WriteError::DataTooLong);
                }
                let d = 4 + len;
                set_id(out, start, kind);
                set_le32(out, start + 4, d as u32);
                push_pad(out, d);
                assert(out@ =~= old(out)@ + model_encoding(self@).unwrap());
                Ok(out.len() - start)
            },
            ChunkValue::Child(id, data) => {
                let d = data.len();
                push_all(out, data.as_slice());
                let _len = out.len();
                if d > u32::MAX as usize {
                    assert(out@ =~= old(out)@ + model_written(self@));
                    return Err(WriteError::DataTooLong);
                }
                set_id(out, start, id);
                set_le32(out, start + 4, d as u32);
                push_pad(out, d);
                assert(out@ =~= old(out)@ + model_encoding(self@).unwrap());
                Ok(out.len() - start)
            },
        }
    }
}

/// Appending a chunk appends its model.
pub proof fn lemma_children_models_push(s: Seq<ChunkValue>, c: ChunkValue)
    ensures
        children_models(s.push(c)) == children_models(s).push(chunk_model(c)),
{
    lemma_children_models(s);
    lemma_children_models(s.push(c));
    assert(children_models(s.push(c)) =~= children_models(s).push(chunk_model(c)));
}

impl ChunkValue {
    /// Reads one chunk from the start of `input`.
    ///
    /// A chunk with the identifier `RIFF` or `LIST` is read as a parent,
    /// whose sub-chunks are read while the sizes of those read so far (plus
    /// four) are below its declared length; any other chunk is read as a
    /// child, whose data stops where `input` ends. A pad byte is skipped after
    /// an odd declared length.
    ///
    /// Fails with `UnexpectedEof` when `input` ends inside a header or before
    /// a pad byte. (`requires` states what holds of every slice.)
    pub fn read(input: &[u8]) -> (r: Result<ChunkValue, ReadError>)
        requires
            input@.len() <= isize::MAX,
        ensures
            parse_chunk(input@) is Some <==> r is Ok,
            r matches Ok(c) ==> c@ == parse_chunk(input@).unwrap().0,
    {
        assert(input@.subrange(0, input@.len() as int) =~= input@);
        match Self::read_at(input, 0) {
            Ok((c, _)) => Ok(c),
            Err(e) => Err(e),
        }
    }

    /// Reads one chunk from `input`, starting at `pos`, returning the chunk
    /// and how many bytes it took.
    pub fn read_at(input: &[u8], pos: usize) -> (r: Result<(ChunkValue, usize), ReadError>)
        requires
            pos <= input@.len(),
            input@.len() <= isize::MAX,
        ensures
            parse_chunk(input@.subrange(pos as int, input@.len() as int)) is Some <==> r is Ok,
            r matches Ok((c, n)) ==> {
                &&& parse_chunk(input@.subrange(pos as int, input@.len() as int)) == Some((c@, n as nat))
                &&& 8 <= n <= input@.len() - pos
                &&& 8 * model_size(c@) <= 9 * n
            },
        decreases input@.len() - pos,
    {
        let ghost s = input@.subrange(pos as int, input@.len() as int);
        let len = input.len();
        if len - pos < 8 {
            return Err(ReadError::UnexpectedEof);
        }
        let kind = ChunkId([input[pos], input[pos + 1], input[pos + 2], input[pos + 3]]);
        let d32 = read_le32(vstd::slice::slice_subrange(input, pos + 4, pos + 8));
        let d = d32 as usize;
        assert(kind.0@ =~= s.subrange(0, 4));
        assert(input@.subrange(pos + 4, pos + 8) =~= s.subrange(4, 8));
        if kind.same(&ChunkId::riff()) || kind.same(&ChunkId::list()) {
            if len - pos < 12 {
                return Err(ReadError::UnexpectedEof);
            }
            let id = ChunkId([input[pos + 8], input[pos + 9], input[pos + 10], input[pos + 11]]);
            assert(id.0@ =~= s.subrange(8, 12));
            let ghost start = input@.subrange(pos + 12, input@.len() as int);
            assert(s.subrange(12, s.len() as int) =~= start);
            let mut children: Vec<ChunkValue> = Vec::new();
            let mut data_read: usize = 4;
            let mut cur: usize = pos + 12;
            assert(children_models(children@) =~= Seq::<ChunkModel>::empty());
            assert(children_size(Seq::<ChunkModel>::empty()) == 0);
            assert(Seq::<ChunkModel>::empty() + Seq::<ChunkModel>::empty() =~= Seq::<ChunkModel>::empty());
            while data_read < d
                invariant
                    pos + 12 <= cur <= input@.len(),
                    input@.len() <= isize::MAX,
                    s == input@.subrange(pos as int, input@.len() as int),
                    s.len() >= 12,
                    is_container(s.subrange(0, 4)),
                    s.subrange(12, s.len() as int) == start,
                    d == le32_value(s.subrange(4, 8)),
                    4 <= data_read,
                    data_read == 4 + children_size(children_models(children@)),
                    8 * (data_read - 4) <= 9 * (cur - pos - 12),
                    start == input@.subrange(pos + 12, input@.len() as int),
                    parse_children(start, d as nat, 4) == match parse_children(
                        input@.subrange(cur as int, input@.len() as int),
                        d as nat,
                        data_read as nat,
                    ) {
                        None => None,
                        Some((rest, m)) => Some(
                            (children_models(children@) + rest, ((cur - pos - 12) + m) as nat),
                        ),
                    },
                decreases input@.len() - cur,
            {
                let ghost t = input@.subrange(cur as int, input@.len() as int);
                let (child, n) = match Self::read_at(input, cur) {
                    Ok(x) => x,
                    Err(e) => {
                        assert(parse_children(t, d as nat, data_read as nat) is None);
                        return Err(e);
                    },
                };
                proof {
                    lemma_model_wf(child);
                    assert(t.subrange(n as int, t.len() as int) =~= input@.subrange(
                        cur + n,
                        input@.len() as int,
                    ));
                    lemma_children_models_push(children@, child);
                    lemma_children_size_push(children_models(children@), child@);
                }
                let sz = child.exact_size();
                let ghost old_models = children_models(children@);
                data_read = data_read + sz;
                children.push(child);
                cur = cur + n;
                proof {
                    let new_models = children_models(children@);
                    assert(new_models == old_models.push(child@));
                    match parse_children(input@.subrange(cur as int, input@.len() as int), d as nat, data_read as nat) {
                        None => {},
                        Some((rest, m)) => {
                            assert(old_models + (seq![child@] + rest) =~= new_models + rest);
                        },
                    }
                }
            }
            let ghost models = children_models(children@);
            assert(parse_children(input@.subrange(cur as int, input@.len() as int), d as nat, data_read as nat)
                == Some((Seq::<ChunkModel>::empty(), 0nat)));
            assert(models + Seq::<ChunkModel>::empty() =~= models);
            let used = cur - pos;
            if d % 2 == 1 {
                if len <= cur {
                    return Err(ReadError::UnexpectedEof);
                }
                Ok((ChunkValue::Parent(kind, id, children), used + 1))
            } else {
                Ok((ChunkValue::Parent(kind, id, children), used))
            }
        } else {
            let avail = len - pos - 8;
            let take = if d <= avail {
                d
            } else {
                avail
            };
            let data = vstd::slice::slice_to_vec(
                vstd::slice::slice_subrange(input, pos + 8, pos + 8 + take),
            );
            assert(data@ =~= s.subrange(8, 8 + take));
            let used = 8 + take;
            if d % 2 == 1 {
                if len - pos <= used {
                    return Err(ReadError::UnexpectedEof);
                }
                Ok((ChunkValue::Child(kind, data), used + 1))
            } else {
                Ok((ChunkValue::Child(kind, data), used))
            }
        }
    }
}

/// Whether reading gives back the same kind of chunk: every parent is a
/// `RIFF` or `LIST` chunk and no child carries either identifier.
pub open spec fn model_readable(m: ChunkModel) -> bool
    decreases m,
{
    match m {
        ChunkModel::Parent(kind, _, children) => is_container(kind) && children_readable(children),
        ChunkModel::Child(id, _) => !is_container(id),
    }
}

/// Whether every chunk of a sequence is readable.
pub open spec fn children_readable(s: Seq<ChunkModel>) -> bool
    decreases s,
{
    if s.len() == 0 {
        true
    } else {
        model_readable(s[0]) && children_readable(s.subrange(1, s.len() as int))
    }
}

/// Reading back the bytes of a chunk, whatever follows them, gives the chunk
/// and the number of its bytes.
pub proof fn lemma_parse_encoding(m: ChunkModel, t: Seq<u8>)
    requires
        model_wf(m),
        model_readable(m),
    ensures
        model_encoding(m) matches Some(b) ==> parse_chunk(b + t) == Some((m, b.len())),
    decreases m,
{
    match m {
        ChunkModel::Parent(kind, id, children) => {
            lemma_children_encoding_len(children);
            if let Some(body) = children_encoding(children) {
                let d = 4 + body.len();
                if d <= u32::MAX {
                    let b = model_encoding(m).unwrap();
                    let s = b + t;
                    crate::bytes::lemma_le32_roundtrip(d as u32);
                    assert(s.subrange(0, 4) =~= kind);
                    assert(s.subrange(4, 8) =~= le32(d as u32));
                    assert(s.subrange(8, 12) =~= id);
                    assert(s.subrange(12, s.len() as int) =~= body + (pad(d) + t));
                    lemma_parse_children_encoding(children, pad(d) + t, d, 4);
                }
            }
        },
        ChunkModel::Child(id, data) => {
            let d = data.len();
            if d <= u32::MAX {
                let b = model_encoding(m).unwrap();
                let s = b + t;
                crate::bytes::lemma_le32_roundtrip(d as u32);
                assert(s.subrange(0, 4) =~= id);
                assert(s.subrange(4, 8) =~= le32(d as u32));
                assert(s.subrange(8, 8 + d as int) =~= data);
            }
        },
    }
}

/// Reading back the bytes of a sequence of sub-chunks, under a declared length
/// that they fill exactly, gives the sub-chunks.
pub proof fn lemma_parse_children_encoding(s: Seq<ChunkModel>, t: Seq<u8>, d: nat, done: nat)
    requires
        children_wf(s),
        children_readable(s),
        done + children_size(s) == d,
    ensures
        children_encoding(s) matches Some(b) ==> parse_children(b + t, d, done) == Some((s, b.len())),
    decreases s,
{
    if s.len() == 0 {
        if let Some(b) = children_encoding(s) {
            assert(b =~= Seq::<u8>::empty());
        }
    } else {
        let rest = s.subrange(1, s.len() as int);
        lemma_encoding_len(s[0]);
        lemma_children_encoding_len(rest);
        if let (Some(first), Some(tail)) = (model_encoding(s[0]), children_encoding(rest)) {
            let b = first + tail;
            lemma_parse_encoding(s[0], tail + t);
            assert(b + t =~= first + (tail + t));
            assert((b + t).subrange(first.len() as int, (b + t).len() as int) =~= tail + t);
            lemma_parse_children_encoding(rest, t, d, done + model_size(s[0]));
            assert(seq![s[0]] + rest =~= s);
        }
    }
}

/// Whether reading gives back what was written.
pub open spec fn chunk_readable(c: ChunkValue) -> bool {
    model_readable(chunk_model(c))
}

/// Reading back what `write` wrote gives the chunk again, and takes exactly
/// the bytes written, whatever follows them, as long as every parent is a
/// `RIFF` or `LIST` chunk and no child is named `RIFF` or `LIST`.
pub proof fn lemma_read_write_roundtrip(c: ChunkValue, rest: Seq<u8>)
    requires
        chunk_readable(c),
    ensures
        model_encoding(c@) matches Some(b) ==> parse_chunk(b + rest) == Some((c@, b.len())),
{
    lemma_model_wf(c);
    lemma_parse_encoding(c@, rest);
}

/// Whether the data of a chunk, and of every chunk in it, fits in its 32-bit
/// length field.
pub open spec fn model_fits(m: ChunkModel) -> bool
    decreases m,
{
    match m {
        ChunkModel::Parent(_, _, children) => children_fit(children) && 4 + children_size(children)
            <= u32::MAX,
        ChunkModel::Child(_, data) => data.len() <= u32::MAX,
    }
}

/// Whether the data of every chunk in a sequence, and of every chunk in
/// those, fits in its 32-bit length field.
pub open spec fn children_fit(s: Seq<ChunkModel>) -> bool
    decreases s,
{
    if s.len() == 0 {
        true
    } else {
        model_fits(s[0]) && children_fit(s.subrange(1, s.len() as int))
    }
}

/// A chunk can be written exactly when its data and that of every chunk in
/// it fit in 32 bits; it is then written in `exact_size` bytes.
pub proof fn lemma_model_fits(m: ChunkModel)
    requires
        model_wf(m),
    ensures
        model_fits(m) <==> model_encoding(m) is Some,
        model_encoding(m) matches Some(b) ==> b.len() == model_size(m),
    decreases m,
{
    lemma_encoding_len(m);
    match m {
        ChunkModel::Parent(_, _, children) => {
            lemma_children_fit(children);
            lemma_children_encoding_len(children);
        },
        ChunkModel::Child(_, _) => {},
    }
}

/// A sequence of chunks can be written exactly when the data of every chunk
/// in it fits in 32 bits.
pub proof fn lemma_children_fit(s: Seq<ChunkModel>)
    requires
        children_wf(s),
    ensures
        children_fit(s) <==> children_encoding(s) is Some,
    decreases s,
{
    if s.len() > 0 {
        lemma_model_fits(s[0]);
        lemma_children_fit(s.subrange(1, s.len() as int));
    }
}

/// `write` succeeds exactly when the data of the chunk and of every chunk in
/// it fits in 32 bits, and then writes (and returns) `exact_size` bytes.
pub proof fn lemma_write_fits(c: ChunkValue)
    ensures
        model_fits(c@) <==> model_encoding(c@) is Some,
        model_fits(c@) ==> (model_encoding(c@) matches Some(b) && b.len() == model_size(c@)),
{
    lemma_model_wf(c);
    lemma_model_fits(c@);
}

/// A chunk of at most `u32::MAX` bytes can be written: neither it nor any
/// chunk in it holds more data than its length field can say.
pub proof fn lemma_model_encoding_some(m: ChunkModel)
    requires
        model_wf(m),
        model_size(m) <= u32::MAX,
    ensures
        model_encoding(m) is Some,
    decreases m,
{
    match m {
        ChunkModel::Parent(_, _, children) => {
            lemma_children_encoding_some(children);
            lemma_children_encoding_len(children);
        },
        ChunkModel::Child(_, _) => {},
    }
}

/// A sequence of chunks of at most `u32::MAX` bytes in all can be written.
pub proof fn lemma_children_encoding_some(s: Seq<ChunkModel>)
    requires
        children_wf(s),
        children_size(s) <= u32::MAX,
    ensures
        children_encoding(s) is Some,
    decreases s,
{
    if s.len() > 0 {
        lemma_model_encoding_some(s[0]);
        lemma_children_encoding_some(s.subrange(1, s.len() as int));
    }
}

/// A chunk of at most `u32::MAX` bytes, every parent a `RIFF` or `LIST`
/// chunk and no child named `RIFF` or `LIST`, is written whole, in
/// `exact_size` bytes, and reading those bytes back, whatever follows them,
/// gives the chunk and takes every byte written.
pub proof fn lemma_small_chunk_roundtrip(c: ChunkValue, rest: Seq<u8>)
    requires
        chunk_readable(c),
        model_size(c@) <= u32::MAX,
    ensures
        model_encoding(c@) matches Some(b) && b.len() == model_size(c@) && parse_chunk(b + rest) == Some(
            (c@, b.len()),
        ),
{
    lemma_model_wf(c);
    lemma_model_encoding_some(c@);
    lemma_encoding_len(c@);
    lemma_parse_encoding(c@, rest);
}

/// `exact_size` is the number of bytes that `write` writes.
pub proof fn lemma_write_len_is_exact_size(c: ChunkValue)
    ensures
        model_encoding(c@) matches Some(b) ==> b.len() == model_size(c@),
{
    lemma_model_wf(c);
    lemma_encoding_len(c@);
}

/// When a prefix of a sequence of chunks has no bytes, neither has the whole.
pub proof fn lemma_children_encoding_none(s: Seq<ChunkModel>, i: int)
    requires
        0 <= i <= s.len(),
        children_encoding(s.subrange(0, i)) is None,
    ensures
        children_encoding(s) is None,
    decreases s.len() - i,
{
    if i < s.len() {
        lemma_children_encoding_push(s.subrange(0, i), s[i]);
        assert(s.subrange(0, i).push(s[i]) =~= s.subrange(0, i + 1));
        lemma_children_encoding_none(s, i + 1);
    } else {
        assert(s.subrange(0, i) =~= s);
    }
}

/// A prefix of a sequence of chunks is no larger than the whole.
pub proof fn lemma_children_size_prefix(s: Seq<ChunkModel>, i: int)
    requires
        0 <= i <= s.len(),
    ensures
        children_size(s.subrange(0, i)) <= children_size(s),
        i < s.len() ==> children_size(s.subrange(0, i)) + model_size(s[i]) <= children_size(s),
    decreases s.len() - i,
{
    if i < s.len() {
        lemma_children_size_push(s.subrange(0, i), s[i]);
        assert(s.subrange(0, i).push(s[i]) =~= s.subrange(0, i + 1));
        lemma_children_size_prefix(s, i + 1);
    } else {
        assert(s.subrange(0, i) =~= s);
    }
}

} // verus!
