//! RIFF chunk trees with anonymous leaves: a chunk is either a container
//! holding sub-chunks, or raw bytes written as they are.
//!
//! A container is written as its identifier, the little-endian length of its
//! data, and the data: its own identifier followed by its sub-chunks. Raw
//! bytes are written with one zero pad byte when their length is odd.

pub mod chunk_id;
pub mod chunk_value;

use vstd::prelude::*;

pub use self::chunk_id::ChunkId;
pub use self::chunk_value::WriteError;
use self::chunk_id::{list_tag, riff_tag};
use self::chunk_value::{pad, push_id};
use crate::bytes::{le32, push_all, push_le32, set_le32};

verus! {

/// A RIFF chunk whose leaves are raw bytes.
#[derive(Debug, PartialEq, Eq)]
pub enum ChunkValue {
    /// A container identifier (such as `RIFF` or `LIST`), its own
    /// identifier, and its sub-chunks.
    Children(ChunkId, ChunkId, Vec<ChunkValue>),
    /// Raw bytes.
    Raw(Vec<u8>),
}

/// What a chunk means: the same tree with byte sequences in place of arrays
/// and vectors.
pub enum TreeModel {
    Children(Seq<u8>, Seq<u8>, Seq<TreeModel>),
    Raw(Seq<u8>),
}

/// The model of a chunk.
pub open spec fn tree_model(c: ChunkValue) -> TreeModel
    decreases c,
{
    match c {
        ChunkValue::Children(id, subid, children) => TreeModel::Children(
            id.0@,
            subid.0@,
            tree_models(children@),
        ),
        ChunkValue::Raw(bytes) => TreeModel::Raw(bytes@),
    }
}

/// The models of a sequence of chunks.
pub open spec fn tree_models(s: Seq<ChunkValue>) -> Seq<TreeModel>
    decreases s,
{
    if s.len() == 0 {
        Seq::empty()
    } else {
        seq![tree_model(s[0])] + tree_models(s.subrange(1, s.len() as int))
    }
}

impl View for ChunkValue {
    type V = TreeModel;

    open spec fn view(&self) -> TreeModel {
        tree_model(*self)
    }
}

/// Whether every identifier in the tree is four bytes long, as it is in every
/// model of a `ChunkValue`.
pub open spec fn tree_wf(m: TreeModel) -> bool
    decreases m,
{
    match m {
        TreeModel::Children(id, subid, children) => id.len() == 4 && subid.len() == 4
            && trees_wf(children),
        TreeModel::Raw(_) => true,
    }
}

/// Whether every chunk of a sequence is well formed.
pub open spec fn trees_wf(s: Seq<TreeModel>) -> bool
    decreases s,
{
    if s.len() == 0 {
        true
    } else {
        tree_wf(s[0]) && trees_wf(s.subrange(1, s.len() as int))
    }
}

/// The size of a chunk as `exact_size` and `write` count it.
pub open spec fn tree_size(m: TreeModel) -> nat
    decreases m,
{
    match m {
        TreeModel::Children(_, _, children) => {
            let d = 4 + trees_size(children);
            8 + d + d % 2
        },
        TreeModel::Raw(bytes) => bytes.len() + bytes.len() % 2,
    }
}

/// The sizes of a sequence of chunks, added up.
pub open spec fn trees_size(s: Seq<TreeModel>) -> nat
    decreases s,
{
    if s.len() == 0 {
        0
    } else {
        tree_size(s[0]) + trees_size(s.subrange(1, s.len() as int))
    }
}

/// The bytes of a chunk, or `None` when the data of a container in it is
/// longer than `u32::MAX` bytes.
pub open spec fn tree_encoding(m: TreeModel) -> Option<Seq<u8>>
    decreases m,
{
    match m {
        TreeModel::Children(id, subid, children) => match trees_encoding(children) {
            None => None,
            Some(body) => {
                let d = 4 + body.len();
                if d > u32::MAX {
                    None
                } else {
                    Some(id + le32(d as u32) + subid + body)
                }
            },
        },
        TreeModel::Raw(bytes) => Some(bytes + pad(bytes.len())),
    }
}

/// The bytes of a sequence of chunks, one after the other.
pub open spec fn trees_encoding(s: Seq<TreeModel>) -> Option<Seq<u8>>
    decreases s,
{
    if s.len() == 0 {
        Some(Seq::empty())
    } else {
        match tree_encoding(s[0]) {
            None => None,
            Some(first) => match trees_encoding(s.subrange(1, s.len() as int)) {
                None => None,
                Some(rest) => Some(first + rest),
            },
        }
    }
}

/// The bytes that writing a chunk leaves in the output: its bytes where it
/// can be written; where the data of a container in it is too long, what
/// was written up to the failure, each unfinished container's length field
/// still zero.
pub open spec fn tree_written(m: TreeModel) -> Seq<u8>
    decreases m,
{
    match m {
        TreeModel::Children(id, subid, children) => match trees_encoding(children) {
            Some(body) => if 4 + body.len() > u32::MAX {
                id + le32(0) + subid + body
            } else {
                id + le32((4 + body.len()) as u32) + subid + body
            },
            None => id + le32(0) + subid + trees_written(children),
        },
        TreeModel::Raw(bytes) => bytes + pad(bytes.len()),
    }
}

/// The bytes that writing a sequence of chunks leaves in the output: each
/// chunk in turn, up to and including the first that cannot be written.
pub open spec fn trees_written(s: Seq<TreeModel>) -> Seq<u8>
    decreases s,
{
    if s.len() == 0 {
        Seq::empty()
    } else if tree_encoding(s[0]) is Some {
        tree_written(s[0]) + trees_written(s.subrange(1, s.len() as int))
    } else {
        tree_written(s[0])
    }
}

/// Where a chunk can be written, what is written is its bytes.
pub proof fn lemma_tree_written_encoding(m: TreeModel)
    ensures
        tree_encoding(m) matches Some(b) ==> tree_written(m) == b,
    decreases m,
{
    match m {
        TreeModel::Children(_, _, children) => lemma_trees_written_encoding(children),
        TreeModel::Raw(_) => {},
    }
}

/// Where a sequence of chunks can be written, what is written is their
/// bytes.
pub proof fn lemma_trees_written_encoding(s: Seq<TreeModel>)
    ensures
        trees_encoding(s) matches Some(b) ==> trees_written(s) == b,
    decreases s,
{
    if s.len() > 0 {
        lemma_tree_written_encoding(s[0]);
        lemma_trees_written_encoding(s.subrange(1, s.len() as int));
    }
}

/// Where the first `i` chunks can be written and chunk `i` cannot, writing
/// the sequence leaves the bytes of the first `i`, then what writing chunk
/// `i` leaves.
pub proof fn lemma_trees_written_at(s: Seq<TreeModel>, i: int)
    requires
        0 <= i < s.len(),
        trees_encoding(s.subrange(0, i)) is Some,
        tree_encoding(s[i]) is None,
    ensures
        trees_written(s) == trees_encoding(s.subrange(0, i)).unwrap() + tree_written(s[i]),
    decreases i,
{
    if i == 0 {
        assert(trees_encoding(s.subrange(0, 0)) == Some(Seq::<u8>::empty()));
        assert(trees_written(s) =~= Seq::<u8>::empty() + tree_written(s[0]));
    } else {
        let t = s.subrange(1, s.len() as int);
        let p = s.subrange(0, i);
        assert(p[0] == s[0]);
        assert(p.subrange(1, p.len() as int) =~= t.subrange(0, i - 1));
        assert(t[i - 1] == s[i]);
        lemma_tree_written_encoding(s[0]);
        lemma_trees_written_at(t, i - 1);
        let f = tree_encoding(s[0]).unwrap();
        let q = trees_encoding(t.subrange(0, i - 1)).unwrap();
        assert(trees_encoding(p) == Some(f + q));
        assert(trees_written(s) =~= (f + q) + tree_written(s[i]));
    }
}

/// The models of a sequence of chunks are the models of its elements.
pub proof fn lemma_tree_models(s: Seq<ChunkValue>)
    ensures
        tree_models(s).len() == s.len(),
        forall|i: int| 0 <= i < s.len() ==> #[trigger] tree_models(s)[i] == tree_model(s[i]),
    decreases s.len(),
{
    if s.len() > 0 {
        let t = s.subrange(1, s.len() as int);
        lemma_tree_models(t);
        assert forall|i: int| 0 <= i < s.len() implies #[trigger] tree_models(s)[i] == tree_model(
            s[i],
        ) by {
            if i > 0 {
                assert(s[i] == t[i - 1]);
            }
        }
    }
}

/// The model of every chunk is well formed.
pub proof fn lemma_tree_wf(c: ChunkValue)
    ensures
        tree_wf(tree_model(c)),
    decreases c,
{
    match c {
        ChunkValue::Children(_, _, children) => {
            lemma_trees_wf(children@);
        },
        ChunkValue::Raw(_) => {},
    }
}

/// The models of a sequence of chunks are well formed.
pub proof fn lemma_trees_wf(s: Seq<ChunkValue>)
    ensures
        trees_wf(tree_models(s)),
    decreases s,
{
    if s.len() > 0 {
        let t = s.subrange(1, s.len() as int);
        lemma_tree_wf(s[0]);
        lemma_trees_wf(t);
        let ms = tree_models(s);
        assert(ms[0] == tree_model(s[0]));
        assert(ms.subrange(1, ms.len() as int) =~= tree_models(t));
    }
}

/// Appending a chunk adds its size.
pub proof fn lemma_trees_size_push(s: Seq<TreeModel>, x: TreeModel)
    ensures
        trees_size(s.push(x)) == trees_size(s) + tree_size(x),
    decreases s.len(),
{
    if s.len() == 0 {
        assert(s.push(x).subrange(1, 1) =~= Seq::<TreeModel>::empty());
        assert(trees_size(Seq::<TreeModel>::empty()) == 0);
    } else {
        let t = s.subrange(1, s.len() as int);
        assert(s.push(x).subrange(1, s.push(x).len() as int) =~= t.push(x));
        assert(s.push(x)[0] == s[0]);
        lemma_trees_size_push(t, x);
    }
}

/// A prefix of a sequence of chunks is no larger than the whole.
pub proof fn lemma_trees_size_prefix(s: Seq<TreeModel>, i: int)
    requires
        0 <= i <= s.len(),
    ensures
        trees_size(s.subrange(0, i)) <= trees_size(s),
        i < s.len() ==> trees_size(s.subrange(0, i)) + tree_size(s[i]) <= trees_size(s),
    decreases s.len() - i,
{
    if i < s.len() {
        lemma_trees_size_push(s.subrange(0, i), s[i]);
        assert(s.subrange(0, i).push(s[i]) =~= s.subrange(0, i + 1));
        lemma_trees_size_prefix(s, i + 1);
    } else {
        assert(s.subrange(0, i) =~= s);
    }
}

/// Appending a chunk appends its bytes.
pub proof fn lemma_trees_encoding_push(s: Seq<TreeModel>, x: TreeModel)
    ensures
        trees_encoding(s.push(x)) == match (trees_encoding(s), tree_encoding(x)) {
            (Some(a), Some(b)) => Some(a + b),
            _ => None::<Seq<u8>>,
        },
    decreases s.len(),
{
    if s.len() == 0 {
        assert(s.push(x).subrange(1, 1) =~= Seq::<TreeModel>::empty());
        assert(trees_encoding(Seq::<TreeModel>::empty()) == Some(Seq::<u8>::empty()));
        if let Some(b) = tree_encoding(x) {
            assert(b + Seq::<u8>::empty() =~= Seq::<u8>::empty() + b);
        }
    } else {
        let t = s.subrange(1, s.len() as int);
        assert(s.push(x).subrange(1, s.push(x).len() as int) =~= t.push(x));
        assert(s.push(x)[0] == s[0]);
        lemma_trees_encoding_push(t, x);
        if let (Some(f), Some(r), Some(b)) = (tree_encoding(s[0]), trees_encoding(t), tree_encoding(x)) {
            assert(f + (r + b) =~= (f + r) + b);
        }
    }
}

/// When a prefix of a sequence of chunks has no bytes, neither has the whole.
pub proof fn lemma_trees_encoding_none(s: Seq<TreeModel>, i: int)
    requires
        0 <= i <= s.len(),
        trees_encoding(s.subrange(0, i)) is None,
    ensures
        trees_encoding(s) is None,
    decreases s.len() - i,
{
    if i < s.len() {
        lemma_trees_encoding_push(s.subrange(0, i), s[i]);
        assert(s.subrange(0, i).push(s[i]) =~= s.subrange(0, i + 1));
        lemma_trees_encoding_none(s, i + 1);
    } else {
        assert(s.subrange(0, i) =~= s);
    }
}

/// The bytes of a chunk are as many as its size, and an even number.
pub proof fn lemma_tree_encoding_len(m: TreeModel)
    requires
        tree_wf(m),
    ensures
        tree_size(m) % 2 == 0,
        tree_encoding(m) matches Some(b) ==> b.len() == tree_size(m),
    decreases m,
{
    match m {
        TreeModel::Children(_, _, children) => {
            lemma_trees_encoding_len(children);
        },
        TreeModel::Raw(_) => {},
    }
}

/// The bytes of a sequence of chunks are as many as its size, and an even
/// number.
pub proof fn lemma_trees_encoding_len(s: Seq<TreeModel>)
    requires
        trees_wf(s),
    ensures
        trees_size(s) % 2 == 0,
        trees_encoding(s) matches Some(b) ==> b.len() == trees_size(s),
    decreases s,
{
    if s.len() > 0 {
        lemma_tree_encoding_len(s[0]);
        lemma_trees_encoding_len(s.subrange(1, s.len() as int));
    }
}

/// Whether the data of every container in a chunk fits in its 32-bit
/// length field.
pub open spec fn tree_fits(m: TreeModel) -> bool
    decreases m,
{
    match m {
        TreeModel::Children(_, _, children) => trees_fit(children) && 4 + trees_size(children) <= u32::MAX,
        TreeModel::Raw(_) => true,
    }
}

/// Whether the data of every container in a sequence of chunks fits in its
/// 32-bit length field.
pub open spec fn trees_fit(s: Seq<TreeModel>) -> bool
    decreases s,
{
    if s.len() == 0 {
        true
    } else {
        tree_fits(s[0]) && trees_fit(s.subrange(1, s.len() as int))
    }
}

/// A chunk can be written exactly when the data of every container in it
/// fits in 32 bits; it is then written in `exact_size` bytes.
pub proof fn lemma_tree_fits(m: TreeModel)
    requires
        tree_wf(m),
    ensures
        tree_fits(m) <==> tree_encoding(m) is Some,
        tree_encoding(m) matches Some(b) ==> b.len() == tree_size(m),
    decreases m,
{
    lemma_tree_encoding_len(m);
    match m {
        TreeModel::Children(_, _, children) => {
            lemma_trees_fit(children);
            lemma_trees_encoding_len(children);
        },
        TreeModel::Raw(_) => {},
    }
}

/// A sequence of chunks can be written exactly when the data of every
/// container in it fits in 32 bits.
pub proof fn lemma_trees_fit(s: Seq<TreeModel>)
    requires
        trees_wf(s),
    ensures
        trees_fit(s) <==> trees_encoding(s) is Some,
    decreases s,
{
    if s.len() > 0 {
        lemma_tree_fits(s[0]);
        lemma_trees_fit(s.subrange(1, s.len() as int));
    }
}

/// `write` succeeds exactly when the data of every container in the chunk
/// fits in 32 bits, and then writes (and returns) `exact_size` bytes.
pub proof fn lemma_write_fits(c: ChunkValue)
    ensures
        tree_fits(c@) <==> tree_encoding(c@) is Some,
        tree_fits(c@) ==> (tree_encoding(c@) matches Some(b) && b.len() == tree_size(c@)),
{
    lemma_tree_wf(c);
    lemma_tree_fits(c@);
}

/// A chunk of at most `u32::MAX` bytes can be written: no container in it
/// holds more data than its length field can say.
pub proof fn lemma_tree_encoding_some(m: TreeModel)
    requires
        tree_wf(m),
        tree_size(m) <= u32::MAX,
    ensures
        tree_encoding(m) is Some,
    decreases m,
{
    match m {
        TreeModel::Children(_, _, children) => {
            lemma_trees_encoding_some(children);
            lemma_trees_encoding_len(children);
        },
        TreeModel::Raw(_) => {},
    }
}

/// A sequence of chunks of at most `u32::MAX` bytes in all can be written.
pub proof fn lemma_trees_encoding_some(s: Seq<TreeModel>)
    requires
        trees_wf(s),
        trees_size(s) <= u32::MAX,
    ensures
        trees_encoding(s) is Some,
    decreases s,
{
    if s.len() > 0 {
        lemma_tree_encoding_some(s[0]);
        lemma_trees_encoding_some(s.subrange(1, s.len() as int));
    }
}

/// A chunk of at most `u32::MAX` bytes is written whole: `write` succeeds
/// and writes (and returns) `exact_size` bytes.
pub proof fn lemma_small_chunk_writes(c: ChunkValue)
    requires
        tree_size(c@) <= u32::MAX,
    ensures
        tree_encoding(c@) matches Some(b) && b.len() == tree_size(c@),
{
    lemma_tree_wf(c);
    lemma_tree_encoding_some(c@);
    lemma_tree_encoding_len(c@);
}

/// `exact_size` (and `size`) is the number of bytes that `write` writes and
/// returns.
pub proof fn lemma_write_len_is_exact_size(c: ChunkValue)
    ensures
        tree_encoding(c@) matches Some(b) ==> b.len() == tree_size(c@),
{
    lemma_tree_wf(c);
    lemma_tree_encoding_len(c@);
}

impl ChunkValue {
    /// Writes this chunk to `out`, returning how many bytes were written.
    ///
    /// Fails with `DataTooLong` when the data of a container in the chunk is
    /// longer than `u32::MAX` bytes; what was written up to then stays in
    /// `out`, the length fields of the unfinished containers still zero.
    pub fn write(self, out: &mut Vec<u8>) -> (r: Result<usize, WriteError>)
        ensures
            tree_encoding(self@) is Some <==> r is Ok,
            final(out)@ == old(out)@ + tree_written(self@),
            r matches Ok(n) ==> tree_written(self@) == tree_encoding(self@).unwrap()
                && n == tree_encoding(self@).unwrap().len(),
    {
        self.write_ref(out)
    }

    #[verifier::loop_isolation(false)]
    fn write_ref(&self, out: &mut Vec<u8>) -> (r: Result<usize, WriteError>)
        ensures
            tree_encoding(self@) is Some <==> r is Ok,
            final(out)@ == old(out)@ + tree_written(self@),
            r matches Ok(n) ==> tree_written(self@) == tree_encoding(self@).unwrap()
                && n == tree_encoding(self@).unwrap().len(),
        decreases self,
    {
        let start = out.len();
        proof {
            lemma_tree_written_encoding(self@);
        }
        match self {
            ChunkValue::Children(id, subid, children) => {
                let ghost ms = tree_models(children@);
                proof {
                    lemma_tree_models(children@);
                }
                push_id(out, id);
                push_le32(out, 0);
                push_id(out, subid);
                let ghost head = out@;
                assert(head == old(out)@ + id.0@ + le32(0) + subid.0@);
                let mut i: usize = 0;
                while i < children.len()
                    invariant
                        i <= children@.len(),
                        trees_encoding(ms.subrange(0, i as int)) is Some,
                        out@ == head + trees_encoding(ms.subrange(0, i as int)).unwrap(),
                    decreases children@.len() - i,
                {
                    proof {
                        assert(*children == (*self)->2);
                        assert(decreases_to!(*self => (*self)->2));
                        assert(decreases_to!(*children => children@));
                        vstd::seq::axiom_seq_index_decreases(children@, i as int);
                        lemma_trees_encoding_push(ms.subrange(0, i as int), ms[i as int]);
                        assert(ms.subrange(0, i as int).push(ms[i as int]) =~= ms.subrange(0, i + 1));
                    }
                    let ghost before = out@;
                    match children[i].write_ref(out) {
                        Ok(_) => {
                            proof {
                                lemma_tree_written_encoding(ms[i as int]);
                                assert(out@ =~= head + trees_encoding(ms.subrange(0, i + 1)).unwrap());
                            }
                        },
                        Err(e) => {
                            proof {
                                lemma_trees_encoding_none(ms, i + 1);
                                lemma_trees_written_at(ms, i as int);
                                assert(out@ =~= old(out)@ + tree_written(self@));
                            }
                            return Err(e);
                        },
                    }
                    i = i + 1;
                }
                assert(ms.subrange(0, i as int) =~= ms);
                let len = out.len() - start - 12;
                if len > u32::MAX as usize - 4 {
                    assert(out@ =~= old(out)@ + tree_written(self@));
                    return Err(WriteError::DataTooLong);
                }
                let d = 4 + len;
                set_le32(out, start + 4, d as u32);
                assert(out@ =~= old(out)@ + tree_encoding(self@).unwrap());
                Ok(out.len() - start)
            },
            ChunkValue::Raw(bytes) => {
                push_all(out, bytes.as_slice());
                if bytes.len() % 2 == 1 {
                    out.push(0);
                }
                assert(out@ =~= old(out)@ + tree_encoding(self@).unwrap());
                Ok(out.len() - start)
            },
        }
    }

    /// Returns how many bytes [`write`] writes for this chunk.
    ///
    /// [`write`]: Self::write
    #[verifier::loop_isolation(false)]
    pub fn exact_size(&self) -> (n: usize)
        requires
            tree_size(self@) <= usize::MAX,
        ensures
            n == tree_size(self@),
        decreases self,
    {
        match self {
            ChunkValue::Children(_, _, children) => {
                let ghost ms = tree_models(children@);
                proof {
                    lemma_tree_models(children@);
                }
                let mut acc: usize = 4;
                let mut i: usize = 0;
                while i < children.len()
                    invariant
                        i <= children@.len(),
                        acc == 4 + trees_size(ms.subrange(0, i as int)),
                    decreases children@.len() - i,
                {
                    proof {
                        assert(*children == (*self)->2);
                        assert(decreases_to!(*self => (*self)->2));
                        assert(decreases_to!(*children => children@));
                        vstd::seq::axiom_seq_index_decreases(children@, i as int);
                        lemma_trees_size_push(ms.subrange(0, i as int), ms[i as int]);
                        assert(ms.subrange(0, i as int).push(ms[i as int]) =~= ms.subrange(0, i + 1));
                        lemma_trees_size_prefix(ms, i + 1);
                    }
                    let n = children[i].exact_size();
                    acc = acc + n;
                    i = i + 1;
                }
                assert(ms.subrange(0, i as int) =~= ms);
                8 + acc + acc % 2
            },
            ChunkValue::Raw(bytes) => {
                let d = bytes.len();
                d + d % 2
            },
        }
    }

    /// Returns the size of the chunk in bytes: the same number as
    /// [`exact_size`].
    ///
    /// [`exact_size`]: Self::exact_size
    pub fn size(&self) -> (n: usize)
        requires
            tree_size(self@) <= usize::MAX,
        ensures
            n == tree_size(self@),
    {
        self.exact_size()
    }

    /// Constructs a new `RIFF` chunk.
    pub fn riff(subid: ChunkId, subchunks: Vec<ChunkValue>) -> (c: ChunkValue)
        ensures
            c matches ChunkValue::Children(id, s, ch) && id.0@ == riff_tag() && s == subid
                && ch == subchunks,
    {
        ChunkValue::Children(ChunkId::riff(), subid, subchunks)
    }

    /// Constructs a new `LIST` chunk.
    pub fn list(subid: ChunkId, subchunks: Vec<ChunkValue>) -> (c: ChunkValue)
        ensures
            c matches ChunkValue::Children(id, s, ch) && id.0@ == list_tag() && s == subid
                && ch == subchunks,
    {
        ChunkValue::Children(ChunkId::list(), subid, subchunks)
    }
}

} // verus!
