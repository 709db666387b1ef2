//! The four-byte identifiers that open every RIFF chunk.

use vstd::prelude::*;

verus! {

/// A four-byte RIFF chunk identifier, such as `RIFF`, `LIST` or `icon`.
#[derive(Debug, Clone, Copy, PartialEq, Eq, Hash)]
pub struct ChunkId(pub [u8; 4]);

/// The bytes of `RIFF`.
pub open spec fn riff_tag() -> Seq<u8> {
    seq![0x52u8, 0x49u8, 0x46u8, 0x46u8]
}

/// The bytes of `LIST`.
pub open spec fn list_tag() -> Seq<u8> {
    seq![0x4Cu8, 0x49u8, 0x53u8, 0x54u8]
}

/// Why reading a chunk failed: the input ended before the chunk did.
#[derive(Debug, Clone, Copy, PartialEq, Eq)]
pub enum ReadError {
    UnexpectedEof,
}

impl ChunkId {
    /// The identifier `RIFF`, which opens a RIFF file.
    pub fn riff() -> (id: ChunkId)
        ensures
            id.0@ == riff_tag(),
    {
        let id = ChunkId([0x52, 0x49, 0x46, 0x46]);
        assert(id.0@ =~= riff_tag());
        id
    }

    /// The identifier `LIST`, which opens a list of sub-chunks.
    pub fn list() -> (id: ChunkId)
        ensures
            id.0@ == list_tag(),
    {
        let id = ChunkId([0x4C, 0x49, 0x53, 0x54]);
        assert(id.0@ =~= list_tag());
        id
    }

    /// Whether the two identifiers hold the same four bytes.
    pub fn same(&self, other: &ChunkId) -> (b: bool)
        ensures
            b == (self.0@ == other.0@),
    {
        let b = self.0[0] == other.0[0] && self.0[1] == other.0[1] && self.0[2] == other.0[2]
            && self.0[3] == other.0[3];
        if b {
            assert(self.0@ =~= other.0@);
        }
        b
    }

    /// Reads an identifier from the first four bytes of `input`.
    ///
    /// Fails with `UnexpectedEof` when `input` holds fewer than four bytes.
    pub fn read(input: &[u8]) -> (r: Result<ChunkId, ReadError>)
        ensures
            input@.len() >= 4 <==> r is Ok,
            r matches Ok(id) ==> id.0@ == input@.subrange(0, 4),
    {
        if input.len() < 4 {
            return Err(ReadError::UnexpectedEof);
        }
        let id = ChunkId([input[0], input[1], input[2], input[3]]);
        assert(id.0@ =~= input@.subrange(0, 4));
        Ok(id)
    }
}

} // verus!
