//! Why reading an ICO or CUR directory failed.

use vstd::prelude::*;

verus! {

/// The error type for ICO reads.
#[derive(Debug, Clone, Copy, PartialEq, Eq)]
pub enum ReadError {
    /// The first two bytes of the file header are not zero.
    HeaderMissingReserved,
    /// The resource type was expected to be the first value, and was the
    /// second.
    InvalidResourceType(u16, u16),
    /// The reserved byte of the entry with this (1-based) number is not zero.
    EntryMissingReserved(u16),
    /// The input ended inside the header or an entry.
    UnexpectedEof,
}

} // verus!
