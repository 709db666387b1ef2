//! What a cursor is known by besides its images.

use vstd::prelude::*;

verus! {

/// The metadata of a cursor; it holds nothing yet.
#[derive(Debug, Clone, Copy, PartialEq, Eq, Structural)]
pub struct CursorMetadata {}

} // verus!
