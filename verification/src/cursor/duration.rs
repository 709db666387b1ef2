//! How long a frame of an animated cursor is shown.

use vstd::prelude::*;

verus! {

/// A frame duration, in milliseconds.
#[derive(Debug, Clone, Copy, PartialEq, Eq, Structural)]
pub struct CursorDuration(u32);

impl CursorDuration {
    /// The duration in milliseconds.
    pub closed spec fn spec_milliseconds(self) -> u32 {
        self.0
    }

    /// Returns the duration in milliseconds.
    pub fn milliseconds(self) -> (ms: u32)
        ensures
            ms == self.spec_milliseconds(),
    {
        self.0
    }

    /// Creates a new `CursorDuration` from a millisecond value.
    pub fn from_milliseconds(value: u32) -> (d: Self)
        ensures
            d.spec_milliseconds() == value,
    {
        CursorDuration(value)
    }
}

/// A duration is its number of milliseconds: reading it back after
/// building it from a value gives that value, and two durations with the
/// same number of milliseconds are the same.
pub proof fn lemma_milliseconds_identify(a: CursorDuration, b: CursorDuration)
    ensures
        a.spec_milliseconds() == b.spec_milliseconds() <==> a == b,
{
}

} // verus!
