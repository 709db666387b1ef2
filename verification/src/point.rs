//! Points on the pixel grid.

use vstd::prelude::*;

verus! {

/// A point with co-ordinates of type `T`.
#[derive(Debug, Clone, Copy, PartialEq, Eq, Default)]
pub struct Point<T> {
    pub x: T,
    pub y: T,
}

} // verus!
