//! The hotspot of a cursor image, which scales with the image.

use vstd::prelude::*;

verus! {

/// A hotspot, in pixels from the image's top left corner.
#[derive(Debug, Clone, Copy, PartialEq, Eq, Structural)]
pub struct Hotspot {
    pub x: u32,
    pub y: u32,
}

impl From<(u32, u32)> for Hotspot {
    fn from(v: (u32, u32)) -> (h: Self) {
        Hotspot { x: v.0, y: v.1 }
    }
}

impl vstd::std_specs::convert::FromSpecImpl<(u32, u32)> for Hotspot {
    open spec fn obeys_from_spec() -> bool {
        true
    }

    open spec fn from_spec(v: (u32, u32)) -> Self {
        Hotspot { x: v.0, y: v.1 }
    }
}

impl core::ops::Mul<u32> for Hotspot {
    type Output = Self;

    /// Scales both coordinates by `rhs`.
    fn mul(self, rhs: u32) -> (h: Self) {
        Hotspot { x: self.x * rhs, y: self.y * rhs }
    }
}

impl vstd::std_specs::ops::MulSpecImpl<u32> for Hotspot {
    open spec fn obeys_mul_spec() -> bool {
        true
    }

    /// Both coordinates times the factor fit in 32 bits.
    open spec fn mul_req(self, rhs: u32) -> bool {
        self.x * rhs <= u32::MAX && self.y * rhs <= u32::MAX
    }

    open spec fn mul_spec(self, rhs: u32) -> Self {
        Hotspot { x: (self.x * rhs) as u32, y: (self.y * rhs) as u32 }
    }
}

impl core::ops::MulAssign<u32> for Hotspot {
    /// Scales both coordinates by `rhs`, in place.
    fn mul_assign(&mut self, rhs: u32)
        requires
            old(self).x * rhs <= u32::MAX,
            old(self).y * rhs <= u32::MAX,
        ensures
            final(self).x == old(self).x * rhs,
            final(self).y == old(self).y * rhs,
    {
        self.x = self.x * rhs;
        self.y = self.y * rhs;
    }
}

} // verus!
