//! The point of a cursor image that the pointer position refers to.

use crate::text::{parse_u32, parse_u32_str, split_once};
use vstd::prelude::*;

verus! {

/// A hotspot, in pixels from the image's top left corner.
#[derive(Debug, Clone, Copy, PartialEq, Eq, Structural)]
pub struct CursorHotspot {
    pub x: u32,
    pub y: u32,
}

/// The input was not two decimal numbers separated by a comma.
#[derive(Debug, Clone, Copy, PartialEq, Eq, Structural)]
pub struct ParseCursorHotspotError;

impl ParseCursorHotspotError {
    /// What was expected.
    pub fn to_string(&self) -> (s: String)
        ensures
            s@ == "expected a hotspot string"@,
    {
        "expected a hotspot string".to_owned()
    }
}

/// The hotspot that a string `x,y` writes: the text before the first comma
/// and the text after it, each read as a `u32`.
pub open spec fn parse_hotspot(s: Seq<char>) -> Option<CursorHotspot> {
    if s.contains(',') {
        let k = choose|k: int| 0 <= k < s.len() && s[k] == ',' && !s.take(k).contains(',');
        match (parse_u32(s.take(k)), parse_u32(s.skip(k + 1))) {
            (Some(x), Some(y)) => Some(CursorHotspot { x, y }),
            _ => None,
        }
    } else {
        None
    }
}

/// A hotspot written as the text `a`, a comma and the text `b`, where `a`
/// holds no comma, is read as `x` from `a` and `y` from `b`, and only where
/// both are numbers.
pub proof fn lemma_parse_hotspot_parts(a: Seq<char>, b: Seq<char>)
    requires
        !a.contains(','),
    ensures
        parse_hotspot(a + seq![','] + b) == match (parse_u32(a), parse_u32(b)) {
            (Some(x), Some(y)) => Some(CursorHotspot { x, y }),
            _ => None::<CursorHotspot>,
        },
{
    let s = a + seq![','] + b;
    let n = a.len() as int;
    assert(s[n] == ',');
    assert(s.take(n) =~= a);
    assert(s.skip(n + 1) =~= b);
    assert(s.contains(','));
    let k = choose|k: int| 0 <= k < s.len() && s[k] == ',' && !s.take(k).contains(',');
    assert(0 <= n < s.len() && s[n] == ',' && !s.take(n).contains(','));
    if k < n {
        assert(a[k] == ',');
    } else if k > n {
        assert(s.take(k)[n] == ',');
    }
}

impl CursorHotspot {
    /// Creates a new `CursorHotspot`.
    pub fn new(x: u32, y: u32) -> (h: Self)
        ensures
            h == (CursorHotspot { x, y }),
    {
        CursorHotspot { x, y }
    }

    /// Reads a hotspot written `x,y`.
    pub fn parse(s: &str) -> (r: Result<Self, ParseCursorHotspotError>)
        ensures
            match r {
                Ok(h) => parse_hotspot(s@) == Some(h),
                Err(_) => parse_hotspot(s@) is None,
            },
    {
        match split_once(s, ',') {
            None => Err(ParseCursorHotspotError),
            Some((before, after)) => {
                let ghost k = before@.len() as int;
                proof {
                    assert(s@[k] == ',');
                    assert(s@.take(k) =~= before@);
                    assert(s@.skip(k + 1) =~= after@);
                    assert(s@.contains(','));
                    let j = choose|j: int| 0 <= j < s@.len() && s@[j] == ',' && !s@.take(j).contains(',');
                    if j < k {
                        assert(before@[j] == ',');
                    } else if j > k {
                        assert(s@.take(j)[k] == ',');
                    }
                }
                let x = parse_u32_str(before);
                let y = parse_u32_str(after);
                match (x, y) {
                    (Some(x), Some(y)) => Ok(CursorHotspot { x, y }),
                    _ => Err(ParseCursorHotspotError),
                }
            },
        }
    }
}

impl std::str::FromStr for CursorHotspot {
    type Err = ParseCursorHotspotError;

    fn from_str(s: &str) -> (r: Result<Self, Self::Err>)
        ensures
            match r {
                Ok(h) => parse_hotspot(s@) == Some(h),
                Err(_) => parse_hotspot(s@) is None,
            },
    {
        CursorHotspot::parse(s)
    }
}

} // verus!
