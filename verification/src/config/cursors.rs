//! The configuration of the cursors of a theme: aliases, assets and frames.

pub mod alias;
pub mod asset;
pub mod frame;

use crate::config::cursors::alias::PlatformAlias;
use crate::config::cursors::asset::AssetConfig;
use crate::config::cursors::frame::ScaledCursorFrameConfig;
use crate::cursor::{CursorDuration, CursorHotspot};
use vstd::prelude::*;

verus! {

/// A cursor drawn at one size: still, or animated.
#[derive(Debug, PartialEq)]
pub enum CursorConfig {
    ScaledStatic(ScaledStaticCursorConfig),
    ScaledAnimated(ScaledAnimatedCursorConfig),
}

/// A still cursor drawn at one size.
#[derive(Debug, PartialEq)]
pub struct ScaledStaticCursorConfig {
    /// Nominal size of the cursor.
    pub nominal: u32,
    /// Co-ordinates of the cursor tip.
    pub hotspot: CursorHotspot,
    /// Path to an asset file (with optional transforms).
    pub asset: AssetConfig,
    /// Alternate names for the cursor.
    pub aliases: Option<Vec<PlatformAlias>>,
}

/// An animated cursor drawn at one size.
#[derive(Debug, PartialEq)]
pub struct ScaledAnimatedCursorConfig {
    /// Nominal size of the cursor.
    pub nominal: u32,
    /// Co-ordinates of the cursor tip.
    pub hotspot: CursorHotspot,
    /// Duration of the animation in full.
    pub duration: Option<CursorDuration>,
    /// Durations for each frame in the animation.
    pub durations: Option<Vec<CursorDuration>>,
    /// Sequence of frames (with optional overrides).
    pub sequence: Vec<ScaledCursorFrameConfig>,
    /// Paths to asset files (with optional transforms).
    pub assets: Vec<AssetConfig>,
    /// Alternate names for the cursor.
    pub aliases: Option<Vec<PlatformAlias>>,
}

impl From<ScaledStaticCursorConfig> for CursorConfig {
    fn from(value: ScaledStaticCursorConfig) -> (c: Self) {
        CursorConfig::ScaledStatic(value)
    }
}

impl vstd::std_specs::convert::FromSpecImpl<ScaledStaticCursorConfig> for CursorConfig {
    open spec fn obeys_from_spec() -> bool {
        true
    }

    open spec fn from_spec(value: ScaledStaticCursorConfig) -> Self {
        CursorConfig::ScaledStatic(value)
    }
}

impl From<ScaledAnimatedCursorConfig> for CursorConfig {
    fn from(value: ScaledAnimatedCursorConfig) -> (c: Self) {
        CursorConfig::ScaledAnimated(value)
    }
}

impl vstd::std_specs::convert::FromSpecImpl<ScaledAnimatedCursorConfig> for CursorConfig {
    open spec fn obeys_from_spec() -> bool {
        true
    }

    open spec fn from_spec(value: ScaledAnimatedCursorConfig) -> Self {
        CursorConfig::ScaledAnimated(value)
    }
}

} // verus!
