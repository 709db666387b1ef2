//! The frames of an animation drawn at one size: an index into the assets,
//! with optional overrides.

use crate::config::cursor::{ConfigError, ConfigField};
use crate::cursor::{CursorDuration, CursorHotspot};
use vstd::prelude::*;

verus! {

/// One frame of an animation drawn at one size.
#[derive(Debug, Clone, Copy, PartialEq, Eq, Default)]
pub struct ScaledCursorFrameConfig {
    /// Index of an asset of the cursor.
    pub asset: usize,
    /// Nominal size of the frame (overrides the cursor's).
    pub nominal: Option<u32>,
    /// Co-ordinates of the cursor tip (overrides the cursor's).
    pub hotspot: Option<CursorHotspot>,
    /// Duration of this frame.
    pub duration: Option<CursorDuration>,
}

impl From<usize> for ScaledCursorFrameConfig {
    fn from(value: usize) -> (c: Self) {
        ScaledCursorFrameConfig { asset: value, nominal: None, hotspot: None, duration: None }
    }
}

impl vstd::std_specs::convert::FromSpecImpl<usize> for ScaledCursorFrameConfig {
    open spec fn obeys_from_spec() -> bool {
        true
    }

    open spec fn from_spec(value: usize) -> Self {
        ScaledCursorFrameConfig { asset: value, nominal: None, hotspot: None, duration: None }
    }
}

impl ScaledCursorFrameConfig {
    /// The frame that a bare integer gives: the asset of that index, which
    /// must not be negative.
    pub fn from_integer(v: i64) -> (r: Result<Self, ConfigError>)
        ensures
            v < 0 ==> r == Err::<Self, ConfigError>(ConfigError::NegativeInteger),
            v >= 0 ==> r == Ok::<Self, ConfigError>(
                ScaledCursorFrameConfig { asset: v as usize, nominal: None, hotspot: None, duration: None },
            ),
    {
        if v < 0 {
            return Err(ConfigError::NegativeInteger);
        }
        Ok(ScaledCursorFrameConfig { asset: v as usize, nominal: None, hotspot: None, duration: None })
    }
}

/// The fields of a frame table read so far.
pub struct FrameFields {
    pub asset: Option<usize>,
    pub nominal: Option<u32>,
    pub hotspot: Option<CursorHotspot>,
    pub duration: Option<CursorDuration>,
}

impl FrameFields {
    /// No field read yet.
    pub fn new() -> (f: Self)
        ensures
            f.asset is None && f.nominal is None && f.hotspot is None && f.duration is None,
    {
        FrameFields { asset: None, nominal: None, hotspot: None, duration: None }
    }

    /// Whether the key may be read now: a field may be given once.
    pub fn check_key(&self, key: ConfigField) -> (r: Result<(), ConfigError>)
        requires
            key is Asset || key is Nominal || key is Hotspot || key is Duration,
        ensures
            r is Err <==> match key {
                ConfigField::Asset => self.asset is Some,
                ConfigField::Nominal => self.nominal is Some,
                ConfigField::Hotspot => self.hotspot is Some,
                _ => self.duration is Some,
            },
            r matches Err(e) ==> e == ConfigError::DuplicateField(key),
    {
        let taken = match key {
            ConfigField::Asset => self.asset.is_some(),
            ConfigField::Nominal => self.nominal.is_some(),
            ConfigField::Hotspot => self.hotspot.is_some(),
            _ => self.duration.is_some(),
        };
        if taken {
            Err(ConfigError::DuplicateField(key))
        } else {
            Ok(())
        }
    }

    /// The frame the fields make: an asset index is needed.
    pub fn finish(self) -> (r: Result<ScaledCursorFrameConfig, ConfigError>)
        ensures
            match self.asset {
                None => r == Err::<ScaledCursorFrameConfig, ConfigError>(
                    ConfigError::MissingField(ConfigField::Asset),
                ),
                Some(asset) => r == Ok::<ScaledCursorFrameConfig, ConfigError>(
                    ScaledCursorFrameConfig {
                        asset,
                        nominal: self.nominal,
                        hotspot: self.hotspot,
                        duration: self.duration,
                    },
                ),
            },
    {
        match self.asset {
            None => Err(ConfigError::MissingField(ConfigField::Asset)),
            Some(asset) => Ok(
                ScaledCursorFrameConfig {
                    asset,
                    nominal: self.nominal,
                    hotspot: self.hotspot,
                    duration: self.duration,
                },
            ),
        }
    }
}

} // verus!
