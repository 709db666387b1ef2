//! Image assets: a path, with optional flips and a rotation.

use crate::config::cursor::{ConfigError, ConfigField};
use std::path::PathBuf;
use vstd::prelude::*;

verus! {

#[verifier::external_type_specification]
#[verifier::external_body]
pub struct ExPathBuf(PathBuf);

/// A rotation by a quarter turn, a half turn or three quarters.
#[derive(Debug, Clone, Copy, PartialEq, Eq, Structural)]
pub enum RotateValue {
    Ninety,
    OneEighty,
    TwoSeventy,
}

impl RotateValue {
    /// The angle in degrees.
    pub open spec fn spec_degrees(self) -> u16 {
        match self {
            RotateValue::Ninety => 90,
            RotateValue::OneEighty => 180,
            RotateValue::TwoSeventy => 270,
        }
    }

    /// Returns the angle in degrees.
    pub fn degrees(self) -> (d: u16)
        ensures
            d == self.spec_degrees(),
    {
        match self {
            RotateValue::Ninety => 90,
            RotateValue::OneEighty => 180,
            RotateValue::TwoSeventy => 270,
        }
    }

    /// The rotation of `degrees`, where it is one of 90, 180 and 270.
    pub fn from_degrees(degrees: u16) -> (r: Option<Self>)
        ensures
            match r {
                Some(v) => v.spec_degrees() == degrees,
                None => degrees != 90 && degrees != 180 && degrees != 270,
            },
    {
        if degrees == 90 {
            Some(RotateValue::Ninety)
        } else if degrees == 180 {
            Some(RotateValue::OneEighty)
        } else if degrees == 270 {
            Some(RotateValue::TwoSeventy)
        } else {
            None
        }
    }
}

/// An asset: a bare path, or a path with transforms.
#[derive(Debug, PartialEq, Eq)]
pub enum AssetValue {
    Short(PathBuf),
    Verbose { path: PathBuf, flip: Option<bool>, flop: Option<bool>, rotate: Option<RotateValue> },
}

impl AssetValue {
    /// Returns a reference to the underlying `PathBuf`.
    pub fn path(&self) -> (p: &PathBuf)
        ensures
            *p == match self {
                AssetValue::Short(path) => *path,
                AssetValue::Verbose { path, .. } => *path,
            },
    {
        match self {
            AssetValue::Short(path) => path,
            AssetValue::Verbose { path, .. } => path,
        }
    }
}

/// The fields of an asset table read so far.
pub struct AssetValueFields {
    pub path: Option<PathBuf>,
    pub flip: Option<bool>,
    pub flop: Option<bool>,
    pub rotate: Option<RotateValue>,
}

impl AssetValueFields {
    /// No field read yet.
    pub fn new() -> (f: Self)
        ensures
            f.path is None && f.flip is None && f.flop is None && f.rotate is None,
    {
        AssetValueFields { path: None, flip: None, flop: None, rotate: None }
    }

    /// Whether the key may be read now: a field may be given once.
    pub fn check_key(&self, key: ConfigField) -> (r: Result<(), ConfigError>)
        requires
            key is Path || key is Flip || key is Flop || key is Rotate,
        ensures
            r is Err <==> match key {
                ConfigField::Path => self.path is Some,
                ConfigField::Flip => self.flip is Some,
                ConfigField::Flop => self.flop is Some,
                _ => self.rotate is Some,
            },
            r matches Err(e) ==> e == ConfigError::DuplicateField(key),
    {
        let taken = match key {
            ConfigField::Path => self.path.is_some(),
            ConfigField::Flip => self.flip.is_some(),
            ConfigField::Flop => self.flop.is_some(),
            _ => self.rotate.is_some(),
        };
        if taken {
            Err(ConfigError::DuplicateField(key))
        } else {
            Ok(())
        }
    }

    /// The asset the fields make: a path is needed.
    pub fn finish(self) -> (r: Result<AssetValue, ConfigError>)
        ensures
            match self.path {
                None => r == Err::<AssetValue, ConfigError>(ConfigError::MissingField(ConfigField::Path)),
                Some(path) => r == Ok::<AssetValue, ConfigError>(
                    AssetValue::Verbose { path, flip: self.flip, flop: self.flop, rotate: self.rotate },
                ),
            },
    {
        match self.path {
            None => Err(ConfigError::MissingField(ConfigField::Path)),
            Some(path) => Ok(AssetValue::Verbose { path, flip: self.flip, flop: self.flop, rotate: self.rotate }),
        }
    }
}

} // verus!
