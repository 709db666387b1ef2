//! The asset of a cursor image: a path, with optional flips and a rotation
//! of at most 360 degrees.

use crate::config::cursor::{ConfigError, ConfigField};
use std::path::PathBuf;
use vstd::prelude::*;

verus! {

/// `PathBuf::new`: a new, empty path.
#[verifier::external_body]
fn empty_path() -> (p: PathBuf) {
    PathBuf::new()
}

/// An image asset and its transforms.
#[derive(Debug, PartialEq)]
pub struct AssetConfig {
    /// Path to the image file.
    pub path: PathBuf,
    /// Whether the image should be horizontally flipped.
    pub flip: Option<bool>,
    /// Whether the image should be vertically flipped.
    pub flop: Option<bool>,
    /// How much the image should be rotated.
    pub rotate: Option<u16>,
}

impl From<PathBuf> for AssetConfig {
    fn from(value: PathBuf) -> (c: Self) {
        AssetConfig { path: value, flip: None, flop: None, rotate: None }
    }
}

impl vstd::std_specs::convert::FromSpecImpl<PathBuf> for AssetConfig {
    open spec fn obeys_from_spec() -> bool {
        true
    }

    open spec fn from_spec(value: PathBuf) -> Self {
        AssetConfig { path: value, flip: None, flop: None, rotate: None }
    }
}

impl Default for AssetConfig {
    /// The asset at the empty path, untransformed. (What path `PathBuf::new`
    /// gives is not stated.)
    fn default() -> (c: Self)
        ensures
            c.flip is None && c.flop is None && c.rotate is None,
    {
        AssetConfig { path: empty_path(), flip: None, flop: None, rotate: None }
    }
}

/// The fields of an asset table read so far.
pub struct AssetConfigFields {
    pub path: Option<PathBuf>,
    pub flip: Option<bool>,
    pub flop: Option<bool>,
    pub rotate: Option<u16>,
}

impl AssetConfigFields {
    /// No field read yet.
    pub fn new() -> (f: Self)
        ensures
            f.path is None && f.flip is None && f.flop is None && f.rotate is None,
    {
        AssetConfigFields { path: None, flip: None, flop: None, rotate: None }
    }

    /// Whether the key may be read now: a field may be given once.
    pub fn check_key(&self, key: ConfigField) -> (r: Result<(), ConfigError>)
        requires
            key is Path || key is Flip || key is Flop || key is Rotate,
        ensures
            r is Err <==> match key {
                ConfigField::Path => self.path is Some,
                ConfigField::Flip => self.flip is Some,
                ConfigField::Flop => self.flop is Some,
                _ => self.rotate is Some,
            },
            r matches Err(e) ==> e == ConfigError::DuplicateField(key),
    {
        let taken = match key {
            ConfigField::Path => self.path.is_some(),
            ConfigField::Flip => self.flip.is_some(),
            ConfigField::Flop => self.flop.is_some(),
            _ => self.rotate.is_some(),
        };
        if taken {
            Err(ConfigError::DuplicateField(key))
        } else {
            Ok(())
        }
    }

    /// Keeps a rotation read from the table: at most 360 degrees.
    pub fn set_rotate(&mut self, value: u16) -> (r: Result<(), ConfigError>)
        ensures
            value > 360 ==> r == Err::<(), ConfigError>(ConfigError::RotateTooLarge) && final(self).rotate
                == old(self).rotate,
            value <= 360 ==> r is Ok && final(self).rotate == Some(value),
            final(self).path == old(self).path,
            final(self).flip == old(self).flip,
            final(self).flop == old(self).flop,
    {
        if value > 360 {
            return Err(ConfigError::RotateTooLarge);
        }
        self.rotate = Some(value);
        Ok(())
    }

    /// The asset the fields make: a path is needed.
    pub fn finish(self) -> (r: Result<AssetConfig, ConfigError>)
        ensures
            match self.path {
                None => r == Err::<AssetConfig, ConfigError>(ConfigError::MissingField(ConfigField::Path)),
                Some(path) => r == Ok::<AssetConfig, ConfigError>(
                    AssetConfig { path, flip: self.flip, flop: self.flop, rotate: self.rotate },
                ),
            },
    {
        match self.path {
            None => Err(ConfigError::MissingField(ConfigField::Path)),
            Some(path) => Ok(AssetConfig { path, flip: self.flip, flop: self.flop, rotate: self.rotate }),
        }
    }
}

} // verus!
