//! The configuration of one cursor, and the decision that turns the fields
//! of its table into one of four shapes.

use crate::config::asset::AssetValue;
use vstd::prelude::*;

verus! {

/// A key of a configuration table.
#[derive(Debug, Clone, Copy, PartialEq, Eq, Structural)]
pub enum ConfigField {
    Path,
    Flip,
    Flop,
    Rotate,
    Asset,
    Nominal,
    Hotspot,
    Icons,
    Sequence,
    Duration,
}

impl ConfigField {
    /// The key as it is written.
    pub fn name(self) -> (n: &'static str)
        ensures
            n@ == match self {
                ConfigField::Path => "path"@,
                ConfigField::Flip => "flip"@,
                ConfigField::Flop => "flop"@,
                ConfigField::Rotate => "rotate"@,
                ConfigField::Asset => "asset"@,
                ConfigField::Nominal => "nominal"@,
                ConfigField::Hotspot => "hotspot"@,
                ConfigField::Icons => "icons"@,
                ConfigField::Sequence => "sequence"@,
                ConfigField::Duration => "duration"@,
            },
    {
        match self {
            ConfigField::Path => "path",
            ConfigField::Flip => "flip",
            ConfigField::Flop => "flop",
            ConfigField::Rotate => "rotate",
            ConfigField::Asset => "asset",
            ConfigField::Nominal => "nominal",
            ConfigField::Hotspot => "hotspot",
            ConfigField::Icons => "icons",
            ConfigField::Sequence => "sequence",
            ConfigField::Duration => "duration",
        }
    }
}

/// The shapes of a cursor's table, each with the keys it allows.
#[derive(Debug, Clone, Copy, PartialEq, Eq, Structural)]
pub enum SubconfigShape {
    /// `asset`, `nominal` and `hotspot`.
    ScaledStatic,
    /// `nominal`, `hotspot` and `sequence`.
    ScaledAnimated,
    /// `icons`.
    VerboseStatic,
    /// `sequence`.
    VerboseAnimated,
}

/// Why a configuration table could not be read.
#[derive(Debug, Clone, Copy, PartialEq, Eq, Structural)]
pub enum ConfigError {
    /// The key was given twice.
    DuplicateField(ConfigField),
    /// The key is needed and was not given.
    MissingField(ConfigField),
    /// The key does not belong to the shape of the table.
    UnknownField(ConfigField, SubconfigShape),
    /// A rotation above 360 degrees.
    RotateTooLarge,
    /// None of `asset`, `icons` and `sequence` was given.
    MissingFields,
    /// A frame's asset index was negative.
    NegativeInteger,
}

/// Where a cursor is installed under other names.
#[derive(Debug, Clone, Default, PartialEq, Eq)]
pub struct CursorTargets {
    pub linux: Option<LinuxSpecificConfig>,
    pub windows: Option<WindowsSpecificConfig>,
}

/// What a cursor is called on Linux.
#[derive(Debug, Clone, Default, PartialEq, Eq)]
pub struct LinuxSpecificConfig {
    pub name: Option<String>,
    pub aliases: Option<Vec<String>>,
}

/// What a cursor is called on Windows.
#[derive(Debug, Clone, Default, PartialEq, Eq)]
pub struct WindowsSpecificConfig {
    pub name: Option<String>,
}

/// One image of a cursor.
#[derive(Debug, PartialEq, Eq)]
pub struct CursorIconConfig {
    pub asset: AssetValue,
    pub nominal: u32,
    pub hotspot: (u32, u32),
}

/// One frame of an animation drawn at one size: its asset and duration.
pub type ScaledFrame = (AssetValue, u32);

/// One frame of an animation given at several sizes.
#[derive(Debug, PartialEq, Eq)]
pub struct VerboseFrame {
    pub icons: Vec<CursorIconConfig>,
    pub duration: u32,
}

/// The images of a cursor, in one of four shapes.
#[derive(Debug, PartialEq, Eq)]
pub enum CursorSubconfig {
    ScaledStatic { icon: CursorIconConfig },
    ScaledAnimated { nominal: u32, hotspot: (u32, u32), sequence: Vec<ScaledFrame> },
    VerboseStatic { icons: Vec<CursorIconConfig> },
    VerboseAnimated { sequence: Vec<VerboseFrame> },
}

/// A cursor: its name, where it goes, and its images.
#[derive(Debug, PartialEq, Eq)]
pub struct CursorConfig {
    pub name: String,
    pub targets: Option<CursorTargets>,
    pub subconfig: CursorSubconfig,
}

/// The fields of a cursor's table read so far.
pub struct SubconfigFields {
    pub asset: Option<AssetValue>,
    pub nominal: Option<u32>,
    pub hotspot: Option<(u32, u32)>,
    pub icons: Option<Vec<CursorIconConfig>>,
    pub scaled_sequence: Option<Vec<ScaledFrame>>,
    pub verbose_sequence: Option<Vec<VerboseFrame>>,
}

/// What a table's fields make of a cursor: a single asset with its size and
/// hotspot; else a sequence read with a size and hotspot; else icons; else
/// a sequence of frames, each shape refusing the keys of the others.
pub open spec fn subconfig_of(f: SubconfigFields) -> Result<CursorSubconfig, ConfigError> {
    if f.asset is Some {
        if f.nominal is None {
            Err(ConfigError::MissingField(ConfigField::Nominal))
        } else if f.hotspot is None {
            Err(ConfigError::MissingField(ConfigField::Hotspot))
        } else if f.icons is Some {
            Err(ConfigError::UnknownField(ConfigField::Icons, SubconfigShape::ScaledStatic))
        } else if f.scaled_sequence is Some || f.verbose_sequence is Some {
            Err(ConfigError::UnknownField(ConfigField::Sequence, SubconfigShape::ScaledStatic))
        } else {
            Ok(
                CursorSubconfig::ScaledStatic {
                    icon: CursorIconConfig {
                        asset: f.asset.unwrap(),
                        nominal: f.nominal.unwrap(),
                        hotspot: f.hotspot.unwrap(),
                    },
                },
            )
        }
    } else if f.scaled_sequence is Some {
        if f.icons is Some {
            Err(ConfigError::UnknownField(ConfigField::Icons, SubconfigShape::ScaledAnimated))
        } else {
            Ok(
                CursorSubconfig::ScaledAnimated {
                    nominal: f.nominal.unwrap(),
                    hotspot: f.hotspot.unwrap(),
                    sequence: f.scaled_sequence.unwrap(),
                },
            )
        }
    } else if f.icons is Some {
        if f.nominal is Some {
            Err(ConfigError::UnknownField(ConfigField::Nominal, SubconfigShape::VerboseStatic))
        } else if f.hotspot is Some {
            Err(ConfigError::UnknownField(ConfigField::Hotspot, SubconfigShape::VerboseStatic))
        } else if f.verbose_sequence is Some {
            Err(ConfigError::UnknownField(ConfigField::Sequence, SubconfigShape::VerboseStatic))
        } else {
            Ok(CursorSubconfig::VerboseStatic { icons: f.icons.unwrap() })
        }
    } else if f.verbose_sequence is Some {
        if f.nominal is Some {
            Err(ConfigError::UnknownField(ConfigField::Nominal, SubconfigShape::VerboseAnimated))
        } else if f.hotspot is Some {
            Err(ConfigError::UnknownField(ConfigField::Hotspot, SubconfigShape::VerboseAnimated))
        } else {
            Ok(CursorSubconfig::VerboseAnimated { sequence: f.verbose_sequence.unwrap() })
        }
    } else {
        Err(ConfigError::MissingFields)
    }
}

/// A sequence is read as frames of one size once the size and hotspot are
/// known; the fields read so far agree with that.
pub open spec fn sequence_consistent(f: SubconfigFields) -> bool {
    f.scaled_sequence is Some ==> f.nominal is Some && f.hotspot is Some
}

impl SubconfigFields {
    /// No field read yet.
    pub fn new() -> (f: Self)
        ensures
            f.asset is None && f.nominal is None && f.hotspot is None && f.icons is None
                && f.scaled_sequence is None && f.verbose_sequence is None,
    {
        SubconfigFields {
            asset: None,
            nominal: None,
            hotspot: None,
            icons: None,
            scaled_sequence: None,
            verbose_sequence: None,
        }
    }

    /// Whether the key may be read now: a field may be given once, and
    /// `sequence` once whichever way it was read.
    pub fn check_key(&self, key: ConfigField) -> (r: Result<(), ConfigError>)
        requires
            key is Asset || key is Nominal || key is Hotspot || key is Icons || key is Sequence,
        ensures
            r is Err <==> match key {
                ConfigField::Asset => self.asset is Some,
                ConfigField::Nominal => self.nominal is Some,
                ConfigField::Hotspot => self.hotspot is Some,
                ConfigField::Icons => self.icons is Some,
                _ => self.scaled_sequence is Some || self.verbose_sequence is Some,
            },
            r matches Err(e) ==> e == ConfigError::DuplicateField(key),
    {
        let taken = match key {
            ConfigField::Asset => self.asset.is_some(),
            ConfigField::Nominal => self.nominal.is_some(),
            ConfigField::Hotspot => self.hotspot.is_some(),
            ConfigField::Icons => self.icons.is_some(),
            _ => self.scaled_sequence.is_some() || self.verbose_sequence.is_some(),
        };
        if taken {
            Err(ConfigError::DuplicateField(key))
        } else {
            Ok(())
        }
    }

    /// Whether a `sequence` read now holds frames of one size: so it does
    /// once both the size and the hotspot were read.
    pub fn sequence_is_scaled(&self) -> (b: bool)
        ensures
            b == (self.nominal is Some && self.hotspot is Some),
    {
        self.nominal.is_some() && self.hotspot.is_some()
    }

    /// The cursor images that the fields make.
    pub fn finish(self) -> (r: Result<CursorSubconfig, ConfigError>)
        requires
            sequence_consistent(self),
        ensures
            r == subconfig_of(self),
    {
        let ghost f = self;
        let SubconfigFields { asset, nominal, hotspot, icons, scaled_sequence, verbose_sequence } =
            self;
        if let Some(asset) = asset {
            match (nominal, hotspot) {
                (None, _) => Err(ConfigError::MissingField(ConfigField::Nominal)),
                (_, None) => Err(ConfigError::MissingField(ConfigField::Hotspot)),
                (Some(nominal), Some(hotspot)) => {
                    if icons.is_some() {
                        Err(ConfigError::UnknownField(ConfigField::Icons, SubconfigShape::ScaledStatic))
                    } else if scaled_sequence.is_some() || verbose_sequence.is_some() {
                        Err(ConfigError::UnknownField(ConfigField::Sequence, SubconfigShape::ScaledStatic))
                    } else {
                        Ok(CursorSubconfig::ScaledStatic { icon: CursorIconConfig { asset, nominal, hotspot } })
                    }
                },
            }
        } else if let Some(sequence) = scaled_sequence {
            if icons.is_some() {
                Err(ConfigError::UnknownField(ConfigField::Icons, SubconfigShape::ScaledAnimated))
            } else {
                Ok(
                    CursorSubconfig::ScaledAnimated {
                        nominal: nominal.unwrap(),
                        hotspot: hotspot.unwrap(),
                        sequence,
                    },
                )
            }
        } else if let Some(icons) = icons {
            if nominal.is_some() {
                Err(ConfigError::UnknownField(ConfigField::Nominal, SubconfigShape::VerboseStatic))
            } else if hotspot.is_some() {
                Err(ConfigError::UnknownField(ConfigField::Hotspot, SubconfigShape::VerboseStatic))
            } else if verbose_sequence.is_some() {
                Err(ConfigError::UnknownField(ConfigField::Sequence, SubconfigShape::VerboseStatic))
            } else {
                Ok(CursorSubconfig::VerboseStatic { icons })
            }
        } else if let Some(sequence) = verbose_sequence {
            if nominal.is_some() {
                Err(ConfigError::UnknownField(ConfigField::Nominal, SubconfigShape::VerboseAnimated))
            } else if hotspot.is_some() {
                Err(ConfigError::UnknownField(ConfigField::Hotspot, SubconfigShape::VerboseAnimated))
            } else {
                Ok(CursorSubconfig::VerboseAnimated { sequence })
            }
        } else {
            Err(ConfigError::MissingFields)
        }
    }
}

} // verus!
