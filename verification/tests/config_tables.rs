//! Configuration tables read key by key, as a deserialiser hands them to
//! the library: each key is checked, its value kept, and the fields are
//! finished into a value or an error.

use cursor_kit::config::asset::{AssetValue, AssetValueFields, RotateValue};
use cursor_kit::config::cursor::{
    ConfigError, ConfigField, CursorConfig, CursorIconConfig, CursorSubconfig, ScaledFrame, SubconfigFields,
    SubconfigShape, VerboseFrame,
};
use cursor_kit::config::cursors::alias::PlatformAlias;
use cursor_kit::config::cursors::asset::{AssetConfig, AssetConfigFields};
use cursor_kit::config::cursors::frame::{FrameFields, ScaledCursorFrameConfig};
use cursor_kit::cursor::{CursorDuration, CursorHotspot};
use std::path::PathBuf;

/// A key of a cursor's table with its value; a sequence comes in the form
/// its frames can be read in.
enum Entry {
    Asset(AssetValue),
    Nominal(u32),
    Hotspot((u32, u32)),
    Icons(Vec<CursorIconConfig>),
    Sequence(Option<Vec<ScaledFrame>>, Option<Vec<VerboseFrame>>),
}

fn read_subconfig(entries: Vec<Entry>) -> Result<CursorSubconfig, ConfigError> {
    let mut fields = SubconfigFields::new();
    for entry in entries {
        match entry {
            Entry::Asset(v) => {
                fields.check_key(ConfigField::Asset)?;
                fields.asset = Some(v);
            }
            Entry::Nominal(v) => {
                fields.check_key(ConfigField::Nominal)?;
                fields.nominal = Some(v);
            }
            Entry::Hotspot(v) => {
                fields.check_key(ConfigField::Hotspot)?;
                fields.hotspot = Some(v);
            }
            Entry::Icons(v) => {
                fields.check_key(ConfigField::Icons)?;
                fields.icons = Some(v);
            }
            Entry::Sequence(scaled, verbose) => {
                fields.check_key(ConfigField::Sequence)?;
                if fields.sequence_is_scaled() {
                    fields.scaled_sequence = Some(scaled.expect("frames of one size"));
                } else {
                    fields.verbose_sequence = Some(verbose.expect("frames of several sizes"));
                }
            }
        }
    }
    fields.finish()
}

fn short(p: &str) -> AssetValue {
    AssetValue::Short(PathBuf::from(p))
}

fn empty_sequence() -> Entry {
    Entry::Sequence(Some(vec![]), Some(vec![]))
}

fn test_config(subconfig: CursorSubconfig) -> CursorConfig {
    CursorConfig { name: String::from("test"), targets: None, subconfig }
}

fn unknown(field: ConfigField, shape: SubconfigShape) -> ConfigError {
    ConfigError::UnknownField(field, shape)
}

#[test]
fn deserialize_missing_fields_err() {
    let value = read_subconfig(vec![Entry::Hotspot((2, 2)), Entry::Nominal(12)]);
    assert_eq!(value, Err(ConfigError::MissingFields));
}

#[test]
fn deserialize_scaled_static() {
    let subconfig =
        read_subconfig(vec![Entry::Asset(short("test.png")), Entry::Nominal(12), Entry::Hotspot((2, 2))]).unwrap();
    let expected = test_config(CursorSubconfig::ScaledStatic {
        icon: CursorIconConfig { asset: short("test.png"), nominal: 12, hotspot: (2, 2) },
    });
    assert_eq!(test_config(subconfig), expected);
}

#[test]
fn deserialize_scaled_static_err() {
    let expected_fields = [ConfigField::Asset, ConfigField::Nominal, ConfigField::Hotspot];
    let exprs = [
        (vec![Entry::Asset(short("test.png"))], ConfigError::MissingField(expected_fields[1])),
        (
            vec![Entry::Asset(short("test.png")), Entry::Nominal(12)],
            ConfigError::MissingField(expected_fields[2]),
        ),
        (
            vec![Entry::Asset(short("test.png")), Entry::Hotspot((2, 2)), Entry::Icons(vec![]), Entry::Nominal(12)],
            unknown(ConfigField::Icons, SubconfigShape::ScaledStatic),
        ),
        (
            vec![Entry::Asset(short("test.png")), Entry::Hotspot((2, 2)), Entry::Nominal(12), empty_sequence()],
            unknown(ConfigField::Sequence, SubconfigShape::ScaledStatic),
        ),
    ];
    for (entries, expected) in exprs {
        assert_eq!(read_subconfig(entries), Err(expected));
    }
    assert_eq!(expected_fields.map(|f| f.name()), ["asset", "nominal", "hotspot"]);
}

#[test]
fn deserialize_scaled_animated() {
    let frames = vec![(short("test-01.png"), 200), (short("test-02.png"), 200), (short("test-03.png"), 200)];
    let subconfig = read_subconfig(vec![
        Entry::Nominal(12),
        Entry::Hotspot((2, 2)),
        Entry::Sequence(Some(frames), None),
    ])
    .unwrap();
    let expected = test_config(CursorSubconfig::ScaledAnimated {
        nominal: 12,
        hotspot: (2, 2),
        sequence: vec![(short("test-01.png"), 200), (short("test-02.png"), 200), (short("test-03.png"), 200)],
    });
    assert_eq!(test_config(subconfig), expected);
}

#[test]
fn deserialize_scaled_animated_err() {
    let value = read_subconfig(vec![
        Entry::Hotspot((2, 2)),
        Entry::Icons(vec![]),
        Entry::Nominal(12),
        empty_sequence(),
    ]);
    assert_eq!(value, Err(unknown(ConfigField::Icons, SubconfigShape::ScaledAnimated)));
}

#[test]
fn deserialize_verbose_static() {
    let icon = || CursorIconConfig { asset: short("x1/test.png"), nominal: 12, hotspot: (2, 2) };
    let subconfig = read_subconfig(vec![Entry::Icons(vec![icon()])]).unwrap();
    assert_eq!(test_config(subconfig), test_config(CursorSubconfig::VerboseStatic { icons: vec![icon()] }));
}

#[test]
fn deserialize_verbose_static_err() {
    let exprs = [
        (vec![Entry::Icons(vec![]), Entry::Nominal(12)], unknown(ConfigField::Nominal, SubconfigShape::VerboseStatic)),
        (
            vec![Entry::Hotspot((2, 2)), Entry::Icons(vec![])],
            unknown(ConfigField::Hotspot, SubconfigShape::VerboseStatic),
        ),
        (vec![Entry::Icons(vec![]), empty_sequence()], unknown(ConfigField::Sequence, SubconfigShape::VerboseStatic)),
    ];
    for (entries, expected) in exprs {
        assert_eq!(read_subconfig(entries), Err(expected));
    }
}

#[test]
fn deserialize_verbose_animated() {
    let frame = || VerboseFrame {
        duration: 200,
        icons: vec![CursorIconConfig { asset: short("x1/test-01.png"), nominal: 12, hotspot: (2, 2) }],
    };
    let subconfig = read_subconfig(vec![Entry::Sequence(None, Some(vec![frame()]))]).unwrap();
    assert_eq!(test_config(subconfig), test_config(CursorSubconfig::VerboseAnimated { sequence: vec![frame()] }));
}

#[test]
fn deserialize_verbose_animated_err() {
    let exprs = [
        (vec![Entry::Nominal(12), empty_sequence()], unknown(ConfigField::Nominal, SubconfigShape::VerboseAnimated)),
        (
            vec![Entry::Hotspot((2, 2)), empty_sequence()],
            unknown(ConfigField::Hotspot, SubconfigShape::VerboseAnimated),
        ),
    ];
    for (entries, expected) in exprs {
        assert_eq!(read_subconfig(entries), Err(expected));
    }
}

#[test]
fn deserialize_from_string() {
    let value = short("/foo/bar");
    assert_eq!(value, AssetValue::Short(PathBuf::from("/foo/bar")));
    assert_eq!(value.path(), &PathBuf::from("/foo/bar"));
}

#[test]
fn deserialize_from_table() {
    let mut fields = AssetValueFields::new();
    fields.check_key(ConfigField::Path).unwrap();
    fields.path = Some(PathBuf::from("/foo/bar"));
    let expected = AssetValue::Verbose { path: PathBuf::from("/foo/bar"), flip: None, flop: None, rotate: None };
    assert_eq!(fields.finish(), Ok(expected));
}

#[test]
fn deserialize_from_table_err() {
    let value = AssetValueFields::new().finish();
    assert_eq!(value, Err(ConfigError::MissingField(ConfigField::Path)));
    assert_eq!(ConfigField::Path.name(), "path");
}

#[test]
fn deserialize_from_table_with_transforms() {
    let mut fields = AssetValueFields::new();
    fields.flip = Some(true);
    fields.flop = Some(true);
    fields.path = Some(PathBuf::from("/foo/bar"));
    fields.check_key(ConfigField::Rotate).unwrap();
    fields.rotate = RotateValue::from_degrees(180);
    let expected = AssetValue::Verbose {
        path: PathBuf::from("/foo/bar"),
        flip: Some(true),
        flop: Some(true),
        rotate: Some(RotateValue::OneEighty),
    };
    assert_eq!(fields.finish(), Ok(expected));
}

#[test]
fn test_platform_alias_deserialize() {
    let exprs = [
        ("test", PlatformAlias::Global("test".into())),
        ("linux:test", PlatformAlias::Linux("test".into())),
        ("macos:test", PlatformAlias::Macos("test".into())),
        ("windows:test", PlatformAlias::Windows("test".into())),
    ];
    for (raw_value, expected) in exprs {
        assert_eq!(PlatformAlias::parse(raw_value), expected);
    }
}

#[test]
fn test_deserialize_from_string() {
    let value = AssetConfig::from(PathBuf::from("/foo/bar"));
    assert_eq!(value, AssetConfig { path: PathBuf::from("/foo/bar"), flip: None, flop: None, rotate: None });
}

#[test]
fn asset_test_deserialize_from_table() {
    let mut fields = AssetConfigFields::new();
    fields.check_key(ConfigField::Path).unwrap();
    fields.path = Some(PathBuf::from("/foo/bar"));
    assert_eq!(fields.finish(), Ok(PathBuf::from("/foo/bar").into()));
}

#[test]
fn test_deserialize_from_table_with_transforms() {
    let mut fields = AssetConfigFields::new();
    fields.flip = Some(true);
    fields.flop = Some(true);
    fields.path = Some(PathBuf::from("/foo/bar"));
    fields.set_rotate(180).unwrap();
    assert_eq!(
        fields.finish(),
        Ok(AssetConfig { path: PathBuf::from("/foo/bar"), flip: Some(true), flop: Some(true), rotate: Some(180) })
    );
}

#[test]
fn test_deserialize_from_table_with_transforms_error() {
    let mut fields = AssetConfigFields::new();
    fields.flip = Some(true);
    fields.flop = Some(true);
    fields.path = Some(PathBuf::from("/foo/bar"));
    assert_eq!(fields.set_rotate(365), Err(ConfigError::RotateTooLarge));
}

#[test]
fn test_deserialize_from_int() {
    assert_eq!(ScaledCursorFrameConfig::from_integer(0), Ok(Default::default()));
}

#[test]
fn test_deserialize_from_int_error() {
    assert_eq!(ScaledCursorFrameConfig::from_integer(-1), Err(ConfigError::NegativeInteger));
}

#[test]
fn frame_test_deserialize_from_table() {
    let mut fields = FrameFields::new();
    fields.check_key(ConfigField::Asset).unwrap();
    fields.asset = Some(0);
    assert_eq!(fields.finish(), Ok(Default::default()));
}

#[test]
fn test_deserialize_from_table_with_overrides() {
    let mut fields = FrameFields::new();
    fields.asset = Some(0);
    fields.check_key(ConfigField::Duration).unwrap();
    fields.duration = Some(CursorDuration::from_milliseconds(200));
    fields.hotspot = Some(CursorHotspot { x: 4, y: 4 });
    fields.nominal = Some(24);
    assert_eq!(
        fields.finish(),
        Ok(ScaledCursorFrameConfig {
            asset: 0,
            nominal: Some(24),
            hotspot: Some(CursorHotspot { x: 4, y: 4 }),
            duration: Some(CursorDuration::from_milliseconds(200)),
        })
    );
}
