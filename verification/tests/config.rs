use cursor_kit::config::alias::{ParsePlatformAliasError, PlatformAlias};
use cursor_kit::config::asset::{AssetValue, AssetValueFields, RotateValue};
use cursor_kit::config::cursor::{
    ConfigError, ConfigField, SubconfigFields,
};
use cursor_kit::config::cursors::alias::PlatformAlias as ScopedAlias;
use cursor_kit::config::cursors::asset::{AssetConfig, AssetConfigFields};
use cursor_kit::config::cursors::frame::{FrameFields, ScaledCursorFrameConfig};
use std::path::PathBuf;
use std::str::FromStr;

#[test]
fn test_platform_alias_from_str() {
    assert_eq!(PlatformAlias::from_str("linux:test"), Ok(PlatformAlias::Linux("test".into())));
    assert_eq!(PlatformAlias::from_str("macos:test"), Ok(PlatformAlias::Macos("test".into())));
    assert_eq!(PlatformAlias::from_str("windows:test"), Ok(PlatformAlias::Windows("test".into())));
    assert_eq!(PlatformAlias::from_str("test"), Err(ParsePlatformAliasError));
}

#[test]
fn alias_test_platform_alias_from_str() {
    assert_eq!(ScopedAlias::from_str("test"), Ok(ScopedAlias::Global("test".into())));
    assert_eq!(ScopedAlias::from_str("linux:test"), Ok(ScopedAlias::Linux("test".into())));
    assert_eq!(ScopedAlias::from_str("macos:test"), Ok(ScopedAlias::Macos("test".into())));
    assert_eq!(ScopedAlias::from_str("windows:test"), Ok(ScopedAlias::Windows("test".into())));
}

#[test]
fn alias_prefix_only() {
    assert_eq!(PlatformAlias::from_str("linux:"), Ok(PlatformAlias::Linux(String::new())));
    assert_eq!(ScopedAlias::from_str("Linux:x"), Ok(ScopedAlias::Global("Linux:x".into())));
    assert_eq!(
        ParsePlatformAliasError.to_string(),
        "expected a string prepended by either 'linux:', 'macos:', or 'windows:'"
    );
}

#[test]
fn test_from_path_buf() {
    assert_eq!(AssetConfig::from(PathBuf::new()), Default::default());
}

#[test]
fn test_from_usize() {
    assert_eq!(ScaledCursorFrameConfig::from(0), Default::default());
}

#[test]
fn frame_from_negative_integer_is_refused() {
    assert_eq!(ScaledCursorFrameConfig::from_integer(-1), Err(ConfigError::NegativeInteger));
    assert_eq!(ScaledCursorFrameConfig::from_integer(0), Ok(Default::default()));
}

#[test]
fn frame_fields_need_an_asset() {
    let mut fields = FrameFields::new();
    assert_eq!(fields.finish(), Err(ConfigError::MissingField(ConfigField::Asset)));
    fields = FrameFields::new();
    assert_eq!(fields.check_key(ConfigField::Asset), Ok(()));
    fields.asset = Some(3);
    assert_eq!(fields.check_key(ConfigField::Asset), Err(ConfigError::DuplicateField(ConfigField::Asset)));
    assert_eq!(fields.finish().unwrap().asset, 3);
}

#[test]
fn asset_config_rotation_limit() {
    let mut fields = AssetConfigFields::new();
    assert_eq!(fields.set_rotate(365), Err(ConfigError::RotateTooLarge));
    assert_eq!(fields.set_rotate(180), Ok(()));
    fields.path = Some(PathBuf::from("/foo/bar"));
    fields.flip = Some(true);
    fields.flop = Some(true);
    assert_eq!(
        fields.finish(),
        Ok(AssetConfig { path: PathBuf::from("/foo/bar"), flip: Some(true), flop: Some(true), rotate: Some(180) })
    );
}

#[test]
fn asset_config_needs_a_path() {
    assert_eq!(AssetConfigFields::new().finish(), Err(ConfigError::MissingField(ConfigField::Path)));
}

#[test]
fn asset_value_fields() {
    let mut fields = AssetValueFields::new();
    assert_eq!(fields.check_key(ConfigField::Path), Ok(()));
    fields.path = Some(PathBuf::from("/foo/bar"));
    assert_eq!(fields.check_key(ConfigField::Path), Err(ConfigError::DuplicateField(ConfigField::Path)));
    fields.rotate = RotateValue::from_degrees(180);
    let value = fields.finish().unwrap();
    assert_eq!(value.path(), &PathBuf::from("/foo/bar"));
    assert_eq!(
        value,
        AssetValue::Verbose { path: PathBuf::from("/foo/bar"), flip: None, flop: None, rotate: Some(RotateValue::OneEighty) }
    );
    assert_eq!(AssetValueFields::new().finish(), Err(ConfigError::MissingField(ConfigField::Path)));
}

#[test]
fn rotate_values() {
    assert_eq!(RotateValue::from_degrees(90), Some(RotateValue::Ninety));
    assert_eq!(RotateValue::from_degrees(270), Some(RotateValue::TwoSeventy));
    assert_eq!(RotateValue::from_degrees(45), None);
    assert_eq!(RotateValue::OneEighty.degrees(), 180);
}

#[test]
fn subconfig_duplicate_sequence() {
    let mut fields = SubconfigFields::new();
    assert_eq!(fields.check_key(ConfigField::Sequence), Ok(()));
    fields.verbose_sequence = Some(vec![]);
    assert_eq!(fields.check_key(ConfigField::Sequence), Err(ConfigError::DuplicateField(ConfigField::Sequence)));
    assert_eq!(ConfigField::Sequence.name(), "sequence");
}
