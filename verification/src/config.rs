//! Cursor theme configuration: platform aliases, image assets, and the
//! decisions that turn the fields of a configuration entry into a value.

pub mod alias;
pub mod asset;
pub mod cursor;
pub mod cursors;
pub mod package;

use crate::config::cursor::CursorConfig;
use crate::config::package::PackageConfig;
use vstd::prelude::*;

verus! {

/// A whole theme: its package description and its cursors.
#[derive(Debug)]
pub struct Config {
    pub package: PackageConfig,
    pub cursors: Vec<CursorConfig>,
}

} // verus!
