//! The description of a cursor theme as a package.

use std::collections::BTreeMap;
use vstd::prelude::*;

verus! {

/// A theme's name and description, and their wording in other languages.
#[derive(Debug, Clone, PartialEq, Eq)]
pub struct PackageConfig {
    pub name: String,
    pub comment: String,
    pub example: Option<String>,
    pub hidden: Option<bool>,
    pub locales: Option<BTreeMap<String, PackageLocaleConfig>>,
}

/// A theme's name and description in one language.
#[derive(Debug, Clone, PartialEq, Eq)]
pub struct PackageLocaleConfig {
    pub name: Option<String>,
    pub comment: Option<String>,
}

} // verus!
