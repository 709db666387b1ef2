//! Names that a cursor also answers to: on one platform (`linux:name`,
//! `macos:name`, `windows:name`) or on all of them (any other string).

use crate::config::alias::{linux_prefix, macos_prefix, windows_prefix};
use crate::text::strip_prefix;
use vstd::prelude::*;

verus! {

/// An alternate name for a cursor, on one platform or on all.
#[derive(Debug, Clone, PartialEq, Eq)]
pub enum PlatformAlias {
    Global(String),
    Linux(String),
    Macos(String),
    Windows(String),
}

/// Which platforms an alias is for, and its name, as characters.
pub enum ScopedAliasModel {
    Global(Seq<char>),
    Linux(Seq<char>),
    Macos(Seq<char>),
    Windows(Seq<char>),
}

/// What an alias means.
pub open spec fn scoped_alias_model(a: PlatformAlias) -> ScopedAliasModel {
    match a {
        PlatformAlias::Global(s) => ScopedAliasModel::Global(s@),
        PlatformAlias::Linux(s) => ScopedAliasModel::Linux(s@),
        PlatformAlias::Macos(s) => ScopedAliasModel::Macos(s@),
        PlatformAlias::Windows(s) => ScopedAliasModel::Windows(s@),
    }
}

/// The alias a string writes: the rest of the string after the first of
/// the prefixes `linux:`, `macos:`, `windows:` that it starts with, or the
/// whole string, for every platform, where it starts with none.
pub open spec fn parse_scoped_alias(s: Seq<char>) -> ScopedAliasModel {
    if linux_prefix().is_prefix_of(s) {
        ScopedAliasModel::Linux(s.skip(6))
    } else if macos_prefix().is_prefix_of(s) {
        ScopedAliasModel::Macos(s.skip(6))
    } else if windows_prefix().is_prefix_of(s) {
        ScopedAliasModel::Windows(s.skip(8))
    } else {
        ScopedAliasModel::Global(s)
    }
}

/// A name written after a platform prefix reads back as that platform's
/// alias of the name; a string with none of the prefixes is an alias on
/// every platform.
pub proof fn lemma_parse_scoped(name: Seq<char>)
    ensures
        parse_scoped_alias(linux_prefix() + name) == ScopedAliasModel::Linux(name),
        parse_scoped_alias(macos_prefix() + name) == ScopedAliasModel::Macos(name),
        parse_scoped_alias(windows_prefix() + name) == ScopedAliasModel::Windows(name),
        !linux_prefix().is_prefix_of(name) && !macos_prefix().is_prefix_of(name)
            && !windows_prefix().is_prefix_of(name) ==> parse_scoped_alias(name) == ScopedAliasModel::Global(
            name,
        ),
{
    crate::config::alias::lemma_parse_prefixed(name);
}

impl PlatformAlias {
    /// Reads an alias: `platform:name`, or a bare name for every platform.
    pub fn parse(s: &str) -> (a: Self)
        ensures
            scoped_alias_model(a) == parse_scoped_alias(s@),
    {
        let linux = "linux:";
        let macos = "macos:";
        let windows = "windows:";
        proof {
            reveal_strlit("linux:");
            reveal_strlit("macos:");
            reveal_strlit("windows:");
            assert(linux@ =~= linux_prefix());
            assert(macos@ =~= macos_prefix());
            assert(windows@ =~= windows_prefix());
        }
        if let Some(rest) = strip_prefix(s, linux) {
            proof {
                assert(rest@ =~= s@.skip(6));
                assert(linux_prefix() =~= s@.subrange(0, 6));
            }
            PlatformAlias::Linux(rest.to_owned())
        } else if let Some(rest) = strip_prefix(s, macos) {
            proof {
                assert(rest@ =~= s@.skip(6));
                assert(macos_prefix() =~= s@.subrange(0, 6));
            }
            PlatformAlias::Macos(rest.to_owned())
        } else if let Some(rest) = strip_prefix(s, windows) {
            proof {
                assert(rest@ =~= s@.skip(8));
                assert(windows_prefix() =~= s@.subrange(0, 8));
            }
            PlatformAlias::Windows(rest.to_owned())
        } else {
            PlatformAlias::Global(s.to_owned())
        }
    }
}

impl std::str::FromStr for PlatformAlias {
    type Err = std::convert::Infallible;

    fn from_str(s: &str) -> (r: Result<Self, Self::Err>)
        ensures
            r matches Ok(a) && scoped_alias_model(a) == parse_scoped_alias(s@),
    {
        Ok(PlatformAlias::parse(s))
    }
}

} // verus!
