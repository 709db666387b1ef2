//! Names that a cursor also answers to on one platform: `linux:name`,
//! `macos:name` or `windows:name`.

use crate::text::strip_prefix;
use vstd::prelude::*;

verus! {

/// An alternate name for a cursor on one platform.
#[derive(Debug, Clone, PartialEq, Eq)]
pub enum PlatformAlias {
    Linux(String),
    Macos(String),
    Windows(String),
}

/// The string did not start with a platform prefix.
#[derive(Debug, Clone, Copy, PartialEq, Eq, Structural)]
pub struct ParsePlatformAliasError;

impl ParsePlatformAliasError {
    /// What was expected.
    pub fn to_string(&self) -> (s: String)
        ensures
            s@ == "expected a string prepended by either 'linux:', 'macos:', or 'windows:'"@,
    {
        "expected a string prepended by either 'linux:', 'macos:', or 'windows:'".to_owned()
    }
}

/// The characters of `linux:`.
pub open spec fn linux_prefix() -> Seq<char> {
    seq!['l', 'i', 'n', 'u', 'x', ':']
}

/// The characters of `macos:`.
pub open spec fn macos_prefix() -> Seq<char> {
    seq!['m', 'a', 'c', 'o', 's', ':']
}

/// The characters of `windows:`.
pub open spec fn windows_prefix() -> Seq<char> {
    seq!['w', 'i', 'n', 'd', 'o', 'w', 's', ':']
}

/// Which platform an alias is for, and its name, as characters.
pub enum AliasModel {
    Linux(Seq<char>),
    Macos(Seq<char>),
    Windows(Seq<char>),
}

/// What an alias means.
pub open spec fn alias_model(a: PlatformAlias) -> AliasModel {
    match a {
        PlatformAlias::Linux(s) => AliasModel::Linux(s@),
        PlatformAlias::Macos(s) => AliasModel::Macos(s@),
        PlatformAlias::Windows(s) => AliasModel::Windows(s@),
    }
}

/// The alias a string writes: the rest of the string after the first of
/// the prefixes `linux:`, `macos:`, `windows:` that it starts with.
pub open spec fn parse_alias(s: Seq<char>) -> Option<AliasModel> {
    if linux_prefix().is_prefix_of(s) {
        Some(AliasModel::Linux(s.skip(6)))
    } else if macos_prefix().is_prefix_of(s) {
        Some(AliasModel::Macos(s.skip(6)))
    } else if windows_prefix().is_prefix_of(s) {
        Some(AliasModel::Windows(s.skip(8)))
    } else {
        None
    }
}

/// A name written after a platform prefix reads back as that platform's
/// alias of the name.
pub proof fn lemma_parse_prefixed(name: Seq<char>)
    ensures
        parse_alias(linux_prefix() + name) == Some(AliasModel::Linux(name)),
        parse_alias(macos_prefix() + name) == Some(AliasModel::Macos(name)),
        parse_alias(windows_prefix() + name) == Some(AliasModel::Windows(name)),
{
    let l = linux_prefix() + name;
    let m = macos_prefix() + name;
    let w = windows_prefix() + name;
    assert(linux_prefix() =~= l.subrange(0, 6));
    assert(l.skip(6) =~= name);
    assert(m[0] == 'm');
    assert(!linux_prefix().is_prefix_of(m)) by {
        assert(linux_prefix()[0] != m.subrange(0, 6)[0]);
    }
    assert(macos_prefix() =~= m.subrange(0, 6));
    assert(m.skip(6) =~= name);
    assert(w[0] == 'w');
    assert(!linux_prefix().is_prefix_of(w)) by {
        assert(linux_prefix()[0] != w.subrange(0, 6)[0]);
    }
    assert(!macos_prefix().is_prefix_of(w)) by {
        assert(macos_prefix()[0] != w.subrange(0, 6)[0]);
    }
    assert(windows_prefix() =~= w.subrange(0, 8));
    assert(w.skip(8) =~= name);
}

impl PlatformAlias {
    /// Reads an alias written `platform:name`.
    pub fn parse(s: &str) -> (r: Result<Self, ParsePlatformAliasError>)
        ensures
            match parse_alias(s@) {
                Some(m) => r matches Ok(a) && alias_model(a) == m,
                None => r is Err,
            },
    {
        let linux = "linux:";
        let macos = "macos:";
        let windows = "windows:";
        proof {
            reveal_strlit("linux:");
            reveal_strlit("macos:");
            reveal_strlit("windows:");
            assert(linux@ =~= linux_prefix());
            assert(macos@ =~= macos_prefix());
            assert(windows@ =~= windows_prefix());
        }
        if let Some(rest) = strip_prefix(s, linux) {
            proof {
                assert(rest@ =~= s@.skip(6));
                assert(linux_prefix() =~= s@.subrange(0, 6));
            }
            Ok(PlatformAlias::Linux(rest.to_owned()))
        } else if let Some(rest) = strip_prefix(s, macos) {
            proof {
                assert(rest@ =~= s@.skip(6));
                assert(macos_prefix() =~= s@.subrange(0, 6));
            }
            Ok(PlatformAlias::Macos(rest.to_owned()))
        } else if let Some(rest) = strip_prefix(s, windows) {
            proof {
                assert(rest@ =~= s@.skip(8));
                assert(windows_prefix() =~= s@.subrange(0, 8));
            }
            Ok(PlatformAlias::Windows(rest.to_owned()))
        } else {
            Err(ParsePlatformAliasError)
        }
    }
}

impl std::str::FromStr for PlatformAlias {
    type Err = ParsePlatformAliasError;

    fn from_str(s: &str) -> (r: Result<Self, Self::Err>)
        ensures
            match parse_alias(s@) {
                Some(m) => r matches Ok(a) && alias_model(a) == m,
                None => r is Err,
            },
    {
        PlatformAlias::parse(s)
    }
}

} // verus!
