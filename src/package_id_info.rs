//! Package ids of a dependency graph, `<source>+<path>#<name>@<version>` or
//! `<source>+<path>#<version>`, decoded into their fields.

use crate::package_source::{source_kind, source_text, PackageSource, SourceView};
use crate::text::{rsplit_once, same_text, split_first, split_last, split_once};
use crate::version::{semver_parse, version_text, Version, VersionView};
use vstd::string::*;
use vstd::prelude::*;

verus! {

/// What a decoded package id is.
pub struct PackageView {
    pub source: SourceView,
    pub path: Seq<char>,
    pub name: Seq<char>,
    pub version: VersionView,
}

/// A decoded package id.
#[derive(Debug)]
pub struct PackageIdInfo {
    /// Package source: registry, path, git or other
    pub source: PackageSource,
    /// Where the package lives within its source
    pub path: String,
    /// Crate name
    pub name: String,
    /// Crate version
    pub version: Version,
}

impl View for PackageIdInfo {
    type V = PackageView;

    open spec fn view(&self) -> PackageView {
        PackageView {
            source: self.source@,
            path: self.path@,
            name: self.name@,
            version: self.version@,
        }
    }
}

/// Name and version text after the `#`: `name@version`, or a bare version
/// with the name taken from the last segment of the path.
pub open spec fn name_and_version(path: Seq<char>, tail: Seq<char>) -> Option<
    (Seq<char>, Seq<char>),
> {
    match split_first(tail, '@') {
        Some((name, version)) => Some((name, version)),
        None => match split_last(path, '/') {
            Some((_, name)) => Some((name, tail)),
            None => None,
        },
    }
}

/// A git name loses its query suffix (`name?branch=...`).
pub open spec fn clean_name(source: Seq<char>, name: Seq<char>) -> Seq<char> {
    if source == "git"@ {
        match split_first(name, '?') {
            Some((clean, _)) => clean,
            None => name,
        }
    } else {
        name
    }
}

/// What a package id text decodes to; `None` where it breaks the grammar,
/// where the path or the name is empty, or where the version is no
/// semantic version.
pub open spec fn decode_package_id(s: Seq<char>) -> Option<PackageView> {
    match split_first(s, '+') {
        None => None,
        Some((source, rest)) => match split_first(rest, '#') {
            None => None,
            Some((path, tail)) => match name_and_version(path, tail) {
                None => None,
                Some((raw_name, version_text)) => {
                    let name = clean_name(source, raw_name);
                    match semver_parse(version_text) {
                        None => None,
                        Some(version) => if path.len() == 0 || name.len() == 0 {
                            None
                        } else {
                            Some(
                                PackageView {
                                    source: source_kind(source),
                                    path,
                                    name,
                                    version,
                                },
                            )
                        },
                    }
                },
            },
        },
    }
}

/// The source that a package id text names, if it has a `+`.
pub open spec fn decode_source(s: Seq<char>) -> Option<SourceView> {
    match split_first(s, '+') {
        None => None,
        Some((source, _)) => Some(source_kind(source)),
    }
}

/// The package id text of a package: `<source>+<path>#<name>@<version>`.
pub open spec fn encode_package_id(p: PackageView) -> Seq<char> {
    source_text(p.source) + "+"@ + p.path + "#"@ + p.name + "@"@ + version_text(p.version)
}

impl PackageIdInfo {
    /// The package id text of this package, in its full form.
    pub fn package_id(&self) -> (r: String)
        ensures
            r@ == encode_package_id(self@),
    {
        let mut id = String::from_str(self.source.as_str());
        id.append("+");
        id.append(self.path.as_str());
        id.append("#");
        id.append(self.name.as_str());
        id.append("@");
        id.append(self.version.text().as_str());
        id
    }

    /// Decodes one package id text.
    pub fn from_package_id(repr: &str) -> (r: Option<PackageIdInfo>)
        ensures
            r is None <==> decode_package_id(repr@) is None,
            r matches Some(p) ==> decode_package_id(repr@) == Some(p@),
    {
        let (source, rest) = match split_once(repr, '+') {
            Some(parts) => parts,
            None => return None,
        };
        let (path, tail) = match split_once(rest, '#') {
            Some(parts) => parts,
            None => return None,
        };
        let (raw_name, version_text) = match split_once(tail, '@') {
            Some(parts) => parts,
            None => match rsplit_once(path, '/') {
                Some((_, name)) => (name, tail),
                None => return None,
            },
        };
        let name = if same_text(source, "git") {
            match split_once(raw_name, '?') {
                Some((name, _)) => name,
                None => raw_name,
            }
        } else {
            raw_name
        };
        assert(name@ == clean_name(source@, raw_name@));
        let version = match Version::parse(version_text) {
            Ok(version) => version,
            Err(_) => return None,
        };
        if path.unicode_len() == 0 || name.unicode_len() == 0 {
            return None;
        }
        Some(
            PackageIdInfo {
                source: PackageSource::from_text(source),
                path: path.to_owned(),
                name: name.to_owned(),
                version,
            },
        )
    }

    /// A copy with the same fields.
    pub fn copy(&self) -> (r: PackageIdInfo)
        ensures
            r@ == self@,
    {
        PackageIdInfo {
            source: self.source.copy(),
            path: self.path.clone(),
            name: self.name.clone(),
            version: self.version.copy(),
        }
    }

    /// Decodes only the source of a package id text.
    pub fn parse_source(repr: &str) -> (r: Option<PackageSource>)
        ensures
            r is None <==> decode_source(repr@) is None,
            r matches Some(s) ==> decode_source(repr@) == Some(s@),
    {
        match split_once(repr, '+') {
            Some((source, _)) => Some(PackageSource::from_text(source)),
            None => None,
        }
    }
}

} // verus!
