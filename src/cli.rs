//! Reading a crate request: `name`, `name@to`, `name@from-to`, with either
//! version left blank for "the current one" or "the latest".

use crate::crate_diff_info::version_view;
use crate::crate_diff_request::{CrateDiffRequest, RequestView};
use crate::text::{blank, is_blank, split_all, split_text};
use crate::version::{semver_parse, Version, VersionView};
use vstd::prelude::*;
use vstd::string::*;

verus! {

/// A version part of a request: blank for none, else a semantic version;
/// `None` where it is neither.
pub open spec fn version_part(s: Seq<char>) -> Option<Option<VersionView>> {
    if is_blank(s) {
        Some(None)
    } else {
        match semver_parse(s) {
            Some(v) => Some(Some(v)),
            None => None,
        }
    }
}

/// What a request text reads as; `None` where it is refused.
pub open spec fn parse_request(s: Seq<char>) -> Option<RequestView> {
    let parts = split_all(s, '@');
    if parts.len() == 1 {
        Some(RequestView { crate_name: s, from_version: None, to_version: None })
    } else if parts.len() == 2 {
        let versions = split_all(parts[1], '-');
        if versions.len() == 1 {
            match version_part(versions[0]) {
                Some(to) => Some(RequestView { crate_name: parts[0], from_version: None, to_version: to }),
                None => None,
            }
        } else if versions.len() == 2 {
            match (version_part(versions[0]), version_part(versions[1])) {
                (Some(from), Some(to)) => Some(
                    RequestView { crate_name: parts[0], from_version: from, to_version: to },
                ),
                _ => None,
            }
        } else {
            None
        }
    } else {
        None
    }
}

fn read_version_part(s: &str) -> (r: Result<Option<Version>, String>)
    ensures
        r is Ok <==> version_part(s@) is Some,
        r matches Ok(v) ==> version_part(s@) == Some(version_view(v)),
{
    if blank(s) {
        Ok(None)
    } else {
        match Version::parse(s) {
            Ok(v) => Ok(Some(v)),
            Err(e) => Err(e),
        }
    }
}

fn format_error(s: &str) -> (r: String)
    ensures
        r@ == "Wrong crate version format: "@ + s@,
{
    let mut e = String::from_str("Wrong crate version format: ");
    e.append(s);
    e
}

/// Reads one crate request; the error says why it was refused.
pub fn parse_crate_diff_info(s: &str) -> (r: Result<CrateDiffRequest, String>)
    ensures
        r is Ok <==> parse_request(s@) is Some,
        r matches Ok(req) ==> parse_request(s@) == Some(req@),
{
    let parts = split_text(s, '@');
    let ghost pv = parts@.map_values(|t: &str| t@);
    assert(pv.len() == parts.len());
    if parts.len() == 1 {
        return Ok(CrateDiffRequest { crate_name: s.to_owned(), from_version: None, to_version: None });
    }
    if parts.len() == 2 {
        assert(pv[1] == parts[1]@);
        assert(pv[0] == parts[0]@);
        let versions = split_text(parts[1], '-');
        let ghost vv = versions@.map_values(|t: &str| t@);
        assert(vv.len() == versions.len());
        if versions.len() == 1 {
            assert(vv[0] == versions[0]@);
            let to_version = read_version_part(versions[0])?;
            return Ok(
                CrateDiffRequest { crate_name: parts[0].to_owned(), from_version: None, to_version },
            );
        }
        if versions.len() == 2 {
            assert(vv[0] == versions[0]@);
            assert(vv[1] == versions[1]@);
            let from_version = read_version_part(versions[0])?;
            let to_version = read_version_part(versions[1])?;
            return Ok(CrateDiffRequest { crate_name: parts[0].to_owned(), from_version, to_version });
        }
    }
    Err(format_error(s))
}

} // verus!
