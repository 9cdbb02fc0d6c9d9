//! A request to diff one crate, as given on the command line.

use crate::crate_diff_info::version_view;
use crate::version::{Version, VersionView};
use vstd::prelude::*;

verus! {

/// What a request is.
pub struct RequestView {
    pub crate_name: Seq<char>,
    pub from_version: Option<VersionView>,
    pub to_version: Option<VersionView>,
}

/// Diff request: a crate and, optionally, the two versions to compare.
#[derive(Debug)]
pub struct CrateDiffRequest {
    /// Crate name
    pub crate_name: String,
    /// Initial version: an exact version, or absent for the one in the manifest
    pub from_version: Option<Version>,
    /// Target version: an exact version, or absent for the registry's latest
    pub to_version: Option<Version>,
}

impl View for CrateDiffRequest {
    type V = RequestView;

    open spec fn view(&self) -> RequestView {
        RequestView {
            crate_name: self.crate_name@,
            from_version: version_view(self.from_version),
            to_version: version_view(self.to_version),
        }
    }
}

} // verus!
