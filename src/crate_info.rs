//! What a registry lookup tells of a crate.

use crate::crate_diff_info::{text_view, version_view};
use crate::version::{Version, VersionView};
use vstd::prelude::*;

verus! {

/// What a registry lookup result is.
pub struct InfoView {
    pub version: Option<VersionView>,
    pub repository: Option<Seq<char>>,
}

/// A crate's resolved version and repository, each absent where the lookup
/// found none.
#[derive(Debug)]
pub struct CrateInfo {
    pub version: Option<Version>,
    pub repository: Option<String>,
}

impl View for CrateInfo {
    type V = InfoView;

    open spec fn view(&self) -> InfoView {
        InfoView { version: version_view(self.version), repository: text_view(self.repository) }
    }
}

} // verus!
