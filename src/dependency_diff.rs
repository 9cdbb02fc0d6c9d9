//! One direct dependency's change together with its nested changes.

use crate::crate_diff_info::{is_sorted, sort_diffs, CrateDiffInfo, DiffView};
use crate::nested_diff::diff_views;
use vstd::prelude::*;

verus! {

/// What a dependency diff is.
pub struct DepDiffView {
    pub diff: DiffView,
    pub removed: Seq<DiffView>,
    pub added: Seq<DiffView>,
    pub updated: Seq<DiffView>,
}

/// Complete diff information between a crate's two versions and all its
/// nested dependencies.
#[derive(Debug)]
pub struct DependencyDiff {
    /// Direct dependency diff
    pub diff: CrateDiffInfo,
    /// Removed nested dependencies
    pub removed_deps: Vec<CrateDiffInfo>,
    /// Added nested dependencies
    pub added_deps: Vec<CrateDiffInfo>,
    /// Updated nested dependencies
    pub updated_deps: Vec<CrateDiffInfo>,
}

impl View for DependencyDiff {
    type V = DepDiffView;

    open spec fn view(&self) -> DepDiffView {
        DepDiffView {
            diff: self.diff@,
            removed: diff_views(self.removed_deps@),
            added: diff_views(self.added_deps@),
            updated: diff_views(self.updated_deps@),
        }
    }
}

impl DependencyDiff {
    /// Each nested list is sorted by name, from-version, to-version.
    pub open spec fn is_ordered(&self) -> bool {
        is_sorted(self.removed_deps@) && is_sorted(self.added_deps@) && is_sorted(self.updated_deps@)
    }

    /// Puts a direct diff and its nested changes together, each nested list
    /// sorted and holding the same records as given.
    pub fn new(
        diff: CrateDiffInfo,
        removed_deps: Vec<CrateDiffInfo>,
        added_deps: Vec<CrateDiffInfo>,
        updated_deps: Vec<CrateDiffInfo>,
    ) -> (r: DependencyDiff)
        ensures
            r.is_ordered(),
            r.diff == diff,
            r.removed_deps@.to_multiset() == removed_deps@.to_multiset(),
            r.added_deps@.to_multiset() == added_deps@.to_multiset(),
            r.updated_deps@.to_multiset() == updated_deps@.to_multiset(),
    {
        DependencyDiff {
            diff,
            removed_deps: sort_diffs(removed_deps),
            added_deps: sort_diffs(added_deps),
            updated_deps: sort_diffs(updated_deps),
        }
    }
}

} // verus!
