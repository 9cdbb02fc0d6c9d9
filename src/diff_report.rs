//! The diff report: dependency diffs grouped by build target.

use crate::cargo_meta::assoc_insert;
use crate::dependency_diff::{DepDiffView, DependencyDiff};
use indexmap::IndexMap;
use vstd::prelude::*;

verus! {

#[verifier::external_type_specification]
#[verifier::external_body]
#[verifier::reject_recursive_types(K)]
#[verifier::reject_recursive_types(V)]
#[verifier::reject_recursive_types(S)]
pub struct ExIndexMap<K, V, S>(IndexMap<K, V, S>);

pub open spec fn dependency_views(s: Seq<DependencyDiff>) -> Seq<DepDiffView> {
    s.map_values(|d: DependencyDiff| d@)
}

/// The entries of a report map, in the map's order.
pub uninterp spec fn report_entries(m: IndexMap<String, Vec<DependencyDiff>>) -> Seq<
    (Seq<char>, Seq<DepDiffView>),
>;

/// Relies on `indexmap::IndexMap::new`: a map with no entries.
#[verifier::external_body]
fn empty_report_map() -> (r: IndexMap<String, Vec<DependencyDiff>>)
    ensures
        report_entries(r) == Seq::<(Seq<char>, Seq<DepDiffView>)>::empty(),
{
    IndexMap::new()
}

/// Relies on `indexmap::IndexMap::insert`: a key already present keeps its
/// place and takes the new value; a new key goes last.
#[verifier::external_body]
fn report_map_insert(m: &mut IndexMap<String, Vec<DependencyDiff>>, k: String, v: Vec<DependencyDiff>)
    ensures
        report_entries(*final(m)) == assoc_insert(report_entries(*old(m)), k@, dependency_views(v@)),
{
    m.insert(k, v);
}

/// Diff report for all requested crates.
pub struct DiffReport {
    /// Dependency diffs per workspace target
    pub dependency_diffs: IndexMap<String, Vec<DependencyDiff>>,
}

impl DiffReport {
    /// A report with no targets.
    pub fn new() -> (r: DiffReport)
        ensures
            report_entries(r.dependency_diffs) == Seq::<(Seq<char>, Seq<DepDiffView>)>::empty(),
    {
        DiffReport { dependency_diffs: empty_report_map() }
    }

    /// Sets the dependency diffs of one target.
    pub fn add_target(&mut self, target_name: String, diffs: Vec<DependencyDiff>)
        ensures
            report_entries(final(self).dependency_diffs) == assoc_insert(
                report_entries(old(self).dependency_diffs),
                target_name@,
                dependency_views(diffs@),
            ),
    {
        report_map_insert(&mut self.dependency_diffs, target_name, diffs);
    }
}

} // verus!
