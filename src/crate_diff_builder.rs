//! Builds the direct diffs of a request, in one of three modes: every
//! dependency of the workspace, named crates whose from-version comes from
//! the manifest, or named crates with both versions given.

use crate::cargo_meta::{
    assoc_insert, dependency_entries, key_index, target_views, CargoMeta, TargetDependencies,
};
use crate::crate_diff_info::{version_view, CrateDiffInfo, DiffView};
use crate::crate_diff_request::{CrateDiffRequest, RequestView};
use crate::crate_info::{CrateInfo, InfoView};
use crate::nested_diff::{diff_nested_packages, diff_views, nested_diff, package_views};
use crate::package_id_info::{PackageIdInfo, PackageView};
use crate::registry_manager::RegistryManager;
use crate::version::{Version, VersionView};
use vstd::prelude::*;

verus! {

/// Diffs per target name; the empty name is the unscoped target.
pub type TargetDiffs = Vec<(String, Vec<CrateDiffInfo>)>;

pub open spec fn report_views(s: Seq<(String, Vec<CrateDiffInfo>)>) -> Seq<(Seq<char>, Seq<DiffView>)> {
    s.map_values(|e: (String, Vec<CrateDiffInfo>)| (e.0@, diff_views(e.1@)))
}

/// A diff that may be emitted: its versions are not both present and equal.
pub open spec fn emitted(d: DiffView) -> bool {
    !(d.from_version is Some && d.to_version is Some && d.from_version == d.to_version)
}

/// No diff of the report has both versions present and equal.
pub open spec fn all_emitted(m: Seq<(Seq<char>, Seq<DiffView>)>) -> bool {
    forall|i: int, j: int|
        0 <= i < m.len() && 0 <= j < m[i].1.len() ==> emitted(#[trigger] m[i].1[j])
}

/// The diff of one crate between two versions, or none where both versions
/// are present and equal; hashes are left to be filled in.
pub open spec fn resolved_diff(
    name: Seq<char>,
    from: Option<VersionView>,
    to: Option<VersionView>,
    repository: Option<Seq<char>>,
) -> Option<DiffView> {
    if from is Some && to is Some && from == to {
        None
    } else {
        Some(
            DiffView {
                name,
                from_version: from,
                from_hash: None,
                to_version: to,
                to_hash: None,
                repository,
            },
        )
    }
}

/// Suppression: no diff comes out where both versions are present and
/// equal, and one comes out, keeping both versions, in every other case.
pub proof fn lemma_suppression(
    name: Seq<char>,
    from: Option<VersionView>,
    to: Option<VersionView>,
    repository: Option<Seq<char>>,
)
    ensures
        resolved_diff(name, from, to, repository) is None <==> (from is Some && to is Some && from
            == to),
        resolved_diff(name, from, to, repository) matches Some(d) ==> emitted(d) && d.from_version
            == from && d.to_version == to,
{
}

/// Appends a diff to the list of a target, making the list where it is
/// missing.
pub open spec fn add_entry(m: Seq<(Seq<char>, Seq<DiffView>)>, target: Seq<char>, d: DiffView) -> Seq<
    (Seq<char>, Seq<DiffView>),
> {
    let i = key_index(m, target);
    if i < 0 {
        m.push((target, seq![d]))
    } else {
        m.update(i, (target, m[i].1.push(d)))
    }
}

/// The repository kept with a diff: none in comparison-link mode.
pub open spec fn kept_repository(diff_rs: bool, repository: Option<Seq<char>>) -> Option<Seq<char>> {
    if diff_rs {
        None
    } else {
        repository
    }
}

/// `add_diff`: files the diff of one crate under a target, unless suppressed.
pub open spec fn add_diff_spec(
    m: Seq<(Seq<char>, Seq<DiffView>)>,
    diff_rs: bool,
    target: Seq<char>,
    name: Seq<char>,
    from: Option<VersionView>,
    to: Option<VersionView>,
    repository: Option<Seq<char>>,
) -> Seq<(Seq<char>, Seq<DiffView>)> {
    match resolved_diff(name, from, to, kept_repository(diff_rs, repository)) {
        Some(d) => add_entry(m, target, d),
        None => m,
    }
}

/// The updates of one target's dependencies, given the registry's answer
/// for each.
pub open spec fn target_updates(deps: Seq<PackageView>, infos: Seq<InfoView>, diff_rs: bool) -> Seq<
    DiffView,
>
    decreases deps.len(),
{
    if deps.len() == 0 {
        Seq::empty()
    } else {
        let before = target_updates(deps.drop_last(), infos.take(deps.len() - 1), diff_rs);
        let dep = deps.last();
        let info = infos[deps.len() - 1];
        match resolved_diff(
            dep.name,
            Some(dep.version),
            info.version,
            kept_repository(diff_rs, info.repository),
        ) {
            Some(d) => before.push(d),
            None => before,
        }
    }
}

/// Mode A: for every target, the updates of its dependencies.
pub open spec fn crate_updates(
    targets: Seq<(Seq<char>, Seq<PackageView>)>,
    infos: Seq<Seq<InfoView>>,
    diff_rs: bool,
) -> Seq<(Seq<char>, Seq<DiffView>)>
    decreases targets.len(),
{
    if targets.len() == 0 {
        Seq::empty()
    } else {
        let n = targets.len() - 1;
        let before = crate_updates(targets.drop_last(), infos.take(n), diff_rs);
        assoc_insert(before, targets[n].0, target_updates(targets[n].1, infos[n], diff_rs))
    }
}

/// The from-versions of a request in mode B, per target: the requested one
/// under the unscoped target, else each target's dependency version, else
/// none under the unscoped target.
pub open spec fn request_from_versions(
    request: RequestView,
    entries: Seq<(Seq<char>, PackageView)>,
) -> Seq<(Seq<char>, Option<VersionView>)> {
    match request.from_version {
        Some(v) => seq![(Seq::empty(), Some(v))],
        None => if entries.len() == 0 {
            seq![(Seq::<char>::empty(), None::<VersionView>)]
        } else {
            entries.map_values(|e: (Seq<char>, PackageView)| (e.0, Some(e.1.version)))
        },
    }
}

/// Files the diffs of one crate from each of several from-versions.
pub open spec fn add_diffs_from(
    m: Seq<(Seq<char>, Seq<DiffView>)>,
    diff_rs: bool,
    froms: Seq<(Seq<char>, Option<VersionView>)>,
    name: Seq<char>,
    info: InfoView,
) -> Seq<(Seq<char>, Seq<DiffView>)>
    decreases froms.len(),
{
    if froms.len() == 0 {
        m
    } else {
        let before = add_diffs_from(m, diff_rs, froms.drop_last(), name, info);
        let (target, from) = froms.last();
        add_diff_spec(before, diff_rs, target, name, from, info.version, info.repository)
    }
}

/// Mode B: each request diffed from the versions in the manifest (or its
/// own from-version) to the looked-up version.
pub open spec fn crate_dep_diffs(
    requests: Seq<RequestView>,
    deps: Seq<(Seq<char>, Seq<PackageView>)>,
    infos: Seq<InfoView>,
    diff_rs: bool,
) -> Seq<(Seq<char>, Seq<DiffView>)>
    decreases requests.len(),
{
    if requests.len() == 0 {
        Seq::empty()
    } else {
        let n = requests.len() - 1;
        let before = crate_dep_diffs(requests.drop_last(), deps, infos.take(n), diff_rs);
        let r = requests[n];
        add_diffs_from(
            before,
            diff_rs,
            request_from_versions(r, dependency_entries(deps, r.crate_name)),
            r.crate_name,
            infos[n],
        )
    }
}

/// Mode C: each request diffed from its own from-version to the looked-up
/// version, under the unscoped target.
pub open spec fn crate_diffs(requests: Seq<RequestView>, infos: Seq<InfoView>, diff_rs: bool) -> Seq<
    (Seq<char>, Seq<DiffView>),
>
    decreases requests.len(),
{
    if requests.len() == 0 {
        Seq::empty()
    } else {
        let n = requests.len() - 1;
        let before = crate_diffs(requests.drop_last(), infos.take(n), diff_rs);
        add_diff_spec(
            before,
            diff_rs,
            Seq::empty(),
            requests[n].crate_name,
            requests[n].from_version,
            infos[n].version,
            infos[n].repository,
        )
    }
}

pub open spec fn info_views(s: Seq<CrateInfo>) -> Seq<InfoView> {
    s.map_values(|i: CrateInfo| i@)
}

pub open spec fn request_views(s: Seq<CrateDiffRequest>) -> Seq<RequestView> {
    s.map_values(|r: CrateDiffRequest| r@)
}

fn copy_version(v: &Option<Version>) -> (r: Option<Version>)
    ensures
        version_view(r) == version_view(*v),
{
    match v {
        Some(v) => Some(v.copy()),
        None => None,
    }
}

fn copy_text(t: &Option<String>) -> (r: Option<String>)
    ensures
        crate::crate_diff_info::text_view(r) == crate::crate_diff_info::text_view(*t),
{
    match t {
        Some(t) => Some(t.clone()),
        None => None,
    }
}

pub open spec fn from_views(s: Seq<(String, Option<Version>)>) -> Seq<(Seq<char>, Option<VersionView>)> {
    s.map_values(|e: (String, Option<Version>)| (e.0@, version_view(e.1)))
}

/// The diff of crate `name` between two versions, or none where both are
/// present and equal.
pub fn resolve_diff(
    name: &str,
    from_version: Option<Version>,
    to_version: Option<Version>,
    repository: Option<String>,
) -> (r: Option<CrateDiffInfo>)
    ensures
        match r {
            Some(d) => resolved_diff(
                name@,
                version_view(from_version),
                version_view(to_version),
                crate::crate_diff_info::text_view(repository),
            ) == Some(d@),
            None => resolved_diff(
                name@,
                version_view(from_version),
                version_view(to_version),
                crate::crate_diff_info::text_view(repository),
            ) is None,
        },
{
    let suppressed = match (&from_version, &to_version) {
        (Some(from), Some(to)) => from.same(to),
        _ => false,
    };
    if suppressed {
        None
    } else {
        Some(
            CrateDiffInfo {
                name: name.to_owned(),
                from_version,
                from_hash: None,
                to_version,
                to_hash: None,
                repository,
            },
        )
    }
}

/// Sets the list of target `name`.
fn insert_report_target(m: &mut TargetDiffs, name: String, list: Vec<CrateDiffInfo>)
    ensures
        report_views(final(m)@) == assoc_insert(report_views(old(m)@), name@, diff_views(list@)),
{
    let ghost before = m@;
    match find_report_target(m, name.as_str()) {
        Some(k) => {
            m.remove(k);
            m.insert(k, (name, list));
            assert(report_views(m@) =~= report_views(before).update(
                k as int,
                (name@, diff_views(list@)),
            ));
        },
        None => {
            m.push((name, list));
            assert(report_views(m@) =~= report_views(before).push((name@, diff_views(list@))));
        },
    }
}

fn find_report_target(m: &TargetDiffs, k: &str) -> (r: Option<usize>)
    ensures
        r is None ==> key_index(report_views(m@), k@) == -1,
        r matches Some(i) ==> i < m.len() && key_index(report_views(m@), k@) == i,
{
    let ghost s = report_views(m@);
    let mut i: usize = 0;
    while i < m.len()
        invariant
            s == report_views(m@),
            i <= m.len(),
            forall|j: int| 0 <= j < i ==> s[j].0 != k@,
        decreases m.len() - i,
    {
        if crate::text::same_text(m[i].0.as_str(), k) {
            proof {
                assert(crate::cargo_meta::is_first_key(s, k@, i as int));
                let c = key_index(s, k@);
                if c < i {
                    assert(s[c].0 != k@);
                }
                if i < c {
                    assert(s[i as int].0 != k@);
                }
            }
            return Some(i);
        }
        i = i + 1;
    }
    None
}

proof fn lemma_add_entry_emitted(m: Seq<(Seq<char>, Seq<DiffView>)>, target: Seq<char>, d: DiffView)
    requires
        all_emitted(m),
        emitted(d),
    ensures
        all_emitted(add_entry(m, target, d)),
{
    let r = add_entry(m, target, d);
    let k = key_index(m, target);
    assert forall|i: int, j: int| 0 <= i < r.len() && 0 <= j < r[i].1.len() implies emitted(
        #[trigger] r[i].1[j],
    ) by {
        if k >= 0 && i == k {
            if j < m[i].1.len() {
                assert(r[i].1[j] == m[i].1[j]);
            }
        } else if i < m.len() {
            assert(r[i] == m[i]);
        }
    }
}

proof fn lemma_assoc_insert_emitted(
    m: Seq<(Seq<char>, Seq<DiffView>)>,
    target: Seq<char>,
    ds: Seq<DiffView>,
)
    requires
        all_emitted(m),
        forall|j: int| 0 <= j < ds.len() ==> emitted(#[trigger] ds[j]),
    ensures
        all_emitted(assoc_insert(m, target, ds)),
{
    let r = assoc_insert(m, target, ds);
    let k = key_index(m, target);
    assert forall|i: int, j: int| 0 <= i < r.len() && 0 <= j < r[i].1.len() implies emitted(
        #[trigger] r[i].1[j],
    ) by {
        if (k >= 0 && i == k) || (k < 0 && i == m.len()) {
            assert(r[i].1 == ds);
        } else {
            assert(r[i] == m[i]);
        }
    }
}

/// Generates diff information for crates between two versions.
pub struct CrateDiffBuilder {
    pub registry_manager: RegistryManager,
    /// Comparison-link mode: no hashes or repository are kept
    pub diff_rs: bool,
}

impl CrateDiffBuilder {
    pub fn new(registry_manager: RegistryManager, diff_rs: bool) -> (r: CrateDiffBuilder)
        ensures
            r.diff_rs == diff_rs,
            r.registry_manager == registry_manager,
    {
        CrateDiffBuilder { registry_manager, diff_rs }
    }

    /// Files the diff of `crate_name` from `from_version` to `to_version`
    /// under `target_name`, unless both versions are present and equal.
    pub fn add_diff(
        &self,
        target_name: &str,
        crate_name: &str,
        from_version: Option<Version>,
        to_version: Option<Version>,
        repository: Option<String>,
        target_version_diffs: &mut TargetDiffs,
    )
        ensures
            report_views(final(target_version_diffs)@) == add_diff_spec(
                report_views(old(target_version_diffs)@),
                self.diff_rs,
                target_name@,
                crate_name@,
                version_view(from_version),
                version_view(to_version),
                crate::crate_diff_info::text_view(repository),
            ),
            all_emitted(report_views(old(target_version_diffs)@)) ==> all_emitted(
                report_views(final(target_version_diffs)@),
            ),
    {
        let repository = if self.diff_rs {
            None
        } else {
            repository
        };
        let diff = match resolve_diff(crate_name, from_version, to_version, repository) {
            Some(diff) => diff,
            None => return,
        };
        let ghost d = diff@;
        let ghost before = target_version_diffs@;
        proof {
            if all_emitted(report_views(before)) {
                lemma_add_entry_emitted(report_views(before), target_name@, d);
            }
        }
        match find_report_target(target_version_diffs, target_name) {
            Some(k) => {
                let (name, mut list) = target_version_diffs.remove(k);
                let ghost old_list = list@;
                assert(name@ == target_name@);
                assert(diff_views(old_list) == report_views(before)[k as int].1);
                list.push(diff);
                assert(diff_views(list@) =~= diff_views(old_list).push(d));
                target_version_diffs.insert(k, (name, list));
                assert(report_views(target_version_diffs@) =~= report_views(before).update(
                    k as int,
                    (target_name@, report_views(before)[k as int].1.push(d)),
                ));
            },
            None => {
                let list = vec![diff];
                assert(diff_views(list@) =~= seq![d]);
                target_version_diffs.push((target_name.to_owned(), list));
                assert(report_views(target_version_diffs@) =~= report_views(before).push(
                    (target_name@, seq![d]),
                ));
            },
        }
    }

    /// The updates of one target's dependencies, given the registry's
    /// answer for each dependency.
    fn target_updates(&self, deps: &Vec<PackageIdInfo>, infos: &Vec<CrateInfo>) -> (r: Vec<
        CrateDiffInfo,
    >)
        requires
            infos.len() == deps.len(),
        ensures
            diff_views(r@) == target_updates(
                package_views(deps@),
                info_views(infos@),
                self.diff_rs,
            ),
            forall|j: int| 0 <= j < r.len() ==> emitted(#[trigger] diff_views(r@)[j]),
    {
        let ghost pv = package_views(deps@);
        let ghost iv = info_views(infos@);
        let mut r: Vec<CrateDiffInfo> = Vec::new();
        let mut i: usize = 0;
        assert(pv.take(0) =~= Seq::<PackageView>::empty());
        assert(diff_views(r@) =~= Seq::<DiffView>::empty());
        while i < deps.len()
            invariant
                pv == package_views(deps@),
                iv == info_views(infos@),
                infos.len() == deps.len(),
                i <= deps.len(),
                diff_views(r@) == target_updates(pv.take(i as int), iv.take(i as int), self.diff_rs),
                forall|j: int| 0 <= j < r.len() ==> emitted(#[trigger] diff_views(r@)[j]),
            decreases deps.len() - i,
        {
            assert(pv.take(i + 1).drop_last() =~= pv.take(i as int));
            assert(iv.take(i + 1).take(i as int) =~= iv.take(i as int));
            assert(pv.take(i + 1).last() == deps@[i as int]@);
            assert(iv.take(i + 1)[i as int] == infos@[i as int]@);
            let dep = &deps[i];
            let info = &infos[i];
            let repository = if self.diff_rs {
                None
            } else {
                copy_text(&info.repository)
            };
            match resolve_diff(
                dep.name.as_str(),
                Some(dep.version.copy()),
                copy_version(&info.version),
                repository,
            ) {
                Some(diff) => {
                    let ghost before = r@;
                    r.push(diff);
                    assert(diff_views(r@) =~= diff_views(before).push(diff@));
                },
                None => {},
            }
            i = i + 1;
        }
        assert(pv.take(deps.len() as int) =~= pv);
        assert(iv.take(deps.len() as int) =~= iv);
        r
    }

    /// Mode A: the updates of every workspace target's dependencies, where
    /// `latest[t][d]` is the registry's answer for dependency `d` of target
    /// `t`; each target gets its list, empty where all is up to date.
    pub fn build_from_crate(&self, dependencies: &TargetDependencies, latest: &Vec<Vec<CrateInfo>>) -> (r: TargetDiffs)
        requires
            latest.len() == dependencies.len(),
            forall|t: int| 0 <= t < latest.len() ==> #[trigger] latest@[t].len() == dependencies@[t].1.len(),
        ensures
            report_views(r@) == crate_updates(
                target_views(dependencies@),
                latest@.map_values(|v: Vec<CrateInfo>| info_views(v@)),
                self.diff_rs,
            ),
            all_emitted(report_views(r@)),
    {
        let ghost tv = target_views(dependencies@);
        let ghost lv = latest@.map_values(|v: Vec<CrateInfo>| info_views(v@));
        let mut r: TargetDiffs = Vec::new();
        let mut i: usize = 0;
        assert(tv.take(0) =~= Seq::<(Seq<char>, Seq<PackageView>)>::empty());
        assert(report_views(r@) =~= Seq::<(Seq<char>, Seq<DiffView>)>::empty());
        while i < dependencies.len()
            invariant
                tv == target_views(dependencies@),
                lv == latest@.map_values(|v: Vec<CrateInfo>| info_views(v@)),
                latest.len() == dependencies.len(),
                forall|t: int| 0 <= t < latest.len() ==> #[trigger] latest@[t].len() == dependencies@[t].1.len(),
                i <= dependencies.len(),
                report_views(r@) == crate_updates(tv.take(i as int), lv.take(i as int), self.diff_rs),
                all_emitted(report_views(r@)),
            decreases dependencies.len() - i,
        {
            assert(tv.take(i + 1).drop_last() =~= tv.take(i as int));
            assert(lv.take(i + 1).take(i as int) =~= lv.take(i as int));
            assert(tv.take(i + 1)[i as int] == tv[i as int]);
            assert(lv.take(i + 1)[i as int] == lv[i as int]);
            assert(latest@[i as int].len() == dependencies@[i as int].1.len());
            let (target, deps) = &dependencies[i];
            let updates = self.target_updates(deps, &latest[i]);
            proof {
                lemma_assoc_insert_emitted(report_views(r@), target@, diff_views(updates@));
            }
            insert_report_target(&mut r, target.clone(), updates);
            i = i + 1;
        }
        assert(tv.take(dependencies.len() as int) =~= tv);
        assert(lv.take(dependencies.len() as int) =~= lv);
        r
    }

    /// Mode B: each requested crate diffed from its own from-version, or
    /// else from the version each workspace target depends on, or else
    /// from none under the unscoped target, to the version the registry
    /// gave for it (`infos[i]` for request `i`).
    pub fn build_from_crate_deps(
        &self,
        crates: &[CrateDiffRequest],
        cargo_meta: &CargoMeta,
        infos: &[CrateInfo],
    ) -> (r: TargetDiffs)
        requires
            infos.len() == crates.len(),
        ensures
            report_views(r@) == crate_dep_diffs(
                request_views(crates@),
                cargo_meta.dependencies_view(),
                info_views(infos@),
                self.diff_rs,
            ),
            all_emitted(report_views(r@)),
    {
        let ghost rv = request_views(crates@);
        let ghost iv = info_views(infos@);
        let ghost deps = cargo_meta.dependencies_view();
        let mut r: TargetDiffs = Vec::new();
        let mut i: usize = 0;
        assert(rv.take(0) =~= Seq::<RequestView>::empty());
        assert(report_views(r@) =~= Seq::<(Seq<char>, Seq<DiffView>)>::empty());
        while i < crates.len()
            invariant
                rv == request_views(crates@),
                iv == info_views(infos@),
                deps == cargo_meta.dependencies_view(),
                infos.len() == crates.len(),
                i <= crates.len(),
                report_views(r@) == crate_dep_diffs(rv.take(i as int), deps, iv.take(i as int), self.diff_rs),
                all_emitted(report_views(r@)),
            decreases crates.len() - i,
        {
            assert(rv.take(i + 1).drop_last() =~= rv.take(i as int));
            assert(iv.take(i + 1).take(i as int) =~= iv.take(i as int));
            assert(rv.take(i + 1)[i as int] == crates@[i as int]@);
            assert(iv.take(i + 1)[i as int] == infos@[i as int]@);
            let pkg = &crates[i];
            let froms = self.from_versions(pkg, cargo_meta);
            self.add_diffs_from(&mut r, &froms, pkg.crate_name.as_str(), &infos[i]);
            i = i + 1;
        }
        assert(rv.take(crates.len() as int) =~= rv);
        assert(iv.take(crates.len() as int) =~= iv);
        r
    }

    /// The from-versions of one request, per target.
    fn from_versions(&self, pkg: &CrateDiffRequest, cargo_meta: &CargoMeta) -> (r: Vec<
        (String, Option<Version>),
    >)
        ensures
            from_views(r@) == request_from_versions(
                pkg@,
                dependency_entries(cargo_meta.dependencies_view(), pkg.crate_name@),
            ),
    {
        match &pkg.from_version {
            Some(v) => {
                let r = vec![(String::new(), Some(v.copy()))];
                assert(from_views(r@) =~= seq![(Seq::<char>::empty(), Some(v@))]);
                r
            },
            None => {
                let entries = cargo_meta.get_dependency_info(pkg.crate_name.as_str());
                let ghost ev = entries@.map_values(|e: (String, PackageIdInfo)| (e.0@, e.1@));
                let mut r: Vec<(String, Option<Version>)> = Vec::new();
                if entries.len() == 0 {
                    r.push((String::new(), None));
                    assert(from_views(r@) =~= seq![(Seq::<char>::empty(), None::<VersionView>)]);
                    return r;
                }
                let mut i: usize = 0;
                while i < entries.len()
                    invariant
                        ev == entries@.map_values(|e: (String, PackageIdInfo)| (e.0@, e.1@)),
                        i <= entries.len(),
                        from_views(r@) == ev.take(i as int).map_values(
                            |e: (Seq<char>, PackageView)| (e.0, Some(e.1.version)),
                        ),
                    decreases entries.len() - i,
                {
                    let ghost before = r@;
                    r.push((entries[i].0.clone(), Some(entries[i].1.version.copy())));
                    assert(ev.take(i + 1) =~= ev.take(i as int).push(ev[i as int]));
                    assert(from_views(r@) =~= from_views(before).push(
                        (ev[i as int].0, Some(ev[i as int].1.version)),
                    ));
                    i = i + 1;
                }
                assert(ev.take(entries.len() as int) =~= ev);
                r
            },
        }
    }

    /// Files the diffs of crate `name` from each from-version to the
    /// looked-up version.
    fn add_diffs_from(
        &self,
        m: &mut TargetDiffs,
        froms: &Vec<(String, Option<Version>)>,
        name: &str,
        info: &CrateInfo,
    )
        requires
            all_emitted(report_views(old(m)@)),
        ensures
            report_views(final(m)@) == add_diffs_from(
                report_views(old(m)@),
                self.diff_rs,
                from_views(froms@),
                name@,
                info@,
            ),
            all_emitted(report_views(final(m)@)),
    {
        let ghost fv = from_views(froms@);
        let ghost m0 = report_views(m@);
        let mut i: usize = 0;
        assert(fv.take(0) =~= Seq::<(Seq<char>, Option<VersionView>)>::empty());
        while i < froms.len()
            invariant
                fv == from_views(froms@),
                i <= froms.len(),
                report_views(m@) == add_diffs_from(m0, self.diff_rs, fv.take(i as int), name@, info@),
                all_emitted(report_views(m@)),
            decreases froms.len() - i,
        {
            assert(fv.take(i + 1).drop_last() =~= fv.take(i as int));
            assert(fv.take(i + 1).last() == fv[i as int]);
            let (target, from) = &froms[i];
            self.add_diff(
                target.as_str(),
                name,
                copy_version(from),
                copy_version(&info.version),
                copy_text(&info.repository),
                m,
            );
            i = i + 1;
        }
        assert(fv.take(froms.len() as int) =~= fv);
    }

    /// Mode C: each requested crate diffed from its own from-version to the
    /// version the registry gave for it (`infos[i]` for request `i`), all
    /// under the unscoped target.
    pub fn build_from_crates(&self, crates: &[CrateDiffRequest], infos: &[CrateInfo]) -> (r: TargetDiffs)
        requires
            infos.len() == crates.len(),
        ensures
            report_views(r@) == crate_diffs(request_views(crates@), info_views(infos@), self.diff_rs),
            all_emitted(report_views(r@)),
    {
        let ghost rv = request_views(crates@);
        let ghost iv = info_views(infos@);
        let mut r: TargetDiffs = Vec::new();
        let mut i: usize = 0;
        assert(rv.take(0) =~= Seq::<RequestView>::empty());
        assert(report_views(r@) =~= Seq::<(Seq<char>, Seq<DiffView>)>::empty());
        while i < crates.len()
            invariant
                rv == request_views(crates@),
                iv == info_views(infos@),
                infos.len() == crates.len(),
                i <= crates.len(),
                report_views(r@) == crate_diffs(rv.take(i as int), iv.take(i as int), self.diff_rs),
                all_emitted(report_views(r@)),
            decreases crates.len() - i,
        {
            assert(rv.take(i + 1).drop_last() =~= rv.take(i as int));
            assert(iv.take(i + 1).take(i as int) =~= iv.take(i as int));
            assert(rv.take(i + 1)[i as int] == crates@[i as int]@);
            assert(iv.take(i + 1)[i as int] == infos@[i as int]@);
            let pkg = &crates[i];
            let info = &infos[i];
            let unscoped = "";
            proof {
                reveal_strlit("");
                assert(unscoped@ =~= Seq::<char>::empty());
            }
            self.add_diff(
                unscoped,
                pkg.crate_name.as_str(),
                copy_version(&pkg.from_version),
                copy_version(&info.version),
                copy_text(&info.repository),
                &mut r,
            );
            i = i + 1;
        }
        assert(rv.take(crates.len() as int) =~= rv);
        assert(iv.take(crates.len() as int) =~= iv);
        r
    }

    /// Removed, added and updated nested dependencies between the nested
    /// package set of a crate's from-version and that of its to-version;
    /// hashes and repository are left to be filled in.
    pub fn build_nested_deps(&self, from_packages: &Vec<PackageIdInfo>, to_packages: Vec<PackageIdInfo>) -> (r: (
        Vec<CrateDiffInfo>,
        Vec<CrateDiffInfo>,
        Vec<CrateDiffInfo>,
    ))
        ensures
            (diff_views(r.0@), diff_views(r.1@), diff_views(r.2@)) == nested_diff(
                package_views(from_packages@),
                package_views(to_packages@),
            ),
    {
        diff_nested_packages(from_packages, to_packages)
    }
}

} // verus!
