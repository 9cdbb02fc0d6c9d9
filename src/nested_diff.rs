//! The nested-graph differ: matches two package sets by name and sorts each
//! match into removed, added or updated.

use crate::crate_diff_info::{CrateDiffInfo, DiffView};
use crate::package_id_info::{PackageIdInfo, PackageView};
use vstd::prelude::*;

verus! {

pub open spec fn package_views(s: Seq<PackageIdInfo>) -> Seq<PackageView> {
    s.map_values(|p: PackageIdInfo| p@)
}

pub open spec fn diff_views(s: Seq<CrateDiffInfo>) -> Seq<DiffView> {
    s.map_values(|d: CrateDiffInfo| d@)
}

/// A package of the from-set that the to-set lacks.
pub open spec fn removed_record(p: PackageView) -> DiffView {
    DiffView {
        name: p.name,
        from_version: Some(p.version),
        from_hash: None,
        to_version: None,
        to_hash: None,
        repository: None,
    }
}

/// A package of the to-set that the from-set lacks.
pub open spec fn added_record(p: PackageView) -> DiffView {
    DiffView {
        name: p.name,
        from_version: None,
        from_hash: None,
        to_version: Some(p.version),
        to_hash: None,
        repository: None,
    }
}

/// A package in both sets, at two versions.
pub open spec fn updated_record(from: PackageView, to: PackageView) -> DiffView {
    DiffView {
        name: from.name,
        from_version: Some(from.version),
        from_hash: None,
        to_version: Some(to.version),
        to_hash: None,
        repository: None,
    }
}

/// `i` is the first position of a package named `n`.
pub open spec fn is_first_named(s: Seq<PackageView>, n: Seq<char>, i: int) -> bool {
    0 <= i < s.len() && s[i].name == n && forall|j: int| 0 <= j < i ==> s[j].name != n
}

/// The first position of a package named `n`, or -1.
pub open spec fn index_of_name(s: Seq<PackageView>, n: Seq<char>) -> int {
    if exists|i: int| is_first_named(s, n, i) {
        choose|i: int| is_first_named(s, n, i)
    } else {
        -1
    }
}

/// Matches the from-set, in order, against what is left of the to-set:
/// the removed records, the updated records, and the unmatched rest of the
/// to-set.
pub open spec fn match_from(from: Seq<PackageView>, to: Seq<PackageView>) -> (
    Seq<DiffView>,
    Seq<DiffView>,
    Seq<PackageView>,
)
    decreases from.len(),
{
    if from.len() == 0 {
        (Seq::empty(), Seq::empty(), to)
    } else {
        let (removed, updated, rest) = match_from(from.drop_last(), to);
        let x = from.last();
        let k = index_of_name(rest, x.name);
        if k < 0 {
            (removed.push(removed_record(x)), updated, rest)
        } else if rest[k].version == x.version {
            (removed, updated, rest.remove(k))
        } else {
            (removed, updated.push(updated_record(x, rest[k])), rest.remove(k))
        }
    }
}

/// Removed, added and updated records between a from-set and a to-set.
pub open spec fn nested_diff(from: Seq<PackageView>, to: Seq<PackageView>) -> (
    Seq<DiffView>,
    Seq<DiffView>,
    Seq<DiffView>,
) {
    let (removed, updated, rest) = match_from(from, to);
    (removed, rest.map_values(|p: PackageView| added_record(p)), updated)
}

proof fn lemma_index_of_name(s: Seq<PackageView>, n: Seq<char>, i: int)
    requires
        is_first_named(s, n, i),
    ensures
        index_of_name(s, n) == i,
{
    let k = choose|k: int| is_first_named(s, n, k);
    assert(is_first_named(s, n, k));
    if k < i {
        assert(s[k].name != n);
    }
    if i < k {
        assert(s[i].name != n);
    }
}

pub(crate) fn find_by_name(v: &Vec<PackageIdInfo>, name: &str) -> (r: Option<usize>)
    ensures
        r is None ==> index_of_name(package_views(v@), name@) == -1,
        r matches Some(k) ==> index_of_name(package_views(v@), name@) == k && k < v.len(),
{
    let ghost s = package_views(v@);
    let mut i: usize = 0;
    while i < v.len()
        invariant
            s == package_views(v@),
            i <= v.len(),
            forall|j: int| 0 <= j < i ==> s[j].name != name@,
        decreases v.len() - i,
    {
        if crate::text::same_text(v[i].name.as_str(), name) {
            proof {
                lemma_index_of_name(s, name@, i as int);
            }
            return Some(i);
        }
        i = i + 1;
    }
    assert(!exists|k: int| is_first_named(s, name@, k));
    None
}

/// Removed, added and updated nested dependencies between the nested
/// package set of a crate's from-version and that of its to-version.
/// Packages are matched by name; hashes and repository are left empty.
pub fn diff_nested_packages(from: &Vec<PackageIdInfo>, to: Vec<PackageIdInfo>) -> (r: (
    Vec<CrateDiffInfo>,
    Vec<CrateDiffInfo>,
    Vec<CrateDiffInfo>,
))
    ensures
        (diff_views(r.0@), diff_views(r.1@), diff_views(r.2@)) == nested_diff(
            package_views(from@),
            package_views(to@),
        ),
{
    let ghost f = package_views(from@);
    let ghost t = package_views(to@);
    let mut rest = to;
    let mut removed: Vec<CrateDiffInfo> = Vec::new();
    let mut updated: Vec<CrateDiffInfo> = Vec::new();
    let mut i: usize = 0;
    assert(f.take(0) =~= Seq::<PackageView>::empty());
    assert(diff_views(removed@) =~= Seq::<DiffView>::empty());
    assert(diff_views(updated@) =~= Seq::<DiffView>::empty());
    while i < from.len()
        invariant
            f == package_views(from@),
            t == package_views(to@),
            i <= from.len(),
            (diff_views(removed@), diff_views(updated@), package_views(rest@)) == match_from(
                f.take(i as int),
                t,
            ),
        decreases from.len() - i,
    {
        let x = &from[i];
        assert(f.take(i + 1).drop_last() =~= f.take(i as int));
        assert(f.take(i + 1).last() == x@);
        let ghost rest0 = rest@;
        match find_by_name(&rest, x.name.as_str()) {
            None => {
                let record = CrateDiffInfo {
                    name: x.name.clone(),
                    from_version: Some(x.version.copy()),
                    from_hash: None,
                    to_version: None,
                    to_hash: None,
                    repository: None,
                };
                let ghost before = removed@;
                removed.push(record);
                assert(diff_views(removed@) =~= diff_views(before).push(removed_record(x@)));
            },
            Some(k) => {
                let to_pkg = rest.remove(k);
                assert(package_views(rest@) =~= package_views(rest0).remove(k as int));
                if !x.version.same(&to_pkg.version) {
                    let record = CrateDiffInfo {
                        name: x.name.clone(),
                        from_version: Some(x.version.copy()),
                        from_hash: None,
                        to_version: Some(to_pkg.version),
                        to_hash: None,
                        repository: None,
                    };
                    let ghost before = updated@;
                    updated.push(record);
                    assert(diff_views(updated@) =~= diff_views(before).push(
                        updated_record(x@, package_views(rest0)[k as int]),
                    ));
                }
            },
        }
        i = i + 1;
    }
    assert(f.take(from.len() as int) =~= f);
    let mut added: Vec<CrateDiffInfo> = Vec::new();
    let ghost left = package_views(rest@);
    let mut j: usize = 0;
    let n = rest.len();
    while j < n
        invariant
            n == left.len(),
            j <= n,
            rest.len() == n - j,
            forall|q: int| 0 <= q < rest.len() ==> #[trigger] rest@[q]@ == left[j + q],
            diff_views(added@) == left.take(j as int).map_values(|p: PackageView| added_record(p)),
        decreases n - j,
    {
        let ghost rest0 = rest@;
        assert(rest0[0]@ == left[j + 0]);
        let p = rest.remove(0);
        assert(forall|q: int| 0 <= q < rest.len() ==> rest@[q] == rest0[q + 1]);
        let record = CrateDiffInfo {
            name: p.name,
            from_version: None,
            from_hash: None,
            to_version: Some(p.version),
            to_hash: None,
            repository: None,
        };
        let ghost before = added@;
        added.push(record);
        assert(diff_views(added@) =~= diff_views(before).push(added_record(left[j as int])));
        assert(left.take(j + 1) =~= left.take(j as int).push(left[j as int]));
        j = j + 1;
    }
    assert(left.take(n as int) =~= left);
    (removed, added, updated)
}

/// Names of the packages of a set.
pub open spec fn package_names(s: Seq<PackageView>) -> Set<Seq<char>> {
    Set::new(|n: Seq<char>| exists|i: int| 0 <= i < s.len() && s[i].name == n)
}

/// Names of the crates of a list of records.
pub open spec fn record_names(s: Seq<DiffView>) -> Set<Seq<char>> {
    Set::new(|n: Seq<char>| exists|i: int| 0 <= i < s.len() && s[i].name == n)
}

/// No two packages of the set share a name.
pub open spec fn unique_names(s: Seq<PackageView>) -> bool {
    forall|i: int, j: int|
        0 <= i < s.len() && 0 <= j < s.len() && i != j ==> s[i].name != s[j].name
}

/// Names found in both sets at one and the same version.
pub open spec fn same_version_names(from: Seq<PackageView>, to: Seq<PackageView>) -> Set<
    Seq<char>,
> {
    Set::new(
        |n: Seq<char>|
            exists|i: int, j: int|
                0 <= i < from.len() && 0 <= j < to.len() && from[i].name == n && to[j].name == n
                    && from[i].version == to[j].version,
    )
}

proof fn lemma_name_found(s: Seq<PackageView>, n: Seq<char>, i: int)
    requires
        0 <= i < s.len(),
        s[i].name == n,
    ensures
        index_of_name(s, n) >= 0,
        is_first_named(s, n, index_of_name(s, n)),
    decreases i,
{
    if forall|j: int| 0 <= j < i ==> s[j].name != n {
        assert(is_first_named(s, n, i));
        lemma_index_of_name(s, n, i);
    } else {
        let j = choose|j: int| 0 <= j < i && s[j].name == n;
        lemma_name_found(s, n, j);
    }
}

proof fn lemma_match_from(f: Seq<PackageView>, t: Seq<PackageView>)
    requires
        unique_names(f),
        unique_names(t),
    ensures
        ({
            let (removed, updated, rest) = match_from(f, t);
            &&& forall|q: int| 0 <= q < rest.len() ==> t.contains(#[trigger] rest[q])
            &&& unique_names(rest)
            &&& record_names(removed) == package_names(f).difference(package_names(t))
            &&& record_names(updated) == package_names(f).intersect(package_names(t)).difference(
                same_version_names(f, t),
            )
            &&& package_names(rest) == package_names(t).difference(package_names(f))
        }),
    decreases f.len(),
{
    let (removed, updated, rest) = match_from(f, t);
    if f.len() == 0 {
        assert(record_names(removed) =~= package_names(f).difference(package_names(t)));
        assert(record_names(updated) =~= package_names(f).intersect(package_names(t)).difference(
            same_version_names(f, t),
        ));
        assert(package_names(rest) =~= package_names(t).difference(package_names(f)));
        assert forall|q: int| 0 <= q < rest.len() implies t.contains(#[trigger] rest[q]) by {
            assert(rest[q] == t[q]);
        }
    } else {
        let g = f.drop_last();
        let x = f.last();
        let last = f.len() - 1;
        assert(unique_names(g)) by {
            assert forall|i: int, j: int|
                0 <= i < g.len() && 0 <= j < g.len() && i != j implies g[i].name != g[j].name by {
                assert(g[i] == f[i] && g[j] == f[j]);
            }
        }
        lemma_match_from(g, t);
        let (removed0, updated0, rest0) = match_from(g, t);
        assert(!package_names(g).contains(x.name)) by {
            if package_names(g).contains(x.name) {
                let i = choose|i: int| 0 <= i < g.len() && g[i].name == x.name;
                assert(f[i] == g[i]);
            }
        }
        assert(package_names(f) =~= package_names(g).insert(x.name)) by {
            assert forall|n: Seq<char>| package_names(f).contains(n) implies package_names(
                g,
            ).insert(x.name).contains(n) by {
                let i = choose|i: int| 0 <= i < f.len() && f[i].name == n;
                if i < last {
                    assert(g[i] == f[i]);
                }
            }
            assert forall|n: Seq<char>| package_names(g).insert(x.name).contains(n) implies package_names(
                f,
            ).contains(n) by {
                if n == x.name {
                    assert(f[last].name == n);
                } else {
                    let i = choose|i: int| 0 <= i < g.len() && g[i].name == n;
                    assert(f[i] == g[i]);
                }
            }
        }
        // Names other than x's are in both sets at one version exactly when
        // they were so before x.
        assert forall|n: Seq<char>| n != x.name implies (same_version_names(f, t).contains(n)
            == same_version_names(g, t).contains(n)) by {
            if same_version_names(f, t).contains(n) {
                let (i, j) = choose|i: int, j: int|
                    0 <= i < f.len() && 0 <= j < t.len() && f[i].name == n && t[j].name == n
                        && f[i].version == t[j].version;
                assert(i != last);
                assert(g[i] == f[i]);
            }
            if same_version_names(g, t).contains(n) {
                let (i, j) = choose|i: int, j: int|
                    0 <= i < g.len() && 0 <= j < t.len() && g[i].name == n && t[j].name == n
                        && g[i].version == t[j].version;
                assert(g[i] == f[i]);
            }
        }
        let k = index_of_name(rest0, x.name);
        if k < 0 {
            assert(!package_names(rest0).contains(x.name)) by {
                if package_names(rest0).contains(x.name) {
                    let i = choose|i: int| 0 <= i < rest0.len() && rest0[i].name == x.name;
                    lemma_name_found(rest0, x.name, i);
                }
            }
            assert(!package_names(t).contains(x.name));
            assert(record_names(removed) =~= record_names(removed0).insert(x.name)) by {
                assert(removed == removed0.push(removed_record(x)));
                assert forall|n: Seq<char>| record_names(removed).contains(n) implies record_names(
                    removed0,
                ).insert(x.name).contains(n) by {
                    let i = choose|i: int| 0 <= i < removed.len() && removed[i].name == n;
                    if i < removed0.len() {
                        assert(removed[i] == removed0[i]);
                    }
                }
                assert forall|n: Seq<char>| record_names(removed0).insert(x.name).contains(
                    n,
                ) implies record_names(removed).contains(n) by {
                    if n == x.name {
                        assert(removed[removed0.len() as int].name == n);
                    } else {
                        let i = choose|i: int| 0 <= i < removed0.len() && removed0[i].name == n;
                        assert(removed[i] == removed0[i]);
                    }
                }
            }
            assert(record_names(removed) =~= package_names(f).difference(package_names(t)));
            assert(record_names(updated) =~= package_names(f).intersect(package_names(t)).difference(
                same_version_names(f, t),
            ));
            assert(package_names(rest) =~= package_names(t).difference(package_names(f)));
        } else {
            lemma_index_of_name_some(rest0, x.name);
            let q = rest0[k];
            assert(q.name == x.name);
            assert(t.contains(rest0[k]));
            let j0 = choose|j: int| 0 <= j < t.len() && t[j] == rest0[k];
            assert(package_names(t).contains(x.name)) by {
                assert(t[j0].name == x.name);
            }
            assert(rest == rest0.remove(k));
            assert forall|q2: int| 0 <= q2 < rest.len() implies t.contains(#[trigger] rest[q2]) by {
                if q2 < k {
                    assert(rest[q2] == rest0[q2]);
                } else {
                    assert(rest[q2] == rest0[q2 + 1]);
                }
            }
            assert(unique_names(rest)) by {
                assert forall|i: int, j: int|
                    0 <= i < rest.len() && 0 <= j < rest.len() && i != j implies rest[i].name
                    != rest[j].name by {
                    let i0 = if i < k {
                        i
                    } else {
                        i + 1
                    };
                    let j1 = if j < k {
                        j
                    } else {
                        j + 1
                    };
                    assert(rest[i] == rest0[i0]);
                    assert(rest[j] == rest0[j1]);
                }
            }
            assert(package_names(rest) =~= package_names(rest0).remove(x.name)) by {
                assert forall|n: Seq<char>| package_names(rest).contains(n) implies package_names(
                    rest0,
                ).remove(x.name).contains(n) by {
                    let i = choose|i: int| 0 <= i < rest.len() && rest[i].name == n;
                    let i0 = if i < k {
                        i
                    } else {
                        i + 1
                    };
                    assert(rest[i] == rest0[i0]);
                    assert(i0 != k);
                }
                assert forall|n: Seq<char>| package_names(rest0).remove(x.name).contains(
                    n,
                ) implies package_names(rest).contains(n) by {
                    let i = choose|i: int| 0 <= i < rest0.len() && rest0[i].name == n;
                    assert(i != k);
                    if i < k {
                        assert(rest[i] == rest0[i]);
                    } else {
                        assert(rest[i - 1] == rest0[i]);
                    }
                }
            }
            assert(package_names(rest) =~= package_names(t).difference(package_names(f)));
            assert(record_names(removed) =~= package_names(f).difference(package_names(t)));
            if q.version == x.version {
                assert(same_version_names(f, t).contains(x.name)) by {
                    assert(f[last] == x);
                    assert(t[j0] == q);
                }
                assert(record_names(updated) =~= package_names(f).intersect(
                    package_names(t),
                ).difference(same_version_names(f, t)));
            } else {
                assert(!same_version_names(f, t).contains(x.name)) by {
                    if same_version_names(f, t).contains(x.name) {
                        let (i, j) = choose|i: int, j: int|
                            0 <= i < f.len() && 0 <= j < t.len() && f[i].name == x.name && t[j].name
                                == x.name && f[i].version == t[j].version;
                        assert(i == last);
                        assert(j == j0);
                    }
                }
                assert(record_names(updated) =~= record_names(updated0).insert(x.name)) by {
                    assert(updated == updated0.push(updated_record(x, q)));
                    assert forall|n: Seq<char>| record_names(updated).contains(
                        n,
                    ) implies record_names(updated0).insert(x.name).contains(n) by {
                        let i = choose|i: int| 0 <= i < updated.len() && updated[i].name == n;
                        if i < updated0.len() {
                            assert(updated[i] == updated0[i]);
                        }
                    }
                    assert forall|n: Seq<char>| record_names(updated0).insert(x.name).contains(
                        n,
                    ) implies record_names(updated).contains(n) by {
                        if n == x.name {
                            assert(updated[updated0.len() as int].name == n);
                        } else {
                            let i = choose|i: int| 0 <= i < updated0.len() && updated0[i].name == n;
                            assert(updated[i] == updated0[i]);
                        }
                    }
                }
                assert(record_names(updated) =~= package_names(f).intersect(
                    package_names(t),
                ).difference(same_version_names(f, t)));
            }
        }
    }
}

proof fn lemma_index_of_name_some(s: Seq<PackageView>, n: Seq<char>)
    requires
        index_of_name(s, n) >= 0,
    ensures
        is_first_named(s, n, index_of_name(s, n)),
{
}

/// Partition of the nested diff: where neither set names a crate twice, no
/// name is in two of the removed, added and updated lists; the removed and
/// updated names are the from-set's names that the to-set does not hold at
/// the same version, and the added and updated names are the to-set's names
/// that the from-set does not hold at the same version.
pub proof fn lemma_nested_diff_partition(from: Seq<PackageView>, to: Seq<PackageView>)
    requires
        unique_names(from),
        unique_names(to),
    ensures
        ({
            let (removed, added, updated) = nested_diff(from, to);
            &&& record_names(removed).disjoint(record_names(added))
            &&& record_names(removed).disjoint(record_names(updated))
            &&& record_names(added).disjoint(record_names(updated))
            &&& record_names(removed) + record_names(updated) == package_names(from).difference(
                same_version_names(from, to),
            )
            &&& record_names(added) + record_names(updated) == package_names(to).difference(
                same_version_names(from, to),
            )
        }),
{
    lemma_match_from(from, to);
    let (removed, updated, rest) = match_from(from, to);
    let added = rest.map_values(|p: PackageView| added_record(p));
    assert(record_names(added) =~= package_names(rest)) by {
        assert forall|n: Seq<char>| record_names(added).contains(n) implies package_names(
            rest,
        ).contains(n) by {
            let i = choose|i: int| 0 <= i < added.len() && added[i].name == n;
            assert(rest[i].name == n);
        }
        assert forall|n: Seq<char>| package_names(rest).contains(n) implies record_names(
            added,
        ).contains(n) by {
            let i = choose|i: int| 0 <= i < rest.len() && rest[i].name == n;
            assert(added[i].name == n);
        }
    }
    assert(same_version_names(from, to).subset_of(package_names(from).intersect(package_names(to))))
        by {
        assert forall|n: Seq<char>| same_version_names(from, to).contains(n) implies package_names(
            from,
        ).intersect(package_names(to)).contains(n) by {
            let (i, j) = choose|i: int, j: int|
                0 <= i < from.len() && 0 <= j < to.len() && from[i].name == n && to[j].name == n
                    && from[i].version == to[j].version;
        }
    }
    assert(record_names(removed) + record_names(updated) =~= package_names(from).difference(
        same_version_names(from, to),
    ));
    assert(record_names(added) + record_names(updated) =~= package_names(to).difference(
        same_version_names(from, to),
    ));
}

/// The differ's three lists are a function of the two package sets alone:
/// equal inputs give equal lists, in the same order.
pub proof fn lemma_nested_diff_deterministic(
    from1: Seq<PackageView>,
    to1: Seq<PackageView>,
    from2: Seq<PackageView>,
    to2: Seq<PackageView>,
)
    requires
        from1 == from2,
        to1 == to2,
    ensures
        nested_diff(from1, to1) == nested_diff(from2, to2),
{
}

} // verus!
