//! The merged view of nested changes across several dependency diffs: each
//! record once, in the order of all its fields.

use crate::crate_diff_info::{
    compare_text, compare_versions, opt_version_order, text_order, text_view,
    CrateDiffInfo, DiffView,
};
use crate::dependency_diff::DependencyDiff;
use crate::nested_diff::diff_views;
use crate::version::flip;
use std::cmp::Ordering;
use vstd::prelude::*;

verus! {

/// An absent text comes before every present one.
pub open spec fn opt_text_order(a: Option<Seq<char>>, b: Option<Seq<char>>) -> Ordering {
    match (a, b) {
        (None, None) => Ordering::Equal,
        (None, Some(_)) => Ordering::Less,
        (Some(_), None) => Ordering::Greater,
        (Some(x), Some(y)) => text_order(x, y),
    }
}

/// The order of records by all their fields: name, from-version,
/// from-hash, to-version, to-hash, repository.
#[verifier::opaque]
pub open spec fn record_order(a: DiffView, b: DiffView) -> Ordering {
    if text_order(a.name, b.name) != Ordering::Equal {
        text_order(a.name, b.name)
    } else if opt_version_order(a.from_version, b.from_version) != Ordering::Equal {
        opt_version_order(a.from_version, b.from_version)
    } else if opt_text_order(a.from_hash, b.from_hash) != Ordering::Equal {
        opt_text_order(a.from_hash, b.from_hash)
    } else if opt_version_order(a.to_version, b.to_version) != Ordering::Equal {
        opt_version_order(a.to_version, b.to_version)
    } else if opt_text_order(a.to_hash, b.to_hash) != Ordering::Equal {
        opt_text_order(a.to_hash, b.to_hash)
    } else {
        opt_text_order(a.repository, b.repository)
    }
}

/// Each record comes strictly before the next: sorted, with no repeats.
pub open spec fn strictly_sorted(s: Seq<DiffView>) -> bool {
    forall|i: int, j: int|
        0 <= i && j == i + 1 && j < s.len() ==> record_order(#[trigger] s[i], #[trigger] s[j])
            == Ordering::Less
}

/// Which of the three nested lists.
#[derive(Clone, Copy, Debug, PartialEq, Eq)]
pub enum NestedKind {
    Updated,
    Added,
    Removed,
}

/// The nested records of one kind in a dependency diff.
pub open spec fn nested_of_kind(d: DependencyDiff, kind: NestedKind) -> Seq<CrateDiffInfo> {
    match kind {
        NestedKind::Updated => d.updated_deps@,
        NestedKind::Added => d.added_deps@,
        NestedKind::Removed => d.removed_deps@,
    }
}

/// A record of the given kind occurs in one of the diffs.
pub open spec fn occurs_in(diffs: Seq<DependencyDiff>, kind: NestedKind, r: DiffView) -> bool {
    exists|i: int| 0 <= i < diffs.len() && diff_views(nested_of_kind(diffs[i], kind)).contains(r)
}

fn compare_hashes(a: &Option<String>, b: &Option<String>) -> (r: Ordering)
    ensures
        r == opt_text_order(text_view(*a), text_view(*b)),
        opt_text_order(text_view(*b), text_view(*a)) == flip(r),
        (r == Ordering::Equal) == (text_view(*a) == text_view(*b)),
{
    match (a, b) {
        (None, None) => Ordering::Equal,
        (None, Some(_)) => Ordering::Less,
        (Some(_), None) => Ordering::Greater,
        (Some(x), Some(y)) => compare_text(x.as_str(), y.as_str()),
    }
}

/// The order of two records by all their fields.
pub fn compare_records(a: &CrateDiffInfo, b: &CrateDiffInfo) -> (r: Ordering)
    ensures
        r == record_order(a@, b@),
        record_order(b@, a@) == flip(r),
        (r == Ordering::Equal) == (a@ == b@),
{
    reveal(record_order);
    let c = compare_text(a.name.as_str(), b.name.as_str());
    match c {
        Ordering::Equal => {},
        _ => return c,
    }
    let c = compare_versions(&a.from_version, &b.from_version);
    match c {
        Ordering::Equal => {},
        _ => return c,
    }
    let c = compare_hashes(&a.from_hash, &b.from_hash);
    match c {
        Ordering::Equal => {},
        _ => return c,
    }
    let c = compare_versions(&a.to_version, &b.to_version);
    match c {
        Ordering::Equal => {},
        _ => return c,
    }
    let c = compare_hashes(&a.to_hash, &b.to_hash);
    match c {
        Ordering::Equal => {},
        _ => return c,
    }
    compare_hashes(&a.repository, &b.repository)
}

/// A copy of a record.
pub fn copy_record(d: &CrateDiffInfo) -> (r: CrateDiffInfo)
    ensures
        r@ == d@,
{
    CrateDiffInfo {
        name: d.name.clone(),
        from_version: match &d.from_version {
            Some(v) => Some(v.copy()),
            None => None,
        },
        from_hash: match &d.from_hash {
            Some(h) => Some(h.clone()),
            None => None,
        },
        to_version: match &d.to_version {
            Some(v) => Some(v.copy()),
            None => None,
        },
        to_hash: match &d.to_hash {
            Some(h) => Some(h.clone()),
            None => None,
        },
        repository: match &d.repository {
            Some(r) => Some(r.clone()),
            None => None,
        },
    }
}

proof fn lemma_insert_contains(s: Seq<DiffView>, p: int, x: DiffView)
    requires
        0 <= p <= s.len(),
    ensures
        forall|r: DiffView| #[trigger] s.insert(p, x).contains(r) <==> (s.contains(r) || r == x),
{
    let t = s.insert(p, x);
    assert forall|r: DiffView| #[trigger] t.contains(r) <==> (s.contains(r) || r == x) by {
        if t.contains(r) {
            let k = choose|k: int| 0 <= k < t.len() && t[k] == r;
            if k < p {
                assert(s[k] == r);
            } else if k > p {
                assert(s[k - 1] == r);
            }
        }
        if s.contains(r) {
            let k = choose|k: int| 0 <= k < s.len() && s[k] == r;
            if k < p {
                assert(t[k] == r);
            } else {
                assert(t[k + 1] == r);
            }
        }
        if r == x {
            assert(t[p] == r);
        }
    }
}

proof fn lemma_push_contains(s: Seq<DiffView>, x: DiffView)
    ensures
        forall|r: DiffView| #[trigger] s.push(x).contains(r) <==> (s.contains(r) || r == x),
{
    lemma_insert_contains(s, s.len() as int, x);
    assert(s.push(x) =~= s.insert(s.len() as int, x));
}

proof fn lemma_occurs_push(s: Seq<DependencyDiff>, x: DependencyDiff, kind: NestedKind)
    ensures
        forall|d: DiffView| #[trigger] occurs_in(s.push(x), kind, d) <==> (occurs_in(s, kind, d)
            || diff_views(nested_of_kind(x, kind)).contains(d)),
{
    let t = s.push(x);
    assert forall|d: DiffView| #[trigger] occurs_in(t, kind, d) <==> (occurs_in(s, kind, d)
        || diff_views(nested_of_kind(x, kind)).contains(d)) by {
        if occurs_in(t, kind, d) {
            let k = choose|k: int| 0 <= k < t.len() && diff_views(nested_of_kind(t[k], kind)).contains(d);
            if k < s.len() {
                assert(t[k] == s[k]);
            }
        }
        if occurs_in(s, kind, d) {
            let k = choose|k: int| 0 <= k < s.len() && diff_views(nested_of_kind(s[k], kind)).contains(d);
            assert(t[k] == s[k]);
        }
        if diff_views(nested_of_kind(x, kind)).contains(d) {
            assert(t[s.len() as int] == x);
        }
    }
}

proof fn lemma_insert_keeps_strict(s: Seq<DiffView>, p: int, x: DiffView)
    requires
        strictly_sorted(s),
        0 <= p <= s.len(),
        p > 0 ==> record_order(s[p - 1], x) == Ordering::Less,
        p < s.len() ==> record_order(x, s[p]) == Ordering::Less,
    ensures
        strictly_sorted(s.insert(p, x)),
{
    let t = s.insert(p, x);
    assert forall|i: int, j: int| 0 <= i && j == i + 1 && j < t.len() implies record_order(
        #[trigger] t[i],
        #[trigger] t[j],
    ) == Ordering::Less by {
        if i < p - 1 {
            assert(t[i] == s[i]);
            assert(t[j] == s[j]);
        } else if i == p - 1 {
            assert(t[i] == s[i]);
        } else if i == p {
        } else {
            assert(t[i] == s[i - 1]);
            assert(t[j] == s[i]);
        }
    }
}

/// Adds a copy of `x` to the strictly sorted `out` unless an equal record
/// is there already.
fn insert_unique(out: &mut Vec<CrateDiffInfo>, x: &CrateDiffInfo)
    requires
        strictly_sorted(diff_views(old(out)@)),
    ensures
        strictly_sorted(diff_views(final(out)@)),
        forall|r: DiffView| #[trigger] diff_views(final(out)@).contains(r) <==> (diff_views(old(out)@).contains(r) || r == x@),
{
    let ghost before = diff_views(out@);
    let mut p: usize = 0;
    while p < out.len()
        invariant
            before == diff_views(out@),
            p <= out.len(),
            forall|j: int| 0 <= j < p ==> record_order(#[trigger] before[j], x@) == Ordering::Less,
        ensures
            p <= out.len(),
            forall|j: int| 0 <= j < p ==> record_order(#[trigger] before[j], x@) == Ordering::Less,
            p < out.len() ==> record_order(before[p as int], x@) != Ordering::Less,
        decreases out.len() - p,
    {
        match compare_records(&out[p], x) {
            Ordering::Less => {},
            _ => break,
        }
        p = p + 1;
    }
    if p < out.len() {
        let c = compare_records(&out[p], x);
        match c {
            Ordering::Equal => {
                assert(before.contains(x@)) by {
                    assert(before[p as int] == x@);
                }
                return;
            },
            _ => {},
        }
    }
    proof {
        lemma_insert_keeps_strict(before, p as int, x@);
    }
    out.insert(p, copy_record(x));
    assert(diff_views(out@) =~= before.insert(p as int, x@));
    proof {
        lemma_insert_contains(before, p as int, x@);
    }
}

/// The nested records of one kind across all diffs, each once, sorted by
/// all their fields.
pub fn merge_nested(diffs: &[DependencyDiff], kind: NestedKind) -> (r: Vec<CrateDiffInfo>)
    ensures
        strictly_sorted(diff_views(r@)),
        forall|d: DiffView| #[trigger] diff_views(r@).contains(d) <==> occurs_in(diffs@, kind, d),
{
    let mut out: Vec<CrateDiffInfo> = Vec::new();
    let mut i: usize = 0;
    assert(diff_views(out@) =~= Seq::<DiffView>::empty());
    while i < diffs.len()
        invariant
            i <= diffs.len(),
            strictly_sorted(diff_views(out@)),
            forall|d: DiffView| #[trigger] diff_views(out@).contains(d) <==> occurs_in(diffs@.take(i as int), kind, d),
        decreases diffs.len() - i,
    {
        let list = match kind {
            NestedKind::Updated => &diffs[i].updated_deps,
            NestedKind::Added => &diffs[i].added_deps,
            NestedKind::Removed => &diffs[i].removed_deps,
        };
        assert(list@ == nested_of_kind(diffs@[i as int], kind));
        let ghost start = diff_views(out@);
        let mut j: usize = 0;
        while j < list.len()
            invariant
                j <= list.len(),
                strictly_sorted(diff_views(out@)),
                forall|d: DiffView| #[trigger] diff_views(out@).contains(d) <==> (start.contains(d) || diff_views(list@).take(j as int).contains(d)),
            decreases list.len() - j,
        {
            let ghost prev = diff_views(out@);
            insert_unique(&mut out, &list[j]);
            proof {
                let lv = diff_views(list@);
                assert(lv[j as int] == list@[j as int]@);
                assert(lv.take(j + 1) =~= lv.take(j as int).push(lv[j as int]));
                lemma_push_contains(lv.take(j as int), lv[j as int]);
                assert forall|d: DiffView| diff_views(out@).contains(d) <==> (start.contains(d)
                    || lv.take(j + 1).contains(d)) by {
                    assert(lv.take(j + 1).contains(d) <==> (lv.take(j as int).contains(d) || d
                        == lv[j as int]));
                    assert(diff_views(out@).contains(d) <==> (prev.contains(d) || d == lv[j as int]));
                }
            }
            j = j + 1;
        }
        assert(diff_views(list@).take(list.len() as int) =~= diff_views(list@));
        proof {
            assert(diffs@.take(i + 1) =~= diffs@.take(i as int).push(diffs@[i as int]));
            lemma_occurs_push(diffs@.take(i as int), diffs@[i as int], kind);
            assert forall|d: DiffView| diff_views(out@).contains(d) <==> occurs_in(
                diffs@.take(i + 1),
                kind,
                d,
            ) by {
                assert(occurs_in(diffs@.take(i + 1), kind, d) <==> (occurs_in(
                    diffs@.take(i as int),
                    kind,
                    d,
                ) || diff_views(list@).contains(d)));
            }
        }
        i = i + 1;
    }
    assert(diffs@.take(diffs.len() as int) =~= diffs@);
    out
}

} // verus!
