//! The change of one crate between two versions, and the order in which
//! such changes are listed.

use crate::version::{flip, version_order, Version, VersionView};
use std::cmp::Ordering;
use vstd::prelude::*;
use vstd::string::*;

verus! {

/// What a crate diff is.
pub struct DiffView {
    pub name: Seq<char>,
    pub from_version: Option<VersionView>,
    pub from_hash: Option<Seq<char>>,
    pub to_version: Option<VersionView>,
    pub to_hash: Option<Seq<char>>,
    pub repository: Option<Seq<char>>,
}

/// The crate diff information.
#[derive(Debug)]
pub struct CrateDiffInfo {
    /// Crate name
    pub name: String,
    /// Initial crate version
    pub from_version: Option<Version>,
    /// Initial crate repository commit hash
    pub from_hash: Option<String>,
    /// Target crate version
    pub to_version: Option<Version>,
    /// Target crate repository commit hash
    pub to_hash: Option<String>,
    /// Crate repository path
    pub repository: Option<String>,
}

pub open spec fn version_view(v: Option<Version>) -> Option<VersionView> {
    match v {
        Some(v) => Some(v@),
        None => None,
    }
}

pub open spec fn text_view(t: Option<String>) -> Option<Seq<char>> {
    match t {
        Some(t) => Some(t@),
        None => None,
    }
}

impl View for CrateDiffInfo {
    type V = DiffView;

    open spec fn view(&self) -> DiffView {
        DiffView {
            name: self.name@,
            from_version: version_view(self.from_version),
            from_hash: text_view(self.from_hash),
            to_version: version_view(self.to_version),
            to_hash: text_view(self.to_hash),
            repository: text_view(self.repository),
        }
    }
}

/// The order of two texts, character by character, a proper prefix first
/// (the order of `String`).
pub open spec fn text_order(a: Seq<char>, b: Seq<char>) -> Ordering
    decreases a.len(),
{
    if a.len() == 0 {
        if b.len() == 0 {
            Ordering::Equal
        } else {
            Ordering::Less
        }
    } else if b.len() == 0 {
        Ordering::Greater
    } else if a[0] != b[0] {
        if (a[0] as int) < (b[0] as int) {
            Ordering::Less
        } else {
            Ordering::Greater
        }
    } else {
        text_order(a.drop_first(), b.drop_first())
    }
}

/// An absent version comes before every present one.
pub open spec fn opt_version_order(a: Option<VersionView>, b: Option<VersionView>) -> Ordering {
    match (a, b) {
        (None, None) => Ordering::Equal,
        (None, Some(_)) => Ordering::Less,
        (Some(_), None) => Ordering::Greater,
        (Some(x), Some(y)) => version_order(x, y),
    }
}

/// Diffs are listed by name, then by from-version, then by to-version.
#[verifier::opaque]
pub open spec fn diff_order(a: DiffView, b: DiffView) -> Ordering {
    if text_order(a.name, b.name) != Ordering::Equal {
        text_order(a.name, b.name)
    } else if opt_version_order(a.from_version, b.from_version) != Ordering::Equal {
        opt_version_order(a.from_version, b.from_version)
    } else {
        opt_version_order(a.to_version, b.to_version)
    }
}

/// Each diff comes no later than the next under `diff_order`.
pub open spec fn is_sorted(s: Seq<CrateDiffInfo>) -> bool {
    forall|i: int, j: int|
        0 <= i && j == i + 1 && j < s.len() ==> diff_order(#[trigger] s[i]@, #[trigger] s[j]@)
            != Ordering::Greater
}

pub proof fn lemma_text_order(a: Seq<char>, b: Seq<char>)
    ensures
        text_order(b, a) == flip(text_order(a, b)),
        (text_order(a, b) == Ordering::Equal) == (a == b),
    decreases a.len(),
{
    if a.len() > 0 && b.len() > 0 {
        if a[0] != b[0] {
            assert((a[0] as int) != (b[0] as int));
        } else {
            lemma_text_order(a.drop_first(), b.drop_first());
            if a.drop_first() == b.drop_first() {
                assert(a == seq![a[0]] + a.drop_first());
                assert(b == seq![b[0]] + b.drop_first());
            }
        }
    } else if a.len() == 0 && b.len() != 0 {
        assert(a != b);
    } else if a.len() != 0 && b.len() == 0 {
        assert(a != b);
    } else {
        assert(a =~= b);
    }
}

/// `String`'s order on two texts.
pub fn compare_text(a: &str, b: &str) -> (r: Ordering)
    ensures
        r == text_order(a@, b@),
        text_order(b@, a@) == flip(r),
        (r == Ordering::Equal) == (a@ == b@),
{
    proof {
        lemma_text_order(a@, b@);
    }
    let n = a.unicode_len();
    let m = b.unicode_len();
    let mut i: usize = 0;
    assert(a@.skip(0) =~= a@);
    assert(b@.skip(0) =~= b@);
    while i < n && i < m
        invariant
            n == a@.len(),
            m == b@.len(),
            i <= n,
            i <= m,
            text_order(a@, b@) == text_order(a@.skip(i as int), b@.skip(i as int)),
            text_order(b@, a@) == text_order(b@.skip(i as int), a@.skip(i as int)),
        decreases n - i,
    {
        let x = a.get_char(i);
        let y = b.get_char(i);
        assert(a@.skip(i as int)[0] == x);
        assert(b@.skip(i as int)[0] == y);
        assert(a@.skip(i as int).len() > 0);
        assert(b@.skip(i as int).len() > 0);
        if x != y {
            if (x as u32) < (y as u32) {
                return Ordering::Less;
            } else {
                return Ordering::Greater;
            }
        }
        assert(a@.skip(i as int).drop_first() =~= a@.skip(i + 1));
        assert(b@.skip(i as int).drop_first() =~= b@.skip(i + 1));
        i = i + 1;
    }
    if i == n {
        if i == m {
            Ordering::Equal
        } else {
            Ordering::Less
        }
    } else {
        Ordering::Greater
    }
}

/// The order of two optional versions, an absent one first.
pub fn compare_versions(a: &Option<Version>, b: &Option<Version>) -> (r: Ordering)
    ensures
        r == opt_version_order(version_view(*a), version_view(*b)),
        opt_version_order(version_view(*b), version_view(*a)) == flip(r),
        (r == Ordering::Equal) == (version_view(*a) == version_view(*b)),
{
    match (a, b) {
        (None, None) => Ordering::Equal,
        (None, Some(_)) => Ordering::Less,
        (Some(_), None) => Ordering::Greater,
        (Some(x), Some(y)) => x.compare(y),
    }
}

/// The order in which diffs are listed: by name, from-version, to-version.
pub fn compare_diffs(a: &CrateDiffInfo, b: &CrateDiffInfo) -> (r: Ordering)
    ensures
        r == diff_order(a@, b@),
        diff_order(b@, a@) == flip(r),
{
    reveal(diff_order);
    let by_name = compare_text(a.name.as_str(), b.name.as_str());
    match by_name {
        Ordering::Equal => {},
        _ => return by_name,
    }
    let by_from = compare_versions(&a.from_version, &b.from_version);
    match by_from {
        Ordering::Equal => {},
        _ => return by_from,
    }
    compare_versions(&a.to_version, &b.to_version)
}

/// Puts `x` into the sorted `out` after every diff that does not come
/// after it.
fn insert_sorted(out: &mut Vec<CrateDiffInfo>, x: CrateDiffInfo)
    requires
        is_sorted(old(out)@),
    ensures
        is_sorted(final(out)@),
        final(out)@.to_multiset() == old(out)@.to_multiset().insert(x),
{
    let mut p: usize = 0;
    while p < out.len()
        invariant
            p <= out.len(),
            forall|j: int| 0 <= j < p ==> diff_order(#[trigger] out@[j]@, x@) != Ordering::Greater,
        ensures
            p <= out.len(),
            forall|j: int| 0 <= j < p ==> diff_order(#[trigger] out@[j]@, x@) != Ordering::Greater,
            p < out.len() ==> diff_order(x@, out@[p as int]@) == Ordering::Less,
        decreases out.len() - p,
    {
        match compare_diffs(&out[p], &x) {
            Ordering::Greater => break,
            _ => {},
        }
        p = p + 1;
    }
    let ghost before = out@;
    proof {
        if p < out.len() {
            assert(diff_order(x@, before[p as int]@) != Ordering::Greater);
        }
        lemma_insert_keeps_sorted(before, p as int, x);
        vstd::seq_lib::to_multiset_insert(before, p as int, x);
    }
    out.insert(p, x);
}

proof fn lemma_insert_keeps_sorted(s: Seq<CrateDiffInfo>, p: int, x: CrateDiffInfo)
    requires
        is_sorted(s),
        0 <= p <= s.len(),
        p > 0 ==> diff_order(s[p - 1]@, x@) != Ordering::Greater,
        p < s.len() ==> diff_order(x@, s[p]@) != Ordering::Greater,
    ensures
        is_sorted(s.insert(p, x)),
{
    let t = s.insert(p, x);
    assert forall|i: int, j: int| 0 <= i && j == i + 1 && j < t.len() implies diff_order(
        #[trigger] t[i]@,
        #[trigger] t[j]@,
    ) != Ordering::Greater by {
        if i < p - 1 {
            assert(t[i] == s[i]);
            assert(t[i + 1] == s[i + 1]);
        } else if i == p - 1 {
            assert(t[i] == s[i]);
        } else if i == p {
        } else {
            assert(t[i] == s[i - 1]);
            assert(t[i + 1] == s[i]);
        }
    }
}

/// Sorts diffs into `diff_order`, keeping each of them.
pub fn sort_diffs(v: Vec<CrateDiffInfo>) -> (r: Vec<CrateDiffInfo>)
    ensures
        is_sorted(r@),
        r@.to_multiset() == v@.to_multiset(),
{
    let mut rest = v;
    let mut out: Vec<CrateDiffInfo> = Vec::new();
    proof {
        vstd::seq_lib::lemma_multiset_commutative(out@, rest@);
        assert(out@ + rest@ =~= v@);
    }
    while rest.len() > 0
        invariant
            is_sorted(out@),
            out@.to_multiset().add(rest@.to_multiset()) == v@.to_multiset(),
        decreases rest.len(),
    {
        let ghost rest0 = rest@;
        let x = rest.pop().unwrap();
        proof {
            assert(rest0 =~= rest@.push(x));
            vstd::seq_lib::to_multiset_build(rest@, x);
        }
        insert_sorted(&mut out, x);
        proof {
            broadcast use vstd::multiset::group_multiset_axioms;

            assert(out@.to_multiset().add(rest@.to_multiset()) =~= v@.to_multiset());
        }
    }
    proof {
        assert(rest@ =~= Seq::<CrateDiffInfo>::empty());
        vstd::seq_lib::lemma_multiset_commutative(out@, rest@);
        assert(out@ + rest@ =~= out@);
    }
    out
}

} // verus!
