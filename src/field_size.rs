//! Column widths for a table of diffs: the widest name and version texts.

use crate::crate_diff_info::{CrateDiffInfo, DiffView};
use crate::dependency_diff::DependencyDiff;
use crate::nested_diff::diff_views;
use crate::version::{version_text, VersionView};
use vstd::prelude::*;
use vstd::utf8::encode_utf8;

verus! {

/// Length of a text in bytes, as `str::len` reports it.
pub open spec fn byte_len(s: Seq<char>) -> nat {
    (encode_utf8(s).len() as usize) as nat
}

/// Width of an optional version's text; nothing for an absent one.
pub open spec fn version_width(v: Option<VersionView>) -> nat {
    match v {
        Some(v) => byte_len(version_text(v)),
        None => 0,
    }
}

pub open spec fn max_nat(a: nat, b: nat) -> nat {
    if a >= b {
        a
    } else {
        b
    }
}

/// The three widths after taking one diff into account.
pub open spec fn widen(w: (nat, nat, nat), d: DiffView) -> (nat, nat, nat) {
    (
        max_nat(w.0, byte_len(d.name)),
        max_nat(w.1, version_width(d.from_version)),
        max_nat(w.2, version_width(d.to_version)),
    )
}

/// The three widths after taking each diff of `s` into account.
pub open spec fn widen_all(w: (nat, nat, nat), s: Seq<DiffView>) -> (nat, nat, nat)
    decreases s.len(),
{
    if s.len() == 0 {
        w
    } else {
        widen(widen_all(w, s.drop_last()), s.last())
    }
}

fn optional_version_width(v: &Option<crate::version::Version>) -> (r: usize)
    ensures
        r == version_width(crate::crate_diff_info::version_view(*v)),
{
    match v {
        Some(v) => {
            let t = v.text();
            t.as_str().len()
        },
        None => 0,
    }
}

/// Widens the name, from-version and to-version widths to fit one diff.
pub fn get_crate_max_len(
    diff: &CrateDiffInfo,
    max_name_len: &mut usize,
    max_from_ver_len: &mut usize,
    max_to_ver_len: &mut usize,
)
    ensures
        (*final(max_name_len) as nat, *final(max_from_ver_len) as nat, *final(max_to_ver_len) as nat)
            == widen((*old(max_name_len) as nat, *old(max_from_ver_len) as nat, *old(max_to_ver_len) as nat), diff@),
{
    let name_len = diff.name.as_str().len();
    assert(name_len as nat == byte_len(diff.name@));
    if name_len > *max_name_len {
        *max_name_len = name_len;
    }
    let from_len = optional_version_width(&diff.from_version);
    if from_len > *max_from_ver_len {
        *max_from_ver_len = from_len;
    }
    let to_len = optional_version_width(&diff.to_version);
    if to_len > *max_to_ver_len {
        *max_to_ver_len = to_len;
    }
}

/// Widens the three widths to fit every diff of `diffs`.
pub fn get_crates_max_len(
    diffs: &[CrateDiffInfo],
    max_name_len: &mut usize,
    max_from_ver_len: &mut usize,
    max_to_ver_len: &mut usize,
)
    ensures
        (*final(max_name_len) as nat, *final(max_from_ver_len) as nat, *final(max_to_ver_len) as nat)
            == widen_all(
            (*old(max_name_len) as nat, *old(max_from_ver_len) as nat, *old(max_to_ver_len) as nat),
            diff_views(diffs@),
        ),
{
    let ghost w0 = (*max_name_len as nat, *max_from_ver_len as nat, *max_to_ver_len as nat);
    let ghost dv = diff_views(diffs@);
    let mut i: usize = 0;
    assert(dv.take(0) =~= Seq::<DiffView>::empty());
    while i < diffs.len()
        invariant
            dv == diff_views(diffs@),
            i <= diffs.len(),
            (*max_name_len as nat, *max_from_ver_len as nat, *max_to_ver_len as nat) == widen_all(
                w0,
                dv.take(i as int),
            ),
        decreases diffs.len() - i,
    {
        assert(dv.take(i + 1).drop_last() =~= dv.take(i as int));
        assert(dv.take(i + 1).last() == diffs@[i as int]@);
        get_crate_max_len(&diffs[i], max_name_len, max_from_ver_len, max_to_ver_len);
        i = i + 1;
    }
    assert(dv.take(diffs.len() as int) =~= dv);
}

/// Widens the three widths to fit a dependency diff: its direct diff, then
/// its updated, added and removed nested diffs.
pub fn get_dep_max_len(
    diff: &DependencyDiff,
    max_name_len: &mut usize,
    max_from_ver_len: &mut usize,
    max_to_ver_len: &mut usize,
)
    ensures
        (*final(max_name_len) as nat, *final(max_from_ver_len) as nat, *final(max_to_ver_len) as nat)
            == widen_all(
            widen_all(
                widen_all(
                    widen(
                        (*old(max_name_len) as nat, *old(max_from_ver_len) as nat, *old(max_to_ver_len) as nat),
                        diff.diff@,
                    ),
                    diff_views(diff.updated_deps@),
                ),
                diff_views(diff.added_deps@),
            ),
            diff_views(diff.removed_deps@),
        ),
{
    get_crate_max_len(&diff.diff, max_name_len, max_from_ver_len, max_to_ver_len);
    get_crates_max_len(diff.updated_deps.as_slice(), max_name_len, max_from_ver_len, max_to_ver_len);
    get_crates_max_len(diff.added_deps.as_slice(), max_name_len, max_from_ver_len, max_to_ver_len);
    get_crates_max_len(diff.removed_deps.as_slice(), max_name_len, max_from_ver_len, max_to_ver_len);
}

} // verus!
