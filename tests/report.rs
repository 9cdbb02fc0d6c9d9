use ddd::crate_diff_info::{compare_diffs, sort_diffs, CrateDiffInfo};
use ddd::dependency_diff::DependencyDiff;
use ddd::diff_report::DiffReport;
use ddd::field_size::{get_crates_max_len, get_dep_max_len};
use ddd::merged_view::{merge_nested, NestedKind};
use ddd::report_printers::{SimpleReportPrinter, VerboseReportPrinter};
use ddd::version::Version;
use std::cmp::Ordering;

fn diff(name: &str, from: Option<&str>, to: Option<&str>) -> CrateDiffInfo {
    CrateDiffInfo {
        name: name.to_string(),
        from_version: from.map(|v| Version::parse(v).unwrap()),
        from_hash: None,
        to_version: to.map(|v| Version::parse(v).unwrap()),
        to_hash: None,
        repository: None,
    }
}

fn key(d: &CrateDiffInfo) -> String {
    format!(
        "{}:{}:{}",
        d.name,
        d.from_version.as_ref().map(|v| v.text()).unwrap_or_default(),
        d.to_version.as_ref().map(|v| v.text()).unwrap_or_default()
    )
}

#[test]
fn sorts_by_name_then_versions() {
    let sorted = sort_diffs(vec![
        diff("b", Some("1.0.0"), None),
        diff("a", Some("1.0.0"), Some("1.10.0")),
        diff("a", None, Some("2.0.0")),
        diff("a", Some("1.0.0"), Some("1.9.0")),
        diff("B", None, Some("1.0.0")),
    ]);
    let keys: Vec<_> = sorted.iter().map(key).collect();
    assert_eq!(
        vec!["B::1.0.0", "a::2.0.0", "a:1.0.0:1.9.0", "a:1.0.0:1.10.0", "b:1.0.0:"],
        keys
    );
}

#[test]
fn sorting_nothing_gives_nothing() {
    assert!(sort_diffs(vec![]).is_empty());
}

#[test]
fn absent_version_comes_first() {
    let a = diff("x", None, Some("1.0.0"));
    let b = diff("x", Some("0.1.0"), Some("1.0.0"));
    assert_eq!(Ordering::Less, compare_diffs(&a, &b));
    assert_eq!(Ordering::Greater, compare_diffs(&b, &a));
    assert_eq!(Ordering::Equal, compare_diffs(&a, &a));
}

#[test]
fn dependency_diff_keeps_lists_sorted() {
    let d = DependencyDiff::new(
        diff("top", Some("1.0.0"), Some("2.0.0")),
        vec![diff("z", Some("1.0.0"), None), diff("m", Some("1.0.0"), None)],
        vec![diff("q", None, Some("1.0.0")), diff("c", None, Some("1.0.0"))],
        vec![diff("y", Some("1.0.0"), Some("1.1.0")), diff("b", Some("1.0.0"), Some("1.1.0"))],
    );
    assert_eq!("top", d.diff.name);
    assert_eq!(vec!["m:1.0.0:", "z:1.0.0:"], d.removed_deps.iter().map(key).collect::<Vec<_>>());
    assert_eq!(vec!["c::1.0.0", "q::1.0.0"], d.added_deps.iter().map(key).collect::<Vec<_>>());
    assert_eq!(
        vec!["b:1.0.0:1.1.0", "y:1.0.0:1.1.0"],
        d.updated_deps.iter().map(key).collect::<Vec<_>>()
    );
}

#[test]
fn report_groups_by_target_in_insertion_order() {
    let mut report = DiffReport::new();
    report.add_target("lib".to_string(), vec![]);
    report.add_target("".to_string(), vec![]);
    report.add_target(
        "lib".to_string(),
        vec![DependencyDiff::new(diff("a", None, Some("1.0.0")), vec![], vec![], vec![])],
    );
    let targets: Vec<_> = report.dependency_diffs.keys().cloned().collect();
    assert_eq!(vec!["lib".to_string(), "".to_string()], targets);
    assert_eq!(1, report.dependency_diffs["lib"].len());
}

#[test]
fn widths_fit_the_widest_texts() {
    let d = DependencyDiff::new(
        diff("serde", Some("1.0.0"), Some("1.0.226")),
        vec![diff("serde_derive", Some("1.0.0-alpha.1"), None)],
        vec![],
        vec![],
    );
    let (mut name, mut from, mut to) = (0, 0, 0);
    get_dep_max_len(&d, &mut name, &mut from, &mut to);
    assert_eq!((12, 13, 7), (name, from, to));
    let (mut name, mut from, mut to) = (20, 1, 1);
    get_crates_max_len(&[diff("ab", None, None)], &mut name, &mut from, &mut to);
    assert_eq!((20, 1, 1), (name, from, to));
}

#[test]
fn printers_start_with_zero_widths() {
    let p = SimpleReportPrinter::new(true, false);
    assert!(p.group);
    assert!(!p.diff_rs);
    assert_eq!((0, 0, 0), (p.max_name_len, p.max_from_ver_len, p.max_to_ver_len));
    let v = VerboseReportPrinter::new(false, true);
    assert!(!v.group);
    assert!(v.diff_rs);
}

#[test]
fn merged_view_keeps_each_record_once_in_order() {
    let first = DependencyDiff::new(
        diff("top", Some("1.0.0"), Some("2.0.0")),
        vec![diff("old", Some("1.0.0"), None)],
        vec![diff("new", None, Some("1.0.0")), diff("shared", None, Some("1.0.0"))],
        vec![],
    );
    let second = DependencyDiff::new(
        diff("other", Some("1.0.0"), Some("1.1.0")),
        vec![],
        vec![diff("shared", None, Some("1.0.0")), diff("alpha", None, Some("0.1.0"))],
        vec![diff("u", Some("1.0.0"), Some("1.0.1"))],
    );
    let diffs = [first, second];
    let added: Vec<_> = merge_nested(&diffs, NestedKind::Added).iter().map(key).collect();
    assert_eq!(vec!["alpha::0.1.0", "new::1.0.0", "shared::1.0.0"], added);
    let removed: Vec<_> = merge_nested(&diffs, NestedKind::Removed).iter().map(key).collect();
    assert_eq!(vec!["old:1.0.0:"], removed);
    let updated: Vec<_> = merge_nested(&diffs, NestedKind::Updated).iter().map(key).collect();
    assert_eq!(vec!["u:1.0.0:1.0.1"], updated);
}

#[test]
fn merged_view_tells_records_apart_by_hash() {
    let mut a = diff("x", None, Some("1.0.0"));
    a.to_hash = Some("bbb".to_string());
    let mut b = diff("x", None, Some("1.0.0"));
    b.to_hash = Some("aaa".to_string());
    let diffs = [DependencyDiff::new(diff("top", None, None), vec![], vec![a, b], vec![])];
    let merged = merge_nested(&diffs, NestedKind::Added);
    assert_eq!(2, merged.len());
    assert_eq!(Some("aaa".to_string()), merged[0].to_hash);
}

fn printer(diff_rs: bool, widths: (usize, usize, usize)) -> SimpleReportPrinter {
    let mut p = SimpleReportPrinter::new(false, diff_rs);
    p.max_name_len = widths.0;
    p.max_from_ver_len = widths.1;
    p.max_to_ver_len = widths.2;
    p
}

fn linked(mut d: CrateDiffInfo, repository: &str, from_hash: Option<&str>, to_hash: Option<&str>) -> CrateDiffInfo {
    d.repository = Some(repository.to_string());
    d.from_hash = from_hash.map(|h| h.to_string());
    d.to_hash = to_hash.map(|h| h.to_string());
    d
}

#[test]
fn table_rows_are_padded_and_linked() {
    let d = linked(
        diff("serde", Some("1.0.0"), Some("1.0.226")),
        "https://github.com/serde-rs/serde",
        Some("0123456789"),
        Some("abcdef0123"),
    );
    assert_eq!(
        "# serde   1.0.0   1.0.226 https://github.com/serde-rs/serde/compare/0123456...abcdef0",
        printer(false, (7, 7, 7)).crate_row(&d, "#")
    );
    assert_eq!(
        "= serde 1.0.0 1.0.226 https://diff.rs/serde/1.0.0/1.0.226",
        printer(true, (0, 0, 0)).crate_row(&d, "=")
    );
}

#[test]
fn links_fall_back_without_hashes() {
    let p = printer(false, (0, 0, 0));
    let d = linked(diff("a", Some("1.0.0"), Some("2.0.0")), "https://gitlab.com/x/a", Some("1"), Some("2"));
    assert_eq!("https://gitlab.com/x/a", p.crate_link(&d));
    assert_eq!("<unknown-repository>", p.crate_link(&diff("a", Some("1.0.0"), Some("2.0.0"))));
    let removed = linked(diff("r", Some("1.0.0"), None), "https://github.com/o/r", Some("ffff"), None);
    assert_eq!("https://github.com/o/r/commit/ffff", p.crate_link(&removed));
    assert_eq!("https://diff.rs/r/1.0.0/1.0.0", p.crate_link(&diff("r", Some("1.0.0"), None)));
    let added = linked(diff("n", None, Some("0.2.0")), "https://github.com/o/n", None, Some("eeee"));
    assert_eq!("https://github.com/o/n/commit/eeee", p.crate_link(&added));
    assert_eq!("https://diff.rs/n/0.2.0/0.2.0", printer(true, (0, 0, 0)).crate_link(&added));
    assert_eq!("<unknown>", p.crate_link(&diff("u", None, None)));
}

#[test]
fn prose_tells_of_an_upgrade() {
    let d = linked(
        diff("serde", Some("1.0.0"), Some("1.0.226")),
        "https://github.com/serde-rs/serde",
        Some("0123456789"),
        Some("abcdef0123"),
    );
    assert_eq!(
        "  serde:upgraded\n\
         \x20   From: 1.0.0 https://github.com/serde-rs/serde/commit/0123456789\n\
         \x20   To:   1.0.226 https://github.com/serde-rs/serde/commit/abcdef0123\n\
         \x20   Diff: https://github.com/serde-rs/serde/compare/0123456...abcdef0\n",
        VerboseReportPrinter::new(false, false).crate_text(&d, 1)
    );
}

#[test]
fn prose_tells_of_a_downgrade_without_hashes() {
    let d = diff("log", Some("0.4.20"), Some("0.4.1"));
    assert_eq!(
        "log:downgraded\n  From: 0.4.20 <unknown-commit>\n  To:   0.4.1 <unknown-commit>\n  Repo: <unknown-repository>\n  Diff: https://diff.rs/log/0.4.20/0.4.1\n",
        VerboseReportPrinter::new(false, true).crate_text(&d, 0)
    );
}

#[test]
fn prose_tells_of_removed_added_and_unknown() {
    let p = VerboseReportPrinter::new(true, false);
    let removed = linked(diff("old", Some("1.0.0"), None), "https://github.com/o/old", Some("ffff"), None);
    assert_eq!(
        "old:\n  From: 1.0.0 ffff\n  Repo: https://github.com/o/old/commit/ffff\n",
        p.crate_text(&removed, 0)
    );
    let added = diff("new", None, Some("0.1.0"));
    assert_eq!(
        "new:\n  To:   0.1.0 <unknown-commit>\n  Repo: <unknown-repository> <unknown-commit>\n",
        p.crate_text(&added, 0)
    );
    assert_eq!("x:\n  Repo: <unknown-repository>\n", p.crate_text(&diff("x", None, None), 0));
}
