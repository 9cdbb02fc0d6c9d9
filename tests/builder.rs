use ddd::cargo_meta::{CargoMeta, GraphNode};
use ddd::cli::parse_crate_diff_info;
use ddd::crate_diff_builder::CrateDiffBuilder;
use ddd::crate_diff_info::CrateDiffInfo;
use ddd::crate_info::CrateInfo;
use ddd::package_id_info::PackageIdInfo;
use ddd::registry_manager::RegistryManager;
use ddd::version::Version;

fn builder(diff_rs: bool) -> CrateDiffBuilder {
    CrateDiffBuilder::new(RegistryManager::new("/registry".to_string()), diff_rs)
}

fn info(version: Option<Version>) -> CrateInfo {
    CrateInfo {
        version,
        repository: Some("https://github.com/serde-rs/serde".to_string()),
    }
}

fn v(text: &str) -> Version {
    Version::parse(text).unwrap()
}

fn pkg(name: &str, version: &str) -> PackageIdInfo {
    PackageIdInfo::from_package_id(&format!(
        "registry+https://github.com/rust-lang/crates.io-index#{name}@{version}"
    ))
    .unwrap()
}

fn two_targets() -> CargoMeta {
    let lib = "path+file:///work/lib#0.1.0";
    let bin = "path+file:///work/bin#0.1.0";
    let serde_a = "registry+https://github.com/rust-lang/crates.io-index#serde@1.0.222";
    let serde_b = "registry+https://github.com/rust-lang/crates.io-index#serde@1.0.224";
    CargoMeta {
        workspace_members: vec![lib.to_string(), bin.to_string()],
        resolve: Some(vec![
            GraphNode { id: lib.to_string(), dependencies: vec![serde_a.to_string()] },
            GraphNode { id: bin.to_string(), dependencies: vec![serde_b.to_string()] },
            GraphNode { id: serde_a.to_string(), dependencies: vec![] },
            GraphNode { id: serde_b.to_string(), dependencies: vec![] },
        ]),
        workspace_root: "/work".to_string(),
        manifest_paths: vec![],
    }
}

fn versions(d: &CrateDiffInfo) -> (Option<String>, Option<String>) {
    (
        d.from_version.as_ref().map(|v| v.text()),
        d.to_version.as_ref().map(|v| v.text()),
    )
}

#[test]
fn explicit_range_gives_one_unscoped_record() {
    let request = parse_crate_diff_info("serde@1.0.223-1.0.226").unwrap();
    let diffs = builder(false).build_from_crates(&[request], &[info(Some(v("1.0.226")))]);
    assert_eq!(1, diffs.len());
    assert_eq!("", diffs[0].0);
    assert_eq!(1, diffs[0].1.len());
    let d = &diffs[0].1[0];
    assert_eq!("serde", d.name);
    assert_eq!((Some("1.0.223".to_string()), Some("1.0.226".to_string())), versions(d));
    assert_eq!(Some("https://github.com/serde-rs/serde".to_string()), d.repository);
}

#[test]
fn bare_request_gives_one_record_per_target() {
    let request = parse_crate_diff_info("serde").unwrap();
    let diffs =
        builder(false).build_from_crate_deps(&[request], &two_targets(), &[info(Some(v("1.0.226")))]);
    assert_eq!(2, diffs.len());
    assert_eq!("lib", diffs[0].0);
    assert_eq!("bin", diffs[1].0);
    assert_eq!(
        (Some("1.0.222".to_string()), Some("1.0.226".to_string())),
        versions(&diffs[0].1[0])
    );
    assert_eq!(
        (Some("1.0.224".to_string()), Some("1.0.226".to_string())),
        versions(&diffs[1].1[0])
    );
}

#[test]
fn non_dependency_request_has_no_from_version() {
    let request = parse_crate_diff_info("rand").unwrap();
    let diffs =
        builder(false).build_from_crate_deps(&[request], &two_targets(), &[info(Some(v("0.9.0")))]);
    assert_eq!(1, diffs.len());
    assert_eq!("", diffs[0].0);
    assert_eq!("rand", diffs[0].1[0].name);
    assert_eq!((None, Some("0.9.0".to_string())), versions(&diffs[0].1[0]));
}

#[test]
fn equal_versions_are_never_emitted() {
    let request = parse_crate_diff_info("serde@1.0.226-1.0.226").unwrap();
    let diffs = builder(false).build_from_crates(&[request], &[info(Some(v("1.0.226")))]);
    assert!(diffs.is_empty());

    let request = parse_crate_diff_info("serde").unwrap();
    let diffs =
        builder(false).build_from_crate_deps(&[request], &two_targets(), &[info(Some(v("1.0.224")))]);
    assert_eq!(1, diffs.len());
    assert_eq!("lib", diffs[0].0);
}

#[test]
fn up_to_date_dependencies_leave_empty_lists() {
    let deps = two_targets().workspace_member_dependencies();
    let latest = vec![vec![info(Some(v("1.0.222")))], vec![info(Some(v("1.0.226")))]];
    let diffs = builder(false).build_from_crate(&deps, &latest);
    assert_eq!(2, diffs.len());
    assert_eq!("lib", diffs[0].0);
    assert!(diffs[0].1.is_empty());
    assert_eq!("bin", diffs[1].0);
    assert_eq!(
        (Some("1.0.224".to_string()), Some("1.0.226".to_string())),
        versions(&diffs[1].1[0])
    );
}

#[test]
fn unknown_latest_still_gives_a_record() {
    let deps = two_targets().workspace_member_dependencies();
    let latest = vec![vec![info(None)], vec![info(Some(v("1.0.224")))]];
    let diffs = builder(true).build_from_crate(&deps, &latest);
    assert_eq!((Some("1.0.222".to_string()), None), versions(&diffs[0].1[0]));
    assert_eq!(None, diffs[0].1[0].repository);
    assert!(diffs[1].1.is_empty());
}

#[test]
fn comparison_link_mode_drops_repository() {
    let request = parse_crate_diff_info("serde@1.0.223-1.0.226").unwrap();
    let diffs = builder(true).build_from_crates(&[request], &[info(Some(v("1.0.226")))]);
    assert_eq!(None, diffs[0].1[0].repository);
    assert_eq!(None, diffs[0].1[0].from_hash);
}

#[test]
fn add_diff_groups_by_target() {
    let b = builder(false);
    let mut diffs = Vec::new();
    b.add_diff("lib", "a", Some(v("1.0.0")), Some(v("1.1.0")), None, &mut diffs);
    b.add_diff("bin", "b", None, Some(v("2.0.0")), None, &mut diffs);
    b.add_diff("lib", "c", Some(v("3.0.0")), None, None, &mut diffs);
    b.add_diff("lib", "d", Some(v("4.0.0")), Some(v("4.0.0")), None, &mut diffs);
    assert_eq!(2, diffs.len());
    assert_eq!(
        vec!["a", "c"],
        diffs[0].1.iter().map(|d| d.name.as_str()).collect::<Vec<_>>()
    );
    assert_eq!(vec!["b"], diffs[1].1.iter().map(|d| d.name.as_str()).collect::<Vec<_>>());
}

#[test]
fn nested_diff_sorts_packages_into_three_lists() {
    let from = vec![pkg("A", "1.0.0"), pkg("B", "2.0.0")];
    let to = vec![pkg("A", "1.1.0"), pkg("C", "1.0.0")];
    let (removed, added, updated) = builder(false).build_nested_deps(&from, to);
    assert_eq!(1, removed.len());
    assert_eq!("B", removed[0].name);
    assert_eq!((Some("2.0.0".to_string()), None), versions(&removed[0]));
    assert_eq!(1, added.len());
    assert_eq!("C", added[0].name);
    assert_eq!((None, Some("1.0.0".to_string())), versions(&added[0]));
    assert_eq!(1, updated.len());
    assert_eq!("A", updated[0].name);
    assert_eq!((Some("1.0.0".to_string()), Some("1.1.0".to_string())), versions(&updated[0]));
}

#[test]
fn identical_sets_give_no_changes() {
    let from = vec![pkg("A", "1.0.0")];
    let to = vec![pkg("A", "1.0.0")];
    let (removed, added, updated) = builder(false).build_nested_deps(&from, to);
    assert!(removed.is_empty());
    assert!(added.is_empty());
    assert!(updated.is_empty());
}

#[test]
fn nested_names_fall_in_one_list_each() {
    let from = vec![pkg("a", "1.0.0"), pkg("b", "1.0.0"), pkg("c", "1.0.0"), pkg("d", "1.0.0")];
    let to = vec![pkg("e", "1.0.0"), pkg("c", "2.0.0"), pkg("a", "1.0.0")];
    let (removed, added, updated) = builder(false).build_nested_deps(&from, to);
    let names = |l: &Vec<CrateDiffInfo>| l.iter().map(|d| d.name.clone()).collect::<Vec<_>>();
    assert_eq!(vec!["b", "d"], names(&removed));
    assert_eq!(vec!["e"], names(&added));
    assert_eq!(vec!["c"], names(&updated));
}

#[test]
fn nested_diff_is_repeatable() {
    let run = || {
        let from = vec![pkg("x", "1.0.0"), pkg("y", "1.0.0")];
        let to = vec![pkg("y", "1.2.0"), pkg("z", "0.1.0")];
        let (r, a, u) = builder(false).build_nested_deps(&from, to);
        let show = |l: Vec<CrateDiffInfo>| {
            l.iter()
                .map(|d| format!("{}:{:?}", d.name, versions(d)))
                .collect::<Vec<_>>()
        };
        (show(r), show(a), show(u))
    };
    assert_eq!(run(), run());
}

#[test]
fn resolve_diff_suppresses_equal_versions_only() {
    let same = ddd::crate_diff_builder::resolve_diff("a", Some(v("1.0.0")), Some(v("1.0.0")), None);
    assert!(same.is_none());
    let tagged = ddd::crate_diff_builder::resolve_diff("a", Some(v("1.0.0")), Some(v("1.0.0+b")), None)
        .expect("build metadata differs");
    assert_eq!((Some("1.0.0".to_string()), Some("1.0.0+b".to_string())), versions(&tagged));
    let one_sided = ddd::crate_diff_builder::resolve_diff("a", None, None, Some("r".to_string()))
        .expect("no versions");
    assert_eq!(Some("r".to_string()), one_sided.repository);
}
