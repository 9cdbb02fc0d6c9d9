use ddd::package_id_info::PackageIdInfo;
use ddd::package_source::PackageSource;
use ddd::version::Version;

#[test]
fn decodes_registry_id() {
    let p = PackageIdInfo::from_package_id(
        "registry+https://github.com/rust-lang/crates.io-index#serde@1.0.226",
    )
    .expect("valid id");
    assert!(matches!(p.source, PackageSource::Registry));
    assert_eq!("https://github.com/rust-lang/crates.io-index", p.path);
    assert_eq!("serde", p.name);
    assert_eq!(Version::new(1, 0, 226), p.version);
}

#[test]
fn takes_name_from_path_tail() {
    let p = PackageIdInfo::from_package_id("path+file:///home/user/work/project#0.1.0")
        .expect("valid id");
    assert!(matches!(p.source, PackageSource::Path));
    assert_eq!("project", p.name);
    assert_eq!(Version::new(0, 1, 0), p.version);
}

#[test]
fn strips_git_query_from_name() {
    let p = PackageIdInfo::from_package_id(
        "git+https://github.com/owner/tauri-plugin-trafficlights-positioner?branch=v2#0.1.0",
    )
    .expect("valid id");
    assert!(matches!(p.source, PackageSource::Git));
    assert_eq!("tauri-plugin-trafficlights-positioner", p.name);
}

#[test]
fn keeps_query_for_other_sources() {
    let p = PackageIdInfo::from_package_id("sparse+https://host/index#name?x@1.0.0")
        .expect("valid id");
    assert_eq!("name?x", p.name);
    assert_eq!("sparse", p.source.as_str());
}

#[test]
fn rejects_broken_ids() {
    assert!(PackageIdInfo::from_package_id("serde@1.0.0").is_none());
    assert!(PackageIdInfo::from_package_id("registry+https://index").is_none());
    assert!(PackageIdInfo::from_package_id("registry+https://index#serde@1.0").is_none());
    assert!(PackageIdInfo::from_package_id("registry+noslash#1.0.0").is_none());
    assert!(PackageIdInfo::from_package_id("registry+https://index#@1.0.0").is_none());
}

#[test]
fn reads_source_alone() {
    assert!(matches!(
        PackageIdInfo::parse_source("path+file:///x#1.0.0"),
        Some(PackageSource::Path)
    ));
    assert!(matches!(
        PackageIdInfo::parse_source("registry+https://index#a@1.0.0"),
        Some(PackageSource::Registry)
    ));
    assert!(PackageIdInfo::parse_source("nothing").is_none());
}

#[test]
fn source_texts_round_trip() {
    for text in ["registry", "path", "git", "sparse"] {
        assert_eq!(text, PackageSource::from_text(text).as_str());
    }
}

#[test]
fn encodes_full_package_id() {
    let p = PackageIdInfo::from_package_id("path+file:///home/user/work/project#0.1.0-rc.1")
        .expect("valid id");
    assert_eq!("path+file:///home/user/work/project#project@0.1.0-rc.1", p.package_id());
    let q = PackageIdInfo::from_package_id(&p.package_id()).expect("valid id");
    assert_eq!(p.name, q.name);
    assert_eq!(p.path, q.path);
    assert_eq!(p.version, q.version);
}
