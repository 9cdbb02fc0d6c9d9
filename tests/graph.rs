use ddd::cargo_meta::{CargoMeta, GraphNode};

fn node(id: &str, deps: &[&str]) -> GraphNode {
    GraphNode {
        id: id.to_string(),
        dependencies: deps.iter().map(|d| d.to_string()).collect(),
    }
}

const APP: &str = "path+file:///work/app#0.1.0";
const TOOL: &str = "path+file:///work/tool#0.2.0";
const SERDE: &str = "registry+https://github.com/rust-lang/crates.io-index#serde@1.0.226";
const LOG: &str = "registry+https://github.com/rust-lang/crates.io-index#log@0.4.20";
const ITOA: &str = "registry+https://github.com/rust-lang/crates.io-index#itoa@1.0.11";
const DERIVE: &str = "registry+https://github.com/rust-lang/crates.io-index#serde_derive@1.0.226";

fn workspace() -> CargoMeta {
    CargoMeta {
        workspace_members: vec![APP.to_string(), TOOL.to_string()],
        resolve: Some(vec![
            node(APP, &[SERDE, TOOL]),
            node(TOOL, &[LOG]),
            node(SERDE, &[DERIVE, ITOA]),
            node(LOG, &[]),
            node(ITOA, &[]),
            node(DERIVE, &[]),
        ]),
        workspace_root: "/work".to_string(),
        manifest_paths: vec![
            "/work/app/Cargo.toml".to_string(),
            "/home/u/.cargo/registry/src/index.crates.io-1949cf8c6b5b557f/serde-1.0.226/Cargo.toml"
                .to_string(),
        ],
    }
}

#[test]
fn member_dependencies_skip_local_ones() {
    let deps = workspace().workspace_member_dependencies();
    assert_eq!(2, deps.len());
    assert_eq!("app", deps[0].0);
    assert_eq!(vec!["serde"], deps[0].1.iter().map(|p| p.name.as_str()).collect::<Vec<_>>());
    assert_eq!("tool", deps[1].0);
    assert_eq!(vec!["log"], deps[1].1.iter().map(|p| p.name.as_str()).collect::<Vec<_>>());
}

#[test]
fn nested_packages_leave_out_members_and_direct_ones() {
    let nested = workspace().workspace_nested_packages();
    let names: Vec<_> = nested.iter().map(|p| p.name.as_str()).collect();
    assert_eq!(vec!["itoa", "serde_derive"], names);
}

#[test]
fn unresolved_graph_gives_nothing() {
    let mut meta = workspace();
    meta.resolve = None;
    assert!(meta.workspace_member_dependencies().is_empty());
    assert!(meta.workspace_nested_packages().is_empty());
}

#[test]
fn dependency_info_finds_each_target() {
    let found = workspace().get_dependency_info("log");
    assert_eq!(1, found.len());
    assert_eq!("tool", found[0].0);
    assert_eq!("0.4.20", found[0].1.version.text());
    assert!(workspace().get_dependency_info("rand").is_empty());
}

#[test]
fn registry_path_comes_from_a_registry_manifest() {
    assert_eq!(
        Some("/home/u/.cargo/registry/src/index.crates.io-1949cf8c6b5b557f".to_string()),
        workspace().registry_path()
    );
    let mut meta = workspace();
    meta.manifest_paths.pop();
    assert_eq!(None, meta.registry_path());
}
