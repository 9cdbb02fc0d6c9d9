use ddd::registry_manager::{choose_registry_source, RegistryManager};
use ddd::version::Version;

const INFO: &str = "serde #serde #serialization #no_std\n\
A generic serialization/deserialization framework\n\
version: 1.0.222 (latest 1.0.226)\n\
license: MIT OR Apache-2.0\n\
rust-version: 1.31\n\
documentation: https://docs.rs/serde\n\
homepage: https://serde.rs\n\
repository: https://github.com/serde-rs/serde\r\n";

#[test]
fn repository_line_wins() {
    assert_eq!(
        Some("https://github.com/serde-rs/serde".to_string()),
        RegistryManager::repository_from_output(INFO)
    );
}

#[test]
fn github_homepage_gives_repository() {
    let out = "version: 0.1.0\nhomepage: https://github.com/owner/repo/tree/main/sub\n";
    assert_eq!(
        Some("https://github.com/owner/repo".to_string()),
        RegistryManager::repository_from_output(out)
    );
    let out = "homepage: https://github.com/owner\n";
    assert_eq!(None, RegistryManager::repository_from_output(out));
    let out = "homepage: https://example.org/a/b/c\n";
    assert_eq!(None, RegistryManager::repository_from_output(out));
    assert_eq!(None, RegistryManager::repository_from_output(""));
}

#[test]
fn version_line_gives_latest_or_current() {
    let (latest, fetch) = RegistryManager::version_from_output(INFO, false).unwrap();
    assert_eq!(Version::new(1, 0, 226), latest);
    assert!(fetch);
    let (current, _) = RegistryManager::version_from_output(INFO, true).unwrap();
    assert_eq!(Version::new(1, 0, 222), current);
    let (plain, fetch) = RegistryManager::version_from_output("version: 0.4.20\n", false).unwrap();
    assert_eq!(Version::new(0, 4, 20), plain);
    assert!(!fetch);
    assert!(RegistryManager::version_from_output("version: soon\n", false).is_none());
}

#[test]
fn sha1_line_gives_hash() {
    let vcs = "{\n  \"git\": {\n    \"sha1\": \"0123456789abcdef\"\n  },\n  \"path_in_vcs\": \"\"\n}";
    assert_eq!(
        Some("0123456789abcdef".to_string()),
        RegistryManager::hash_from_vcs_info(vcs)
    );
    assert_eq!(None, RegistryManager::hash_from_vcs_info("{}"));
}

#[test]
fn first_registry_source_is_chosen() {
    let names: Vec<String> = ["github.com-1ecc6299db9ec823", "index.crates.io-6f17d22bba15001f", "index.crates.io-1949cf8c6b5b557f"]
        .iter()
        .map(|s| s.to_string())
        .collect();
    let choice = choose_registry_source(&names);
    assert_eq!(Some(1), choice.first);
    assert_eq!(2, choice.count);
    let none = choose_registry_source(&vec!["other".to_string()]);
    assert_eq!(None, none.first);
    assert_eq!(0, none.count);
}

#[test]
fn crate_path_is_name_and_version_in_registry() {
    let registry = RegistryManager::new("/home/u/.cargo/registry/src/index.crates.io-x".to_string());
    assert_eq!(
        "/home/u/.cargo/registry/src/index.crates.io-x/serde-1.0.226",
        registry.get_crate_path("serde", &Version::new(1, 0, 226))
    );
}
