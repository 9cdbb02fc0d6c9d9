use ddd::cli::parse_crate_diff_info;
use ddd::version::Version;

fn check_simple_crate_def(s: &str, expected_name: &str) {
    let info = parse_crate_diff_info(s).expect("Wrong crate version definition");
    assert_eq!(expected_name, info.crate_name, "{s}");
    assert_eq!(None, info.from_version, "{s}");
    assert_eq!(None, info.to_version, "{s}");
}

fn check_rate_with_target_version(s: &str, expected_name: &str, expected_version: Version) {
    let info = parse_crate_diff_info(s).expect("Wrong crate version definition");
    assert_eq!(expected_name, info.crate_name, "{s}");
    assert_eq!(None, info.from_version, "{s}");
    assert_eq!(Some(expected_version), info.to_version, "{s}");
}

#[test]
fn test_simple_crate_definition() {
    check_simple_crate_def("serde", "serde");
    check_simple_crate_def("serde@", "serde");
    check_simple_crate_def("serde@-", "serde");
}

#[test]
fn test_crate_with_target_version() {
    check_rate_with_target_version("serde@1.0.225", "serde", Version::new(1, 0, 225));
    check_rate_with_target_version("serde@-1.0.223", "serde", Version::new(1, 0, 223));
}

#[test]
fn test_crate_with_source_version() {
    let info = parse_crate_diff_info("serde@1.0.224-").expect("Wrong crate version definition");
    assert_eq!("serde", info.crate_name);
    assert_eq!(Some(Version::new(1, 0, 224)), info.from_version);
    assert_eq!(None, info.to_version);
}

#[test]
fn test_crate_with_both_versions() {
    let info =
        parse_crate_diff_info("serde@1.0.224-1.0.228").expect("Wrong crate version definition");
    assert_eq!("serde", info.crate_name);
    assert_eq!(Some(Version::new(1, 0, 224)), info.from_version);
    assert_eq!(Some(Version::new(1, 0, 228)), info.to_version);
}

#[test]
fn test_multiple_at_fail() {
    let result = parse_crate_diff_info("serde@1.0.224@1.0.228");
    assert!(result.is_err());
}

#[test]
fn test_multiple_dash_fail() {
    let result = parse_crate_diff_info("serde@1.0.224-1.0.226-1.0.228");
    assert!(result.is_err());
}

#[test]
fn test_wrong_first_version_fail() {
    let result = parse_crate_diff_info("serde@1.0.22*");
    assert!(result.is_err());
}

#[test]
fn test_wrong_second_version_fail() {
    let result = parse_crate_diff_info("serde@-1.0.22*");
    assert!(result.is_err());
}

#[test]
fn format_error_names_the_request() {
    let result = parse_crate_diff_info("serde@1.0.224@1.0.228");
    assert_eq!(
        Err("Wrong crate version format: serde@1.0.224@1.0.228".to_string()),
        result.map(|r| r.crate_name)
    );
}

#[test]
fn blank_versions_with_spaces_are_absent() {
    let info = parse_crate_diff_info("serde@ - ").expect("blank parts");
    assert_eq!("serde", info.crate_name);
    assert_eq!(None, info.from_version);
    assert_eq!(None, info.to_version);
}
