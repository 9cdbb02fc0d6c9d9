use std::cmp::Ordering;

use ddd::version::{decimal_text, Version};

#[test]
fn parses_release_and_tags() {
    let v = Version::parse("1.2.3-beta.1+build.5").expect("valid version");
    assert_eq!(1, v.major);
    assert_eq!(2, v.minor);
    assert_eq!(3, v.patch);
    assert_eq!("beta.1", v.pre);
    assert_eq!("build.5", v.build);
    assert_eq!("1.2.3-beta.1+build.5", v.text());
}

#[test]
fn refuses_non_versions() {
    assert!(Version::parse("1.0").is_err());
    assert!(Version::parse("1.0.22*").is_err());
    assert!(Version::parse("").is_err());
}

#[test]
fn writes_numbers_in_decimal() {
    assert_eq!("0", decimal_text(0));
    assert_eq!("1234567890", decimal_text(1234567890));
    assert_eq!("18446744073709551615", decimal_text(u64::MAX));
    assert_eq!("10.0.226", Version::new(10, 0, 226).text());
}

#[test]
fn orders_by_numbers_then_tags() {
    let a = Version::parse("1.0.0-alpha").unwrap();
    let b = Version::parse("1.0.0-alpha.1").unwrap();
    let c = Version::parse("1.0.0-beta.2").unwrap();
    let d = Version::parse("1.0.0-beta.11").unwrap();
    let e = Version::parse("1.0.0").unwrap();
    let f = Version::parse("1.0.1").unwrap();
    let g = Version::parse("1.10.0").unwrap();
    let all = [&a, &b, &c, &d, &e, &f, &g];
    for i in 0..all.len() {
        for j in 0..all.len() {
            assert_eq!(i.cmp(&j), all[i].compare(all[j]), "{i} {j}");
        }
    }
}

#[test]
fn equal_versions_compare_equal() {
    let a = Version::parse("2.0.0+meta").unwrap();
    let b = Version::parse("2.0.0+meta").unwrap();
    assert_eq!(Ordering::Equal, a.compare(&b));
    assert!(a.same(&b));
    assert!(!a.same(&Version::parse("2.0.0").unwrap()));
}

#[test]
fn build_metadata_orders_numbers_numerically() {
    let two = Version::parse("1.0.0+2").unwrap();
    let ten = Version::parse("1.0.0+10").unwrap();
    assert_eq!(Ordering::Less, two.compare(&ten));
    assert_eq!(Ordering::Greater, ten.compare(&two));
    let rc9 = Version::parse("1.0.0-rc.9").unwrap();
    let rc10 = Version::parse("1.0.0-rc.10").unwrap();
    assert_eq!(Ordering::Less, rc9.compare(&rc10));
}
