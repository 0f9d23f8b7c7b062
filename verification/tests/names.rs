use alpm::text::is_before;
use alpm::{join_path, split_package_dirname, PackageKey};

fn split(dirname: &str) -> Option<(String, String)> {
    split_package_dirname(dirname)
}

fn parts(name: &str, version: &str) -> Option<(String, String)> {
    Some((name.to_string(), version.to_string()))
}

#[test]
fn dirname_splits_at_the_last_hyphen_but_one() {
    assert_eq!(split("foo-1.0-1"), parts("foo", "1.0-1"));
    assert_eq!(split("bar-2.3-4"), parts("bar", "2.3-4"));
    assert_eq!(split("a-b-c"), parts("a", "b-c"));
}

#[test]
fn dirname_name_may_hold_hyphens() {
    assert_eq!(split("xorg-server-common-1.20.3-1"), parts("xorg-server-common", "1.20.3-1"));
    assert_eq!(split("lib32-gcc-libs-8.2.1+20180831-1"), parts("lib32-gcc-libs", "8.2.1+20180831-1"));
}

#[test]
fn dirname_with_epoch_and_unicode() {
    assert_eq!(split("vim-2:8.1-3"), parts("vim", "2:8.1-3"));
    assert_eq!(split("größe-1.0-1"), parts("größe", "1.0-1"));
    assert_eq!(split("pkg-1.0β-1"), parts("pkg", "1.0β-1"));
}

#[test]
fn dirname_without_two_hyphens_is_refused() {
    assert_eq!(split(""), None);
    assert_eq!(split("foo"), None);
    assert_eq!(split("foo-1.0"), None);
    assert_eq!(split("ALPM_DB_VERSION"), None);
    assert_eq!(split("-"), None);
}

#[test]
fn dirname_with_empty_name_is_refused() {
    assert_eq!(split("-1.0-1"), None);
    assert_eq!(split("--"), None);
}

#[test]
fn dirname_parts_may_be_empty_after_the_name() {
    assert_eq!(split("foo--"), parts("foo", "-"));
    assert_eq!(split("foo-1-"), parts("foo", "1-"));
    assert_eq!(split("foo--1"), parts("foo", "-1"));
}

#[test]
fn split_parts_join_back_to_the_dirname() {
    for dirname in ["foo-1.0-1", "a-b-c-d-e", "x--", "lib32-zlib-1.2.11-3"] {
        let (name, version) = split(dirname).unwrap();
        assert_eq!(format!("{}-{}", name, version), dirname);
    }
}

#[test]
fn text_order_is_by_character() {
    assert!(is_before("1.0-1", "1.0-2"));
    assert!(!is_before("1.0-2", "1.0-1"));
    assert!(is_before("1.0", "1.0-1"));
    assert!(!is_before("1.0-1", "1.0"));
    assert!(is_before("", "0"));
    assert!(!is_before("", ""));
    assert!(!is_before("1.0-1", "1.0-1"));
    // By character, not by number.
    assert!(is_before("10.0-1", "9.0-1"));
    assert!(is_before("1.10-1", "1.9-1"));
}

#[test]
fn text_order_is_by_code_point() {
    assert!(is_before("Z", "a"));
    assert!(is_before("z", "é"));
    assert!(is_before("é", "€"));
    assert!(is_before("€", "😀"));
    assert!(!is_before("😀", "€"));
}

#[test]
fn text_order_agrees_with_the_order_of_strings() {
    let texts = ["", "0", "1.0-1", "1.0-10", "1.0-2", "2", "a", "B", "é", "1.0", "😀", "1:0"];
    for a in texts {
        for b in texts {
            assert_eq!(is_before(a, b), a < b, "{:?} and {:?}", a, b);
        }
    }
}

#[test]
fn path_is_joined_with_one_slash() {
    assert_eq!(join_path("/var/lib/pacman", "local"), "/var/lib/pacman/local");
    assert_eq!(join_path("/var/lib/pacman/", "local"), "/var/lib/pacman/local");
    assert_eq!(join_path("/", "local"), "/local");
    assert_eq!(join_path("", "local"), "local");
    assert_eq!(join_path("db", "foo-1.0-1"), "db/foo-1.0-1");
    assert_eq!(join_path("/datenbank/größe", "x"), "/datenbank/größe/x");
}

#[test]
fn key_is_its_name_and_version() {
    let key = PackageKey::from_owned("foo".to_string(), "1.0-1".to_string());
    assert!(key.is(&"foo".to_string(), &"1.0-1".to_string()));
    assert!(!key.is(&"foo".to_string(), &"1.0-2".to_string()));
    assert!(!key.is(&"bar".to_string(), &"1.0-1".to_string()));
    assert_eq!(key, PackageKey { name: "foo".to_string(), version: "1.0-1".to_string() });
}
