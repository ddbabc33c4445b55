use roan::path::{absolute_against, normalize_without_canonicalize};
use std::path::PathBuf;

#[test]
fn a_relative_name_is_joined_onto_the_root() {
    let r = normalize_without_canonicalize(PathBuf::from("main.roan"), PathBuf::from("/srv/app"));
    assert_eq!(r, PathBuf::from("/srv/app/main.roan"));
    let nested = normalize_without_canonicalize(PathBuf::from("lib/util.roan"), PathBuf::from("/srv/app"));
    assert_eq!(nested, PathBuf::from("/srv/app/lib/util.roan"));
}

#[test]
fn an_absolute_path_is_kept() {
    let r = normalize_without_canonicalize(PathBuf::from("/etc/x.roan"), PathBuf::from("/srv/app"));
    assert_eq!(r, PathBuf::from("/etc/x.roan"));
}

#[test]
fn normalizing_twice_changes_nothing() {
    let once = normalize_without_canonicalize(PathBuf::from("a.roan"), PathBuf::from("/srv"));
    let twice = normalize_without_canonicalize(once.clone(), PathBuf::from("/other"));
    assert_eq!(once, twice);
}

#[test]
fn absolute_against_follows_the_flag() {
    assert_eq!(
        absolute_against(PathBuf::from("x"), PathBuf::from("/r"), false),
        PathBuf::from("x")
    );
    assert_eq!(
        absolute_against(PathBuf::from("x"), PathBuf::from("/r"), true),
        PathBuf::from("/r/x")
    );
}
