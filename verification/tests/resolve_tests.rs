use multirust::errors::Error;
use multirust::overrides::OverrideDb;
use multirust::resolve::{parent_dir, resolve, ResolvedFrom};

#[test]
fn override_wins_over_default() {
    let mut db = OverrideDb::new();
    db.insert("/proj", "nightly", "manual");
    let default = Some("stable".to_string());
    let r = resolve(&db, &default, "/proj").expect("resolved");
    assert_eq!(r.toolchain, "nightly");
    assert!(matches!(r.from, ResolvedFrom::OverridePin));
    assert_eq!(r.reason.as_deref(), Some("manual"));
}

#[test]
fn unpinned_directory_falls_back_to_default() {
    let mut db = OverrideDb::new();
    db.insert("/proj", "nightly", "manual");
    let default = Some("stable".to_string());
    let r = resolve(&db, &default, "/other").expect("resolved");
    assert_eq!(r.toolchain, "stable");
    assert!(matches!(r.from, ResolvedFrom::DefaultPointer));
    assert!(r.reason.is_none());
}

#[test]
fn ancestor_pin_covers_the_subtree() {
    let mut db = OverrideDb::new();
    db.insert("/proj", "nightly", "manual");
    let default = Some("stable".to_string());
    let r = resolve(&db, &default, "/proj/src/deep").expect("resolved");
    assert_eq!(r.toolchain, "nightly");
    assert!(matches!(r.from, ResolvedFrom::OverridePin));
}

#[test]
fn nearest_pin_wins_over_an_ancestor_pin() {
    let mut db = OverrideDb::new();
    db.insert("/proj", "stable", "manual");
    db.insert("/proj/experiment", "nightly", "manual");
    let r = resolve(&db, &None, "/proj/experiment").expect("resolved");
    assert_eq!(r.toolchain, "nightly");
    let r2 = resolve(&db, &None, "/proj/other").expect("resolved");
    assert_eq!(r2.toolchain, "stable");
}

#[test]
fn nothing_applies_fails_with_no_default_toolchain() {
    let db = OverrideDb::new();
    let r = resolve(&db, &None, "/anywhere");
    assert!(matches!(r, Err(Error::NoDefaultToolchain)));
}

#[test]
fn parent_dir_walks_upward_to_the_root() {
    assert_eq!(parent_dir("/proj/src/deep").as_deref(), Some("/proj/src"));
    assert_eq!(parent_dir("/proj/src").as_deref(), Some("/proj"));
    assert_eq!(parent_dir("/proj").as_deref(), Some("/"));
    assert_eq!(parent_dir("/"), None);
    assert_eq!(parent_dir("relative"), None);
    assert_eq!(parent_dir(""), None);
}

#[test]
fn a_pin_on_the_root_covers_every_directory() {
    let mut db = multirust::overrides::OverrideDb::new();
    db.insert("/", "beta", "manual");
    let r = resolve(&db, &None, "/some/deep/dir").expect("resolved");
    assert_eq!(r.toolchain, "beta");
    assert!(matches!(r.from, ResolvedFrom::OverridePin));
}
