use multirust::overrides::OverrideDb;

#[test]
fn insert_then_list_holds_exactly_that_entry() {
    let mut db = OverrideDb::new();
    db.insert("/proj", "stable", "manual");
    let entries = db.list();
    assert_eq!(entries.len(), 1);
    assert_eq!(entries[0].path, "/proj");
    assert_eq!(entries[0].toolchain, "stable");
    assert_eq!(entries[0].reason, "manual");
}

#[test]
fn remove_then_list_no_longer_holds_it() {
    let mut db = OverrideDb::new();
    db.insert("/proj", "stable", "manual");
    let removed = db.remove("/proj");
    assert!(removed);
    assert_eq!(db.list().len(), 0);
    assert!(db.find("/proj").is_none());
}

#[test]
fn remove_of_never_inserted_path_is_a_no_op() {
    let mut db = OverrideDb::new();
    db.insert("/proj", "stable", "manual");
    let removed = db.remove("/other");
    assert!(!removed);
    assert_eq!(db.list().len(), 1);
    assert_eq!(db.list()[0].path, "/proj");
}

#[test]
fn insert_replaces_the_entry_for_the_exact_path() {
    let mut db = OverrideDb::new();
    db.insert("/proj", "stable", "manual");
    db.insert("/proj", "nightly", "manual");
    assert_eq!(db.list().len(), 1);
    let e = db.find("/proj").expect("entry");
    assert_eq!(e.toolchain, "nightly");
}

#[test]
fn list_is_sorted_by_path_whatever_the_insert_order() {
    let mut db = OverrideDb::new();
    db.insert("/zebra", "beta", "manual");
    db.insert("/alpha", "stable", "manual");
    db.insert("/middle", "nightly", "manual");
    let paths: Vec<&str> = db.list().iter().map(|e| e.path.as_str()).collect();
    assert_eq!(paths, vec!["/alpha", "/middle", "/zebra"]);
}

#[test]
fn find_distinguishes_exact_paths() {
    let mut db = OverrideDb::new();
    db.insert("/a", "stable", "manual");
    db.insert("/a/b", "nightly", "manual");
    assert_eq!(db.find("/a").expect("entry").toolchain, "stable");
    assert_eq!(db.find("/a/b").expect("entry").toolchain, "nightly");
    assert!(db.find("/a/b/c").is_none());
}
