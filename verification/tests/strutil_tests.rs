use multirust::strutil::{str_eq, str_lt};

#[test]
fn equality_is_by_characters() {
    assert!(str_eq("", ""));
    assert!(str_eq("stable", "stable"));
    assert!(!str_eq("stable", "stab"));
    assert!(!str_eq("stable", "stables"));
    assert!(!str_eq("beta", "nightly"));
}

#[test]
fn order_is_lexicographic_with_prefixes_first() {
    assert!(str_lt("", "a"));
    assert!(!str_lt("a", ""));
    assert!(str_lt("/a", "/b"));
    assert!(str_lt("/a", "/a/b"));
    assert!(!str_lt("/a/b", "/a"));
    assert!(!str_lt("/a", "/a"));
    assert!(str_lt("beta", "nightly"));
    assert!(str_lt("nightly", "stable"));
}
