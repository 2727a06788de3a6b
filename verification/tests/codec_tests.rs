use multirust::codec::{decode_entries, encode_entries};
use multirust::overrides::{OverrideDb, OverrideEntry};

fn entry(path: &str, toolchain: &str, reason: &str) -> OverrideEntry {
    OverrideEntry {
        path: path.to_string(),
        toolchain: toolchain.to_string(),
        reason: reason.to_string(),
    }
}

#[test]
fn encoding_is_one_tab_separated_line_per_entry() {
    let mut db = OverrideDb::new();
    db.insert("/proj", "nightly", "manual");
    db.insert("/other", "stable", "manual");
    let text = encode_entries(db.list()).expect("encodable");
    assert_eq!(text, "/other\tstable\tmanual\n/proj\tnightly\tmanual\n");
}

#[test]
fn decoding_inverts_encoding() {
    let entries = vec![
        entry("/proj", "nightly", "manual"),
        entry("/other", "stable", "manual"),
        entry("/", "beta", "inherited"),
    ];
    let text = encode_entries(&entries).expect("encodable");
    let back = decode_entries(&text).expect("decodable");
    assert_eq!(back.len(), 3);
    for (a, b) in entries.iter().zip(back.iter()) {
        assert_eq!(a.path, b.path);
        assert_eq!(a.toolchain, b.toolchain);
        assert_eq!(a.reason, b.reason);
    }
}

#[test]
fn empty_store_round_trips() {
    let text = encode_entries(&Vec::new()).expect("encodable");
    assert_eq!(text, "");
    let back = decode_entries("").expect("decodable");
    assert!(back.is_empty());
}

#[test]
fn a_field_holding_a_separator_is_refused() {
    let bad = vec![entry("/pro\tj", "stable", "manual")];
    assert!(encode_entries(&bad).is_none());
    let bad = vec![entry("/proj", "sta\nble", "manual")];
    assert!(encode_entries(&bad).is_none());
}

#[test]
fn malformed_text_decodes_to_nothing() {
    assert!(decode_entries("/proj only-one-tab\tstable\n").is_none());
    assert!(decode_entries("/proj\tstable\tmanual").is_none());
    assert!(decode_entries("no separators at all\n").is_none());
}

#[test]
fn empty_fields_still_round_trip() {
    let entries = vec![entry("", "", "")];
    let text = encode_entries(&entries).expect("encodable");
    assert_eq!(text, "\t\t\n");
    let back = decode_entries(&text).expect("decodable");
    assert_eq!(back.len(), 1);
    assert_eq!(back[0].path, "");
    assert_eq!(back[0].toolchain, "");
    assert_eq!(back[0].reason, "");
}
