use memvid_export_api::strutil::{
    ascii_lower, find_line_value, find_sub, normalize_text, parse_u64, str_contains,
    str_ends_with, str_eq_str, str_starts_with, trim_blanks, u64_to_string,
};
use memvid_export_api::tools::{decode_cursor, encode_cursor};

#[test]
fn normalize_text_is_deterministic() {
    assert_eq!(normalize_text("Foo::Bar-baz").as_str(), "foo bar baz");
}

#[test]
fn normalize_text_trims_and_collapses() {
    assert_eq!(normalize_text("  Hello,   World!  ").as_str(), "hello world");
    assert_eq!(normalize_text("under_score stays").as_str(), "under_score stays");
    assert_eq!(normalize_text("").as_str(), "");
    assert_eq!(normalize_text("***").as_str(), "");
}

#[test]
fn cursor_roundtrip() {
    let encoded = encode_cursor(912345, "abc::1");
    let (score, key) = decode_cursor(encoded.as_str()).expect("cursor parse");
    assert!((score as f64 / 1000000.0 - 0.912345).abs() < 0.0001);
    assert_eq!(key.as_str(), "abc::1");
}

#[test]
fn cursor_encodes_canonically() {
    assert_eq!(encode_cursor(1000000, "k").as_str(), "1.000000::k");
    assert_eq!(encode_cursor(780000, "x").as_str(), "0.780000::x");
    assert_eq!(decode_cursor("not a cursor"), None);
    assert_eq!(decode_cursor("0.5::k"), None);
}

#[test]
fn decimal_rendering_and_parsing() {
    assert_eq!(u64_to_string(0).as_str(), "0");
    assert_eq!(u64_to_string(90210).as_str(), "90210");
    assert_eq!(parse_u64("90210"), Some(90210));
    assert_eq!(parse_u64(""), None);
    assert_eq!(parse_u64("12a"), None);
    assert_eq!(parse_u64("18446744073709551615"), Some(u64::MAX));
    assert_eq!(parse_u64("18446744073709551616"), None);
}

#[test]
fn substring_and_prefix_helpers() {
    assert!(str_starts_with("mv2://relations/r1", "mv2://relations/"));
    assert!(!str_starts_with("mv2://nodes/n1", "mv2://relations/"));
    assert!(str_contains("proc_login_flow", "proc_"));
    assert!(!str_contains("process", "proc_"));
    assert!(str_ends_with("src/a.rs", "a.rs"));
    assert!(!str_ends_with("a.rs", "src/a.rs"));
    assert_eq!(find_sub("edge_proc_login", "_proc_"), Some(4));
    assert_eq!(find_sub("edge", "_proc_"), None);
    assert!(str_eq_str("same", "same"));
    assert!(!str_eq_str("same", "Same"));
}

#[test]
fn line_value_scanning() {
    let text = "Node Function\nid=n1\nname=foo\nfilePath=a.rs\n";
    assert_eq!(find_line_value(text, "id=").unwrap().as_str(), "n1");
    assert_eq!(find_line_value(text, "name=").unwrap().as_str(), "foo");
    assert_eq!(find_line_value(text, "missing="), None);
}

#[test]
fn blank_trimming_and_lowering() {
    assert_eq!(trim_blanks("  x y \t\n").as_str(), "x y");
    assert_eq!(ascii_lower("AbC-9").as_str(), "abc-9");
}
