use cxs::budget::{clamp_u64, clamp_usize, Budget};
use cxs::json::{as_list_value, value_to_plain_string, value_to_search_string, Args, JsonValue};
use cxs::text::{clean_rel, decimal_string, join_strings, str_contains, truncate_chars};

#[test]
fn truncate_keeps_short_text() {
    assert_eq!(truncate_chars("hello", 10), "hello");
    assert_eq!(truncate_chars("hello", 5), "hello");
}

#[test]
fn truncate_cuts_with_mark() {
    let s = "abcdefghijklmnopqrstuvwxyz";
    let t = truncate_chars(s, 20);
    assert_eq!(t, "abcdef\u{2026}[truncated]");
    assert!(t.chars().count() <= 20);
}

#[test]
fn truncate_small_bound_cuts_plainly() {
    assert_eq!(truncate_chars("abcdefghijklmnopqrstuvwxyz", 4), "abcd");
    assert_eq!(truncate_chars("\u{e9}\u{e9}\u{e9}\u{e9}\u{e9}", 3), "\u{e9}\u{e9}\u{e9}");
}

#[test]
fn clean_rel_drops_dot_slash() {
    assert_eq!(clean_rel("./src/a.py"), "src/a.py");
    assert_eq!(clean_rel("src/a.py"), "src/a.py");
    assert_eq!(clean_rel("./"), "");
}

#[test]
fn clamps_hold_values_in_range() {
    assert_eq!(clamp_usize(Some(0), 1, 10, 5), 1);
    assert_eq!(clamp_usize(None, 1, 10, 5), 5);
    assert_eq!(clamp_usize(Some(20), 1, 10, 5), 10);
    assert_eq!(clamp_usize(Some(7), 1, 10, 5), 7);
    assert_eq!(clamp_u64(Some(0), 1, 1_000, 64), 1);
    assert_eq!(clamp_u64(None, 1, 1_000, 64), 64);
}

#[test]
fn default_budget_values() {
    let b = Budget::default_budget();
    assert_eq!(b.max_total_hits, 300);
    assert_eq!(b.max_hits_per_file, 999);
    assert_eq!(b.max_line_chars, 240);
    assert_eq!(b.max_total_chars, 12000);
    assert_eq!(b.json_large_list_items, 50);
}

#[test]
fn search_and_plain_strings() {
    assert_eq!(value_to_search_string(&JsonValue::Bool(true)), "True");
    assert_eq!(value_to_search_string(&JsonValue::Null), "None");
    assert_eq!(value_to_plain_string(&JsonValue::Bool(false)), "false");
    assert_eq!(value_to_plain_string(&JsonValue::Null), "null");
    assert_eq!(value_to_plain_string(&JsonValue::Number(Some(3), "3".to_string())), "3");
    assert_eq!(value_to_search_string(&JsonValue::Str("x y".to_string())), "x y");
}

#[test]
fn list_values_skip_empty_items() {
    let v = JsonValue::Array(
        vec![
            JsonValue::Str("a".to_string()),
            JsonValue::Str(String::new()),
            JsonValue::Null,
            JsonValue::Number(Some(3), "3".to_string()),
        ],
        "[\"a\",\"\",null,3]".to_string(),
    );
    assert_eq!(as_list_value(Some(&v)), vec!["a".to_string(), "3".to_string()]);
    assert_eq!(as_list_value(None), Vec::<String>::new());
    assert_eq!(as_list_value(Some(&JsonValue::Str("one".to_string()))), vec!["one".to_string()]);
    assert_eq!(as_list_value(Some(&JsonValue::Null)), Vec::<String>::new());
}

#[test]
fn args_lookup_finds_first_key() {
    let a = Args {
        entries: vec![
            ("a".to_string(), JsonValue::Bool(true)),
            ("b".to_string(), JsonValue::Null),
        ],
    };
    assert!(matches!(a.get("a"), Some(JsonValue::Bool(true))));
    assert!(matches!(a.get("b"), Some(JsonValue::Null)));
    assert!(a.get("c").is_none());
}

#[test]
fn small_text_helpers() {
    assert_eq!(decimal_string(0), "0");
    assert_eq!(decimal_string(1234), "1234");
    assert!(str_contains("hello world", "lo w"));
    assert!(!str_contains("hello", "world"));
    let parts = vec!["a".to_string(), "b".to_string(), "c".to_string()];
    assert_eq!(join_strings(&parts, "|"), "a|b|c");
    assert_eq!(join_strings(&Vec::new(), "|"), "");
}
