use codegraph_lsp::context::detect_layer;
use codegraph_lsp::text::{decimal_string, join_strings, str_contains};

#[test]
fn layers_are_found_in_lower_cased_paths() {
    assert_eq!(detect_layer("/SRC/Controllers/User.ts"), Some("controller".to_string()));
    assert_eq!(detect_layer("/src/ÀPI/Handlers/x.rs"), Some("handler".to_string()));
}

#[test]
fn decimal_digits_are_appended_in_order() {
    assert_eq!(decimal_string(42), "42");
    assert_eq!(decimal_string(7), "7");
}

#[test]
fn decimal_strings() {
    assert_eq!(decimal_string(0), "0");
    assert_eq!(decimal_string(1234567890), "1234567890");
    assert_eq!(decimal_string(u64::MAX), u64::MAX.to_string());
}

#[test]
fn joining_and_searching() {
    assert_eq!(join_strings(&vec!["a".to_string(), "b".to_string()], ", "), "a, b");
    assert_eq!(join_strings(&vec![], ", "), "");
    assert!(str_contains("hello world", "o w"));
    assert!(!str_contains("hello", "world"));
    assert!(str_contains("x", ""));
}
