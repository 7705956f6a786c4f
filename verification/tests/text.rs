use gguf_serve::order::sorted;
use gguf_serve::text::{
    chars_of, contains, join, push_decimal, push_three_digits, same_text, starts_with,
    strip_prefix,
};

fn strings(items: &[&str]) -> Vec<String> {
    items.iter().map(|s| s.to_string()).collect()
}

#[test]
fn contains_finds_substrings() {
    assert!(contains("models/Llama-3.gguf", "Llama"));
    assert!(contains("abc", "abc"));
    assert!(contains("aab", "ab"));
    assert!(contains("abc", ""));
    assert!(contains("", ""));
    assert!(!contains("abc", "abd"));
    assert!(!contains("ab", "abc"));
    assert!(contains("größer", "öße"));
}

#[test]
fn prefixes_are_cut_off() {
    assert!(starts_with("blk.0.attn", "blk.0."));
    assert!(!starts_with("blk", "blk."));
    assert_eq!(strip_prefix("Bearer key", "Bearer "), Some("key".to_string()));
    assert_eq!(strip_prefix("Bearer ", "Bearer "), Some("".to_string()));
    assert_eq!(strip_prefix("bearer key", "Bearer "), None);
}

#[test]
fn texts_are_compared_and_taken_apart() {
    assert!(same_text("stop", "stop"));
    assert!(!same_text("stop", "Stop"));
    assert_eq!(chars_of("aé"), vec!['a', 'é']);
}

#[test]
fn parts_are_joined() {
    assert_eq!(join(&strings(&["a", "b", "c"]), ", "), "a, b, c");
    assert_eq!(join(&strings(&["a"]), ", "), "a");
    assert_eq!(join(&strings(&[]), ", "), "");
}

#[test]
fn numbers_are_written_in_base_ten() {
    let mut text = "n=".to_string();
    push_decimal(&mut text, 0);
    push_decimal(&mut text, 1907);
    assert_eq!(text, "n=01907");
    let mut text = String::new();
    push_decimal(&mut text, u128::MAX);
    assert_eq!(text, "340282366920938463463374607431768211455");
    let mut text = String::new();
    push_three_digits(&mut text, 7);
    push_three_digits(&mut text, 1042);
    assert_eq!(text, "007042");
}

#[test]
fn names_are_sorted() {
    let names = strings(&["blk.0.b", "blk.0.a", "blk", "blk.0.a"]);
    assert_eq!(sorted(&names), strings(&["blk", "blk.0.a", "blk.0.a", "blk.0.b"]));
    assert_eq!(sorted(&strings(&[])), strings(&[]));
}
