use ollama_rust::text::{
    split_words, str_contains, str_eq, str_starts_with, trim_str, u64_to_dec,
};

#[test]
fn character_equality() {
    assert!(str_eq("abc", "abc"));
    assert!(!str_eq("abc", "abd"));
    assert!(!str_eq("abc", "ab"));
    assert!(str_eq("", ""));
}

#[test]
fn trimming_blank_ends() {
    assert_eq!(trim_str("  llama3  "), "llama3");
    assert_eq!(trim_str("\t a b \n"), "a b");
    assert_eq!(trim_str("   "), "");
    assert_eq!(trim_str(""), "");
    assert_eq!(trim_str("x"), "x");
}

#[test]
fn prefix_and_substring_search() {
    assert!(str_starts_with("gemma:2b", "gemma"));
    assert!(!str_starts_with("gem", "gemma"));
    assert!(str_contains("mistral-nemo:12b", "nemo"));
    assert!(!str_contains("mistral", "nemo"));
    assert!(str_contains("anything", ""));
}

#[test]
fn word_splitting() {
    assert_eq!(split_words("a  b\tc"), vec!["a", "b", "c"]);
    assert!(split_words("   ").is_empty());
    assert_eq!(split_words("one"), vec!["one"]);
    assert_eq!(split_words("  lead trail  "), vec!["lead", "trail"]);
}

#[test]
fn decimal_rendering() {
    assert_eq!(u64_to_dec(0), "0");
    assert_eq!(u64_to_dec(7), "7");
    assert_eq!(u64_to_dec(10), "10");
    assert_eq!(u64_to_dec(907), "907");
    assert_eq!(u64_to_dec(18446744073709551615), "18446744073709551615");
}
