use prometheus::utils::{
    add_if_not_present, concatenate_with_and, ends_with_str, lowercase_and_replace, replace_char,
    starts_with_str, strip_suffix_str, trim_str, u64_to_string,
};

#[test]
fn test_add_if_not_present() {
    let mut fruits = vec!["apple".to_string(), "banana".to_string()];
    add_if_not_present(&mut fruits, "apple");
    add_if_not_present(&mut fruits, "cherry");

    assert_eq!(
        fruits,
        vec![
            "apple".to_string(),
            "banana".to_string(),
            "cherry".to_string()
        ]
    );
}

#[test]
fn test_add_if_not_present_duplicate() {
    let mut fruits = vec!["apple".to_string(), "banana".to_string()];
    add_if_not_present(&mut fruits, "apple");

    assert_eq!(fruits, vec!["apple".to_string(), "banana".to_string()]);
}

#[test]
fn test_lowercase_and_replace() {
    assert_eq!(
        lowercase_and_replace("Hello_World_and_Some_Other_THINGS"),
        "hello world and some other things"
    );
    assert_eq!(
        lowercase_and_replace("Multiple_Underscores___Here"),
        "multiple underscores   here"
    );
    assert_eq!(lowercase_and_replace("ALL_UPPERCASE"), "all uppercase");
    assert_eq!(lowercase_and_replace("lowercase"), "lowercase");
    assert_eq!(
        lowercase_and_replace("   leading_spaces"),
        "   leading spaces"
    );
    assert_eq!(
        lowercase_and_replace("trailing_spaces   "),
        "trailing spaces   "
    );
    assert_eq!(
        lowercase_and_replace("   leading_and_trailing_spaces   "),
        "   leading and trailing spaces   "
    );
    assert_eq!(lowercase_and_replace(""), "");
}

#[test]
fn test_concatenate_with_and() {
    assert_eq!(concatenate_with_and(vec![]), "");
    assert_eq!(concatenate_with_and(vec!["a".to_string()]), "a");
    assert_eq!(
        concatenate_with_and(vec!["a".to_string(), "b".to_string()]),
        "a and b"
    );
    assert_eq!(
        concatenate_with_and(vec!["a".to_string(), "b".to_string(), "c".to_string()]),
        "a, b and c"
    );
}

#[test]
fn test_u64_to_string() {
    assert_eq!(u64_to_string(0), "0");
    assert_eq!(u64_to_string(7), "7");
    assert_eq!(u64_to_string(1234567890), "1234567890");
    assert_eq!(u64_to_string(u64::MAX), "18446744073709551615");
}

#[test]
fn test_trim_str() {
    assert_eq!(trim_str("  hi there  "), "hi there");
    assert_eq!(trim_str("hi"), "hi");
    assert_eq!(trim_str("   "), "");
    assert_eq!(trim_str(""), "");
    assert_eq!(trim_str("\t\nmixed \r\n"), "mixed");
    assert_eq!(trim_str("\u{00A0}\u{3000}pad\u{2028}"), "pad");
    assert_eq!(trim_str("\u{200B}kept"), "\u{200B}kept");
}

#[test]
fn test_replace_char() {
    assert_eq!(replace_char("a/b/c", '/', '>'), "a>b>c");
    assert_eq!(replace_char("none", '/', '>'), "none");
}

#[test]
fn test_suffix_and_prefix_helpers() {
    assert!(ends_with_str("welcome_enable", "_enable"));
    assert!(!ends_with_str("welcome_disable", "_enable"));
    assert_eq!(
        strip_suffix_str("welcome_enable", "_enable"),
        Some("welcome".to_string())
    );
    assert_eq!(strip_suffix_str("welcome", "_enable"), None);
    assert!(starts_with_str("?//d welcome", "?//d "));
    assert!(!starts_with_str("?/d welcome", "?//d "));
}
