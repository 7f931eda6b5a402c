use aiman::text::{
    char_is_white_space, decimal_string, is_blank, join_texts, replace_char, same_text,
    starts_with_char, strip_text_prefix, text_le_exec, trim_leading_char,
};

#[test]
fn white_space_matches_std_for_every_char() {
    for u in 0u32..=0x10FFFF {
        if let Some(c) = char::from_u32(u) {
            assert_eq!(char_is_white_space(c), c.is_whitespace(), "at U+{:04X}", u);
        }
    }
}

#[test]
fn blank_matches_trim() {
    for s in ["", " ", "\t\n\r ", "\u{3000}\u{a0}", " a ", "main", "\u{200b}", "x"] {
        assert_eq!(is_blank(s), s.trim().is_empty(), "for {:?}", s);
    }
}

#[test]
fn replace_dashes_with_spaces() {
    assert_eq!(replace_char("my-new-skill", '-', ' '), "my new skill");
    assert_eq!(replace_char("plain", '-', ' '), "plain");
    assert_eq!(replace_char("", '-', ' '), "");
    assert_eq!(replace_char("--", '-', ' '), "  ");
}

#[test]
fn prefixes() {
    assert_eq!(strip_text_prefix("Error:disk", "Error:"), Some("disk".to_string()));
    assert_eq!(strip_text_prefix("Error:", "Error:"), Some(String::new()));
    assert_eq!(strip_text_prefix("Err", "Error:"), None);
    assert_eq!(strip_text_prefix("xError:", "Error:"), None);
    assert!(starts_with_char(".opencode", '.'));
    assert!(!starts_with_char("", '.'));
    assert!(!starts_with_char("opencode", '.'));
}

#[test]
fn trim_leading_dots() {
    assert_eq!(trim_leading_char("..opencode", '.'), "opencode");
    assert_eq!(trim_leading_char(".cline", '.'), "cline");
    assert_eq!(trim_leading_char("...", '.'), "");
    assert_eq!(trim_leading_char("a.b", '.'), "a.b");
}

#[test]
fn order_matches_str_cmp() {
    let words = ["", "a", "b", "ab", "abc", "B", "Z", "é", "日本", "a\u{10000}", "a\u{ffff}", "zz"];
    for a in words {
        for b in words {
            assert_eq!(text_le_exec(a, b), a <= b, "for {:?} {:?}", a, b);
        }
    }
}

#[test]
fn equality_and_joining() {
    assert!(same_text("abc", "abc"));
    assert!(!same_text("abc", "abd"));
    assert!(!same_text("abc", "ab"));
    assert_eq!(join_texts("opencode", "-x"), "opencode-x");
}

#[test]
fn decimal_rendering_matches_format() {
    for n in [0u64, 7, 10, 42, 1000, 1234567890, u64::MAX] {
        assert_eq!(decimal_string(n), format!("{}", n));
    }
}
