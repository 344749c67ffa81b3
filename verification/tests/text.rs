use site_health::text::{
    chars_of, join, same, starts_in_any_case, to_decimal, trim, white_space,
};

#[test]
fn white_space_agrees_with_std() {
    for n in 0..0x11_0000u32 {
        if let Some(c) = char::from_u32(n) {
            assert_eq!(white_space(c), c.is_whitespace(), "{n:x}");
        }
    }
}

#[test]
fn trims_like_std() {
    for s in ["", " ", "\t a b \n", "\u{a0}x\u{3000}", "é ", " 🟢"] {
        assert_eq!(trim(s), s.trim());
    }
}

#[test]
fn finds_a_prefix_in_any_case() {
    assert!(starts_in_any_case("HtTp://x", "http://"));
    assert!(starts_in_any_case("http://", "http://"));
    assert!(starts_in_any_case("abc", ""));
    assert!(!starts_in_any_case("http:/", "http://"));
    assert!(!starts_in_any_case("https://", "http://"));
    for c in (0u8..128).map(char::from) {
        let s = c.to_string();
        let lowered = c.to_ascii_lowercase().to_string();
        assert!(starts_in_any_case(&s, &lowered), "{c:?}");
    }
    assert!(!starts_in_any_case("[", "{"));
    assert!(!starts_in_any_case("@", "`"));
    assert!(!starts_in_any_case("É", "é"));
}

#[test]
fn compares_texts() {
    assert!(same("https", "https"));
    assert!(!same("http", "https"));
    assert!(!same("https", "http"));
    assert!(same("", ""));
}

#[test]
fn joins_and_splits() {
    assert_eq!(join("é", "b"), "éb");
    assert_eq!(chars_of("é🟢"), vec!['é', '🟢']);
}

#[test]
fn writes_decimal_numbers() {
    for n in [0, 5, 9, 10, 42, 100, 1440, 1234567890, u64::MAX] {
        assert_eq!(to_decimal(n), n.to_string());
    }
}
