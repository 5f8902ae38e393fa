use mercurius_p::text::{decimal_text, is_blank_text, is_whitespace, same_text, signed_decimal_text};

#[test]
fn white_space_is_what_char_is_whitespace_says() {
    for code in 0u32..=0x3100 {
        if let Some(c) = char::from_u32(code) {
            assert_eq!(is_whitespace(c), c.is_whitespace(), "code point {code:#x}");
        }
    }
    assert!(!is_whitespace('\u{200b}'));
    assert!(!is_whitespace('\u{feff}'));
}

#[test]
fn blank_is_what_trim_is_empty_says() {
    for s in ["", " ", "\t\n\r", "\u{a0}\u{3000}", " a ", "x", "\u{200b}"] {
        assert_eq!(is_blank_text(s), s.trim().is_empty(), "{s:?}");
    }
}

#[test]
fn decimal_notation_matches_to_string() {
    for n in [0u128, 9, 10, 99, 100, 12345, u64::MAX as u128, u128::MAX] {
        assert_eq!(decimal_text(n), n.to_string());
    }
    for n in [0i128, -1, -10, 7, i32::MIN as i128, i64::MIN as i128, i128::MAX] {
        assert_eq!(signed_decimal_text(n), n.to_string());
    }
}

#[test]
fn same_text_compares_characters() {
    assert!(same_text("tools/call", "tools/call"));
    assert!(!same_text("tools/call", "tools/list"));
    assert!(!same_text("a", "ab"));
    assert!(same_text("", ""));
}
