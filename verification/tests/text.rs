use codex_gateway_core::text::{is_blank, signed_decimal, unsigned_decimal, white_space};

#[test]
fn decimals_are_those_of_std() {
    for n in [0i64, 1, 9, 10, 99, 100, 1_234_567, i64::MAX, -1, -10, -907, i64::MIN] {
        assert_eq!(signed_decimal(n), n.to_string());
    }
    for n in [0u64, 7, 10, 101, u64::MAX] {
        assert_eq!(unsigned_decimal(n), n.to_string());
    }
    assert_eq!(signed_decimal(-42), "-42");
    assert_eq!(unsigned_decimal(10_203), "10203");
}

#[test]
fn white_space_is_that_of_std() {
    for code in 0..=0x10ffffu32 {
        if let Some(c) = char::from_u32(code) {
            assert_eq!(white_space(c), c.is_whitespace(), "{:x}", code);
        }
    }
}

#[test]
fn blank_text_trims_to_nothing() {
    for text in ["", " ", "\n\t ", "\u{2003}\u{3000}", "a", "  a", "a  ", " \u{200b} ", "\u{e9}"] {
        assert_eq!(is_blank(text), text.trim().is_empty(), "{:?}", text);
    }
    assert!(is_blank(" \r\n"));
    assert!(!is_blank(" . "));
}
