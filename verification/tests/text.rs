use landscape::text::{is_whitespace, trim};

#[test]
fn whitespace_is_the_unicode_white_space_set() {
    for code in 0u32..=0x10FFFF {
        if let Some(c) = char::from_u32(code) {
            assert_eq!(is_whitespace(c), c.is_whitespace(), "U+{code:04X}");
        }
    }
}

#[test]
fn trim_removes_unicode_whitespace() {
    assert_eq!(trim("\u{3000} a b\u{85}\t"), "a b");
    assert_eq!(trim("  "), "");
    assert_eq!(trim("x"), "x");
}
