use translate_bot::text::{is_whitespace, same_text, trim};

#[test]
fn white_space_is_the_one_of_unicode() {
    for n in 0..=0x10_FFFFu32 {
        if let Some(c) = char::from_u32(n) {
            assert_eq!(is_whitespace(c), c.is_whitespace(), "{n:x}");
        }
    }
}

#[test]
fn trimming_works_on_unicode_white_space() {
    assert_eq!(trim("\u{3000}\u{a0} x y \n"), "x y");
    assert_eq!(trim(" \t "), "");
}

#[test]
fn same_text_compares_characters() {
    assert!(same_text("ä", "ä"));
    assert!(!same_text("a", "b"));
}
