use atvvoice::text::{chars_of, contains_text, joined, same_text, string_of};
use atvvoice::wire::{i16_from_be, i16_to_le, u16_from_be, u16_to_be};

#[test]
fn numbers_and_their_bytes() {
    assert_eq!(u16_from_be(0x12, 0x34), 0x1234);
    assert_eq!(u16_to_be(0x1234), (0x12, 0x34));
    assert_eq!(i16_from_be(0xFF, 0xFE), -2);
    assert_eq!(i16_from_be(0x7F, 0xFF), i16::MAX);
    assert_eq!(i16_to_le(-2), (0xFE, 0xFF));
    assert_eq!(i16_to_le(i16::MIN), (0x00, 0x80));
    for x in [0u16, 1, 255, 256, 0x7FFF, 0x8000, 0xFFFF] {
        let (hi, lo) = u16_to_be(x);
        assert_eq!(u16_from_be(hi, lo), x);
        let (lo, hi) = i16_to_le(x as i16);
        assert_eq!(i16_from_be(hi, lo), x as i16);
    }
}

#[test]
fn text_in_text() {
    assert!(contains_text("abcabd", "abd"));
    assert!(contains_text("abc", ""));
    assert!(contains_text("", ""));
    assert!(contains_text("abc", "abc"));
    assert!(!contains_text("abc", "abcd"));
    assert!(!contains_text("abc", "ac"));
    assert!(contains_text("d\u{e9}j\u{e0}", "\u{e9}j"));
}

#[test]
fn text_and_its_characters() {
    let chars = chars_of("h\u{e9}llo");
    assert_eq!(chars.len(), 5);
    assert_eq!(string_of(&chars, 1, 3), "\u{e9}l");
    assert_eq!(joined("ab", "c"), "abc");
    assert!(same_text("ab", "ab"));
    assert!(!same_text("ab", "abc"));
}
