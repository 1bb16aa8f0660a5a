//! Text and its characters.

use ducktape::text::chars_of;
use ducktape::text::decimal_of;
use ducktape::text::is_white_space;
use ducktape::text::joined3;
use ducktape::text::push_decimal;
use ducktape::text::same_bytes;
use ducktape::text::same_text;
use ducktape::text::text_of;
use ducktape::text::to_upper;

#[test]
fn white_space_is_unicodes() {
    for c in '\0'..=char::MAX {
        assert_eq!(is_white_space(c), c.is_whitespace(), "{c:?}");
    }
}

#[test]
fn capitals_are_asciis() {
    for c in '\0'..='\u{2fff}' {
        assert_eq!(to_upper(c), c.to_ascii_uppercase());
    }
}

#[test]
fn numbers_are_written_in_decimal() {
    for n in [0, 7, 10, 99, 100, 12_345, u64::MAX] {
        assert_eq!(decimal_of(n), n.to_string());
    }
    let mut text = "n = ".to_owned();
    push_decimal(&mut text, 108);
    assert_eq!(text, "n = 108");
}

#[test]
fn text_comes_apart_and_together() {
    let chars = chars_of("d\u{e9}\u{1f986}");
    assert_eq!(chars, vec!['d', '\u{e9}', '\u{1f986}']);
    assert_eq!(text_of(&chars), "d\u{e9}\u{1f986}");
    assert_eq!(joined3("a", "", "b"), "ab");
    assert!(same_text("\u{e9}", "\u{e9}"));
    assert!(!same_text("e\u{301}", "\u{e9}"));
    assert!(same_bytes(b"", b""));
    assert!(!same_bytes(b"a", b"ab"));
}
