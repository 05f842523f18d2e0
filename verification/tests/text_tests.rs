use m8_updater::order::precedes;
use m8_updater::text::{
    chars_of, concat_texts, contains, decimal_text, ends_with, is_whitespace, join, same_text,
    starts_with, unsigned_decimal_text,
};

#[test]
fn whitespace_is_what_the_standard_library_calls_whitespace() {
    for code in 0u32..=0x10FFFF {
        if let Some(c) = char::from_u32(code) {
            assert_eq!(is_whitespace(c), c.is_whitespace(), "U+{:04X}", code);
        }
    }
}

#[test]
fn substring_search_agrees_with_the_standard_library() {
    let texts = ["", "a", "M8", "an M8 here", "HalfKay bootloader", "aab", "abab", "MODEL02.hex"];
    let patterns = ["", "a", "b", "ab", "M8", "HalfKay", "MODEL02", "aab", "bab", "xyz"];
    for text in texts {
        for pattern in patterns {
            assert_eq!(contains(text, pattern), text.contains(pattern), "{text:?} {pattern:?}");
            assert_eq!(starts_with(text, pattern), text.starts_with(pattern));
            assert_eq!(ends_with(text, pattern), text.ends_with(pattern));
            assert_eq!(same_text(text, pattern), text == pattern);
            assert_eq!(precedes(text, pattern), text < pattern);
        }
    }
}

#[test]
fn text_order_agrees_with_the_standard_library_beyond_ascii() {
    let texts = ["", "a", "é", "e", "z", "日本", "日", "\u{10FFFF}", "ab", "a\u{0}"];
    for a in texts {
        for b in texts {
            assert_eq!(precedes(a, b), a < b, "{a:?} {b:?}");
        }
    }
}

#[test]
fn characters_are_taken_in_order() {
    let chars = chars_of("héllo, 世界");
    assert_eq!(chars, vec!['h', 'é', 'l', 'l', 'o', ',', ' ', '世', '界']);
    assert!(chars_of("").is_empty());
}

#[test]
fn texts_are_put_one_after_the_other() {
    assert_eq!(concat_texts(&vec!["ab".to_string(), String::new(), "c".to_string()]), "abc");
    assert_eq!(concat_texts(&vec![]), "");
}

#[test]
fn numbers_are_written_in_decimal() {
    assert_eq!(unsigned_decimal_text(0), "0");
    assert_eq!(unsigned_decimal_text(7), "7");
    assert_eq!(unsigned_decimal_text(10), "10");
    assert_eq!(unsigned_decimal_text(1234567890), "1234567890");
    assert_eq!(unsigned_decimal_text(u64::MAX), "18446744073709551615");
    assert_eq!(decimal_text(0), "0");
    assert_eq!(decimal_text(-1), "-1");
    assert_eq!(decimal_text(1700000000123), "1700000000123");
    assert_eq!(decimal_text(i64::MAX), "9223372036854775807");
    assert_eq!(decimal_text(i64::MIN), "-9223372036854775808");
}

#[test]
fn join_puts_the_second_text_after_the_first() {
    assert_eq!(join("ab", "cd"), "abcd");
    assert_eq!(join("", "x"), "x");
    assert_eq!(join("x", ""), "x");
}
