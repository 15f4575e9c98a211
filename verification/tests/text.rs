use hakuro::text::{
    cut_once, decimal_text, has_text, is_white_space, join_text, length_text, parse_i64, parse_u64,
    split_any, split_words, starts_with, to_ascii_lower, trim_text,
};

fn chars(text: &str) -> Vec<char> {
    text.chars().collect()
}

#[test]
fn white_space_is_what_the_standard_library_says() {
    for c in '\0'..=char::MAX {
        assert_eq!(is_white_space(c), c.is_whitespace(), "{c:?}");
    }
}

#[test]
fn texts_are_trimmed_and_cut_into_words() {
    for text in ["", " ", "a", "  a b\t\n", "\u{3000}a\u{3000}", "a  b", "\u{85}x\u{a0}"] {
        assert_eq!(trim_text(text), text.trim());
        assert_eq!(trim_text(&trim_text(text)), trim_text(text));
        let words: Vec<&str> = text.split_whitespace().collect();
        assert_eq!(split_words(text), words);
    }
}

#[test]
fn texts_are_cut_and_put_together_again() {
    for text in ["", ",", "a", "a,b", ",a,,b,"] {
        let pieces = split_any(&chars(text), &[',']);
        let expected: Vec<&str> = text.split(',').collect();
        assert_eq!(pieces, expected);
        assert_eq!(join_text(&pieces, ","), text);
    }
    assert_eq!(
        cut_once("a=b=c", '='),
        Some(("a".to_string(), "b=c".to_string()))
    );
    assert_eq!(cut_once("abc", '='), None);
}

#[test]
fn numbers_are_written_and_read_as_the_standard_library_does() {
    for number in [0, 1, -1, 10, 99, i64::MAX, i64::MIN, -450] {
        assert_eq!(decimal_text(number), number.to_string());
        assert_eq!(parse_i64(&chars(&number.to_string())), Some(number));
    }
    assert_eq!(length_text(1024), "1024");
    for text in [
        "", "+", "-", "+5", "-5", "007", "9223372036854775807", "9223372036854775808",
        "-9223372036854775808", "-9223372036854775809", "1a", " 1", "\u{0661}",
        "18446744073709551615", "18446744073709551616", "99999999999999999999999",
    ] {
        assert_eq!(parse_i64(&chars(text)), text.parse::<i64>().ok(), "{text:?}");
        assert_eq!(parse_u64(&chars(text)), text.parse::<u64>().ok(), "{text:?}");
    }
}

#[test]
fn parts_are_found() {
    assert!(has_text(&chars("abcd"), &chars("bc")));
    assert!(has_text(&chars("abcd"), &chars("")));
    assert!(!has_text(&chars("abcd"), &chars("bd")));
    assert!(starts_with("image/png", "image/"));
    assert!(!starts_with("ima", "image/"));
    for c in ['A', 'z', 'Z', '0', 'É', '\u{212a}'] {
        assert_eq!(to_ascii_lower(c), c.to_ascii_lowercase());
    }
}
