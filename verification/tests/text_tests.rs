use ai_cli::numbers::{parse_number, to_decimal};
use ai_cli::text::{
    char_is_whitespace, contains, contains_char, find_chars, join_lines, same_text, split_lines,
    split_paragraphs, split_words, starts_with, string_of, to_chars, trim,
};

fn chars(s: &str) -> Vec<char> {
    s.chars().collect()
}

fn texts(items: Vec<Vec<char>>) -> Vec<String> {
    items.into_iter().map(|item| item.into_iter().collect()).collect()
}

#[test]
fn characters_and_texts_convert_both_ways() {
    assert_eq!(to_chars("héllo"), chars("héllo"));
    assert_eq!(string_of(&chars("wörld ✓")), "wörld ✓");
    assert_eq!(string_of(&Vec::new()), "");
    assert!(same_text("abc", "abc"));
    assert!(!same_text("abc", "abd"));
    assert!(!same_text("abc", "ab"));
    assert!(!same_text("ab", "abc"));
    assert!(same_text("", ""));
}

#[test]
fn prefixes_and_substrings() {
    assert!(starts_with("stdio://x", "stdio://"));
    assert!(starts_with("abc", ""));
    assert!(!starts_with("ab", "abc"));
    assert!(!starts_with("xbc", "abc"));
    assert!(contains("hello world", "o w"));
    assert!(contains("hello", ""));
    assert!(contains("", ""));
    assert!(!contains("hello", "world"));
    assert!(!contains("ab", "abc"));
    assert!(contains_char("a\nb", '\n'));
    assert!(!contains_char("ab", '\n'));
    assert_eq!(find_chars(&chars("abcabc"), &chars("bc")), Some(1));
    assert_eq!(find_chars(&chars("abcabc"), &chars("cb")), None);
    assert_eq!(find_chars(&chars("abc"), &chars("")), Some(0));
    assert_eq!(find_chars(&chars("aaa"), &chars("aaa")), Some(0));
}

#[test]
fn trimming_agrees_with_the_standard_library() {
    let samples = [
        "",
        " ",
        "x",
        "  x  ",
        "\t\r\n x y \u{a0}\u{2003}\u{3000}",
        "\u{85}a\u{1680}b\u{2028}\u{2029}\u{202f}\u{205f}",
        "\u{200b}zero width stays\u{200b}",
        "\u{b}\u{c}x\u{1c}",
    ];
    for sample in samples {
        assert_eq!(trim(sample), sample.trim(), "sample {:?}", sample);
    }
    for code in 0u32..0x3100 {
        if let Some(c) = char::from_u32(code) {
            assert_eq!(char_is_whitespace(c), c.is_whitespace(), "code {:x}", code);
        }
    }
}

#[test]
fn words_paragraphs_and_lines() {
    assert_eq!(texts(split_words(&chars("  one two\tthree\n"))), vec!["one", "two", "three"]);
    assert!(split_words(&chars(" \n ")).is_empty());
    let text = "a\n\nb\n\n\nc\n\n";
    let expected: Vec<String> = text.split("\n\n").map(|s| s.to_string()).collect();
    assert_eq!(texts(split_paragraphs(&chars(text))), expected);
    assert_eq!(texts(split_paragraphs(&chars(""))), vec![""]);
    for sample in ["", "\n", "a", "a\n", "a\r\nb", "a\n\nb\r", "\r\n\r\n", "x\ry\n"] {
        let expected: Vec<String> = sample.lines().map(|s| s.to_string()).collect();
        assert_eq!(texts(split_lines(&chars(sample))), expected, "sample {:?}", sample);
    }
    let pieces = vec![chars("a"), chars("b"), chars(""), chars("d")];
    assert_eq!(string_of(&join_lines(&pieces, 0, 4)), "a\nb\n\nd");
    assert_eq!(string_of(&join_lines(&pieces, 1, 2)), "b");
    assert_eq!(string_of(&join_lines(&pieces, 2, 2)), "");
}

#[test]
fn numbers_in_decimal() {
    assert_eq!(to_decimal(0), "0");
    assert_eq!(to_decimal(7), "7");
    assert_eq!(to_decimal(10), "10");
    assert_eq!(to_decimal(9_876_543_210), "9876543210");
    assert_eq!(to_decimal(usize::MAX), usize::MAX.to_string());
    assert_eq!(parse_number(&chars("0")), Some(0));
    assert_eq!(parse_number(&chars("42")), Some(42));
    assert_eq!(parse_number(&chars("+42")), Some(42));
    assert_eq!(parse_number(&chars("007")), Some(7));
    assert_eq!(parse_number(&chars("")), None);
    assert_eq!(parse_number(&chars("+")), None);
    assert_eq!(parse_number(&chars("-1")), None);
    assert_eq!(parse_number(&chars("4 2")), None);
    assert_eq!(parse_number(&chars("12a")), None);
    assert_eq!(parse_number(&chars(&usize::MAX.to_string())), Some(usize::MAX));
    assert_eq!(parse_number(&chars("18446744073709551616")), "18446744073709551616".parse().ok());
    assert_eq!(parse_number(&chars("99999999999999999999999")), None);
}
