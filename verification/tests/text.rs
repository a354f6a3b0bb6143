use rcards::numeral::{char_is_digit, decimal_string, parse_ordinal};
use rcards::text::{char_is_whitespace, chars_of, fold_case, join_from, same_text, split, trim};

fn strings(words: &[&str]) -> Vec<String> {
    words.iter().map(|w| w.to_string()).collect()
}

#[test]
fn chars_of_gives_characters_not_bytes() {
    assert_eq!(chars_of("été"), vec!['é', 't', 'é']);
    assert_eq!(chars_of(""), Vec::<char>::new());
}

#[test]
fn same_text_compares_whole_strings() {
    assert!(same_text("rouge", "rouge"));
    assert!(same_text("", ""));
    assert!(!same_text("rouge", "roug"));
    assert!(!same_text("rouge", "rougE"));
}

#[test]
fn fold_case_lowers_and_keeps_empty() {
    assert_eq!(fold_case("Rouge"), "rouge");
    assert_eq!(fold_case("ÉTÉ"), "été");
    assert_eq!(fold_case(""), "");
    assert_eq!(fold_case("Q"), "q");
}

#[test]
fn trim_agrees_with_std_on_every_kind_of_whitespace() {
    let samples = [
        "",
        " ",
        "  a  ",
        "\t\n a b \r\n",
        "\u{85}x\u{a0}",
        "\u{1680}\u{2000}\u{200a}mid dle\u{2028}\u{2029}\u{202f}\u{205f}\u{3000}",
        "\u{200b}zero width is kept\u{200b}",
        "\u{b}\u{c}x",
        "no-space",
    ];
    for sample in samples {
        assert_eq!(trim(sample), sample.trim(), "{sample:?}");
    }
}

#[test]
fn whitespace_test_agrees_with_std_on_every_character() {
    for code in 0..=0x10FFFFu32 {
        if let Some(c) = char::from_u32(code) {
            assert_eq!(char_is_whitespace(c), c.is_whitespace(), "U+{code:04X}");
        }
    }
}

#[test]
fn split_keeps_empty_pieces() {
    assert_eq!(split("sel colors", ' '), strings(&["sel", "colors"]));
    assert_eq!(split("", ' '), strings(&[""]));
    assert_eq!(split("a  b", ' '), strings(&["a", "", "b"]));
    assert_eq!(split(" a ", ' '), strings(&["", "a", ""]));
    assert_eq!(split("one", ' '), strings(&["one"]));
}

#[test]
fn split_agrees_with_std() {
    for sample in ["", " ", "a b c", "  x", "x  ", "é è", "new my deck name"] {
        let expected: Vec<String> = sample.split(' ').map(|s| s.to_string()).collect();
        assert_eq!(split(sample, ' '), expected, "{sample:?}");
    }
}

#[test]
fn join_from_gives_the_text_behind_the_first_words() {
    let args = strings(&["new", "my", "deck"]);
    assert_eq!(join_from(&args, 1, " "), "my deck");
    assert_eq!(join_from(&args, 0, " "), "new my deck");
    assert_eq!(join_from(&args, 2, " "), "deck");
    assert_eq!(join_from(&args, 3, " "), "");
}

#[test]
fn split_then_join_gives_the_text_back() {
    for sample in ["", "a", "a b", " a  b "] {
        assert_eq!(join_from(&split(sample, ' '), 0, " "), sample);
    }
}

#[test]
fn parse_ordinal_reads_numerals() {
    assert_eq!(parse_ordinal("0"), Some(0));
    assert_eq!(parse_ordinal("2"), Some(2));
    assert_eq!(parse_ordinal("007"), Some(7));
    assert_eq!(parse_ordinal("+5"), Some(5));
    assert_eq!(parse_ordinal("1234567890"), Some(1234567890));
}

#[test]
fn parse_ordinal_refuses_what_is_no_numeral() {
    for token in ["", "+", "-0", "-1", "1 ", " 1", "1_000", "12a", "colors", "++1", "1+", "٣", "0x10"]
    {
        assert_eq!(parse_ordinal(token), None, "{token:?}");
    }
}

#[test]
fn parse_ordinal_agrees_with_std_where_the_value_fits() {
    for token in ["0", "1", "42", "+42", "000", "18446744073709551615", "x", "", "+", "-3", "4 2"] {
        let expected = token.parse::<usize>().ok();
        if expected.is_some() || token.parse::<u128>().is_err() {
            assert_eq!(parse_ordinal(token), expected, "{token:?}");
        }
    }
}

#[test]
fn parse_ordinal_saturates_beyond_the_machine_width() {
    assert_eq!(parse_ordinal("99999999999999999999999999999999"), Some(usize::MAX));
    assert_eq!(parse_ordinal("18446744073709551616"), Some(usize::MAX));
    assert_eq!(
        parse_ordinal(&usize::MAX.to_string()),
        Some(usize::MAX)
    );
}

#[test]
fn digits_are_the_ten_ascii_digits() {
    for c in '0'..='9' {
        assert!(char_is_digit(c));
    }
    for c in ['/', ':', 'a', '٣', '¹', ' '] {
        assert!(!char_is_digit(c));
    }
}

#[test]
fn decimal_string_agrees_with_std() {
    for n in [0usize, 1, 9, 10, 11, 99, 100, 101, 12345, usize::MAX] {
        assert_eq!(decimal_string(n), n.to_string());
    }
}

#[test]
fn decimal_string_reads_back() {
    for n in [0usize, 7, 10, 4096, 1_000_000] {
        assert_eq!(parse_ordinal(&decimal_string(n)), Some(n));
    }
}
