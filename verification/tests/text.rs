use media_retention::text::{
    blank, chars_of, decimal_string, lower, normalize, parse_i32, same_chars, same_title, text_eq,
};

#[test]
fn normalize_strips_blanks_and_folds_case() {
    let out: String = normalize("  The FILM \t\n").into_iter().collect();
    assert_eq!(out, "the film");
}

#[test]
fn normalize_keeps_inner_blanks() {
    let out: String = normalize("A  b").into_iter().collect();
    assert_eq!(out, "a  b");
}

#[test]
fn normalize_of_blanks_only_is_empty() {
    assert!(normalize(" \t \r\n").is_empty());
    assert!(normalize("").is_empty());
}

#[test]
fn normalize_leaves_other_letters_alone() {
    let out: String = normalize("ÉCOLE [Z]@`{").into_iter().collect();
    assert_eq!(out, "École [z]@`{");
    assert_eq!(lower('É'), 'É');
    assert_eq!(lower('A'), 'a');
    assert_eq!(lower('Z'), 'z');
    assert_eq!(lower('@'), '@');
    assert_eq!(lower('['), '[');
    assert_eq!(lower('a'), 'a');
}

#[test]
fn blank_characters() {
    for c in [' ', '\t', '\n', '\r', '\u{b}', '\u{c}'] {
        assert!(blank(c));
    }
    for c in ['a', '0', '\u{a0}', '_', '\u{0}'] {
        assert!(!blank(c));
    }
}

#[test]
fn same_title_ignores_case_and_surrounding_blanks() {
    assert!(same_title("Film", "  fILM "));
    assert!(same_title("", "   "));
    assert!(!same_title("Film", "Film 2"));
    assert!(!same_title("Fi lm", "Film"));
}

#[test]
fn text_eq_is_exact() {
    assert!(text_eq("movie", "movie"));
    assert!(!text_eq("movie", "Movie"));
    assert!(!text_eq("movie", "movie "));
    assert!(text_eq("", ""));
    assert!(same_chars(&chars_of("héllo"), &vec!['h', 'é', 'l', 'l', 'o']));
}

#[test]
fn parse_i32_reads_signed_decimals() {
    assert_eq!(parse_i32("0"), Some(0));
    assert_eq!(parse_i32("1700000000"), Some(1700000000));
    assert_eq!(parse_i32("+17"), Some(17));
    assert_eq!(parse_i32("-17"), Some(-17));
    assert_eq!(parse_i32("-0"), Some(0));
    assert_eq!(parse_i32("007"), Some(7));
    assert_eq!(parse_i32("2147483647"), Some(i32::MAX));
    assert_eq!(parse_i32("-2147483648"), Some(i32::MIN));
    assert_eq!(parse_i32("00000000000000000000000000012"), Some(12));
}

#[test]
fn parse_i32_rejects_what_is_no_32_bit_decimal() {
    for s in ["", "+", "-", " 1", "1 ", "1.0", "0x10", "12a", "--1", "+-1", "١٢"] {
        assert_eq!(parse_i32(s), None, "{:?}", s);
    }
    assert_eq!(parse_i32("2147483648"), None);
    assert_eq!(parse_i32("-2147483649"), None);
    assert_eq!(parse_i32("99999999999999999999999999"), None);
}

#[test]
fn parse_i32_agrees_with_the_standard_parser() {
    for s in ["5", "-5", "+5", "", "2147483648", "-2147483648", "1e3", "٣", "0000", "+0", "9_9"] {
        assert_eq!(parse_i32(s), s.parse::<i32>().ok(), "{:?}", s);
    }
}

#[test]
fn decimal_string_writes_integers() {
    assert_eq!(decimal_string(0), "0");
    assert_eq!(decimal_string(7), "7");
    assert_eq!(decimal_string(10), "10");
    assert_eq!(decimal_string(-1), "-1");
    assert_eq!(decimal_string(12345), "12345");
    assert_eq!(decimal_string(i64::MAX), "9223372036854775807");
    assert_eq!(decimal_string(i64::MIN), "-9223372036854775808");
}

#[test]
fn decimal_string_agrees_with_the_standard_rendering() {
    for n in [0i64, 1, -1, 9, 10, 99, 100, 101, -1000, 4611686018427387904, i64::MIN + 1] {
        assert_eq!(decimal_string(n), n.to_string());
    }
}
