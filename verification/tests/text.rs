use musicman::text::{
    chars_of, is_word, join_words, parse_number, push_decimal, push_str, sanitize, split_words,
};

fn chars(s: &str) -> Vec<char> {
    s.chars().collect()
}

fn decimal(n: u64) -> String {
    let mut out: Vec<char> = vec!['#'];
    push_decimal(&mut out, n);
    out.into_iter().collect()
}

#[test]
fn sanitize_keeps_letters_numbers_dash_and_underscore() {
    assert_eq!(sanitize("road trip!".to_string()), "roadtrip");
    assert_eq!(sanitize("../../etc/passwd".to_string()), "etcpasswd");
    assert_eq!(sanitize("my-mix_2024".to_string()), "my-mix_2024");
    assert_eq!(sanitize("Ünïcödé 東京 ٣".to_string()), "Ünïcödé東京٣");
    assert_eq!(sanitize("".to_string()), "");
    assert_eq!(sanitize(" \t." .to_string()), "");
}

#[test]
fn words_are_runs_between_spaces() {
    let empty: Vec<Vec<char>> = Vec::new();
    assert_eq!(split_words(&chars("")), empty);
    assert_eq!(split_words(&chars(" \t\r\n\x0c")), empty);
    assert_eq!(split_words(&chars("next")), vec![chars("next")]);
    assert_eq!(
        split_words(&chars("  pl\tload  my mix \n")),
        vec![chars("pl"), chars("load"), chars("my"), chars("mix")]
    );
    for text in ["a b", " a  b ", "one", "x\ty\nz", "\u{a0}a\u{a0}b c"] {
        let expected: Vec<Vec<char>> = text.split_ascii_whitespace().map(chars).collect();
        assert_eq!(split_words(&chars(text)), expected);
    }
}

#[test]
fn words_are_joined_by_single_blanks() {
    let ws = vec![chars("pl"), chars("load"), chars("my"), chars("mix")];
    assert_eq!(join_words(&ws, 0), chars("pl load my mix"));
    assert_eq!(join_words(&ws, 2), chars("my mix"));
    assert_eq!(join_words(&ws, 3), chars("mix"));
    assert_eq!(join_words(&ws, 4), chars(""));
}

#[test]
fn numbers_are_digits_with_an_optional_plus() {
    assert_eq!(parse_number(&chars("0"), 10), Some(0));
    assert_eq!(parse_number(&chars("7"), 10), Some(7));
    assert_eq!(parse_number(&chars("10"), 10), Some(10));
    assert_eq!(parse_number(&chars("11"), 10), None);
    assert_eq!(parse_number(&chars("+10"), 10), Some(10));
    assert_eq!(parse_number(&chars("0010"), 10), Some(10));
    assert_eq!(parse_number(&chars(""), 10), None);
    assert_eq!(parse_number(&chars("+"), 10), None);
    assert_eq!(parse_number(&chars("-1"), 10), None);
    assert_eq!(parse_number(&chars("1a"), 10), None);
    assert_eq!(parse_number(&chars("١"), 10), None);
    assert_eq!(parse_number(&chars("18446744073709551615"), usize::MAX), "18446744073709551615".parse().ok());
    assert_eq!(parse_number(&chars("18446744073709551616"), usize::MAX), "18446744073709551616".parse().ok());
    assert_eq!(parse_number(&chars("99999999999999999999999"), usize::MAX), None);
    assert_eq!(parse_number(&chars("5"), 0), None);
    assert_eq!(parse_number(&chars("0"), 0), Some(0));
}

#[test]
fn decimal_digits() {
    assert_eq!(decimal(0), "#0");
    assert_eq!(decimal(9), "#9");
    assert_eq!(decimal(10), "#10");
    assert_eq!(decimal(1234567890), "#1234567890");
    assert_eq!(decimal(u64::MAX), format!("#{}", u64::MAX));
}

#[test]
fn characters_and_words() {
    assert_eq!(chars_of("héllo ▶"), chars("héllo ▶"));
    assert!(is_word(&chars("next"), "next"));
    assert!(!is_word(&chars("next"), "nex"));
    assert!(!is_word(&chars("nex"), "next"));
    assert!(!is_word(&chars("next"), "nexT"));
    assert!(is_word(&chars(""), ""));
    let mut out = chars("ab");
    push_str(&mut out, "çd");
    assert_eq!(out, chars("abçd"));
}
