use haiku::text::{
    is_whitespace, range_is, skip_spaces, skip_word, starts_with, text_is, to_chars, token_bounds,
};

fn chars(text: &str) -> Vec<char> {
    text.chars().collect()
}

fn tokens(text: &str) -> Vec<String> {
    let s = chars(text);
    token_bounds(&s).into_iter().map(|(a, b)| s[a..b].iter().collect()).collect()
}

#[test]
fn whitespace_is_what_std_calls_whitespace() {
    for code in 0u32..0x11_0000 {
        if let Some(c) = char::from_u32(code) {
            assert_eq!(is_whitespace(c), c.is_whitespace(), "{:#x}", code);
        }
    }
}

#[test]
fn characters_come_in_order() {
    assert_eq!(to_chars(""), Vec::<char>::new());
    assert_eq!(to_chars("a\u{e9}\u{4e16}\u{1f600}z"), vec!['a', '\u{e9}', '\u{4e16}', '\u{1f600}', 'z']);
}

#[test]
fn tokens_are_what_std_splits() {
    for text in [
        "",
        " ",
        "a",
        " a",
        "a ",
        "bytes 304F1 10 {",
        "  80 1F  00   03 13\t\n",
        "\u{a0}x\u{2003}\u{2003}yz\u{3000}",
        "mov x0, #0x10 // note",
        "\u{e9}\u{4e16} \u{1f600}",
    ] {
        let expected: Vec<String> = text.split_whitespace().map(|t| t.to_string()).collect();
        assert_eq!(tokens(text), expected, "{:?}", text);
    }
}

#[test]
fn token_bounds_are_indices_of_characters() {
    assert_eq!(token_bounds(&chars("  ab  cde f")), vec![(2, 4), (6, 9), (10, 11)]);
    assert_eq!(token_bounds(&chars("\u{4e16}\u{1f600} x")), vec![(0, 2), (3, 4)]);
    assert_eq!(token_bounds(&chars(" \t ")), vec![]);
}

#[test]
fn skipping_stops_at_the_first_other_character() {
    let s = chars("  ab  cd");
    assert_eq!(skip_spaces(&s, 0), 2);
    assert_eq!(skip_spaces(&s, 2), 2);
    assert_eq!(skip_spaces(&s, 4), 6);
    assert_eq!(skip_spaces(&s, 8), 8);
    assert_eq!(skip_word(&s, 0), 0);
    assert_eq!(skip_word(&s, 2), 4);
    assert_eq!(skip_word(&s, 3), 4);
    assert_eq!(skip_word(&s, 6), 8);
    let blank = chars("   ");
    assert_eq!(skip_spaces(&blank, 0), 3);
}

#[test]
fn prefixes_and_ranges_are_compared_by_character() {
    let s = chars("bytes 10 20 {");
    assert!(starts_with(&s, &chars("bytes")));
    assert!(starts_with(&s, &chars("")));
    assert!(starts_with(&s, &chars("bytes 10 20 {")));
    assert!(!starts_with(&s, &chars("bytes 10 20 { ")));
    assert!(!starts_with(&s, &chars("Bytes")));
    assert!(!starts_with(&s, &chars("ytes")));
    assert!(range_is(&s, 6, 8, &chars("10")));
    assert!(!range_is(&s, 6, 8, &chars("20")));
    assert!(!range_is(&s, 6, 8, &chars("1")));
    assert!(range_is(&s, 3, 3, &chars("")));
    assert!(text_is(&s, "bytes 10 20 {"));
    assert!(!text_is(&s, "bytes 10 20"));
    assert!(text_is(&chars(""), ""));
}
