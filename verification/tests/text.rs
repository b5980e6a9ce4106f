use client_shell::text::{char_is_space, decimal_text, join, split_words, str_equal, trim};

fn strings(items: &[&str]) -> Vec<String> {
    items.iter().map(|s| s.to_string()).collect()
}

#[test]
fn white_space_is_what_unicode_says() {
    for c in [' ', '\t', '\n', '\u{0B}', '\u{0C}', '\r', '\u{85}', '\u{A0}', '\u{1680}', '\u{2000}',
        '\u{200A}', '\u{2028}', '\u{2029}', '\u{202F}', '\u{205F}', '\u{3000}']
    {
        assert!(char_is_space(c), "{:?}", c);
    }
    for c in ['a', '0', '!', '\u{08}', '\u{0E}', '\u{1F}', '\u{200B}', '\u{2060}', '\u{FEFF}'] {
        assert!(!char_is_space(c), "{:?}", c);
    }
}

#[test]
fn white_space_agrees_with_std_on_every_character() {
    let mut code: u32 = 0;
    while code <= 0x10FFFF {
        if let Some(c) = char::from_u32(code) {
            assert_eq!(char_is_space(c), c.is_whitespace(), "{:?}", c);
        }
        code += 1;
    }
}

#[test]
fn trim_removes_both_ends_only() {
    assert_eq!(trim(" WP123 \n"), "WP123");
    assert_eq!(trim("\t a b \u{3000}"), "a b");
    assert_eq!(trim("abc"), "abc");
    assert_eq!(trim(""), "");
    assert_eq!(trim(" \n\t "), "");
    assert_eq!(trim("x"), "x");
    assert_eq!(trim(" \u{1F511} "), "\u{1F511}");
}

#[test]
fn trim_agrees_with_std() {
    for s in ["", " ", "a", " a", "a ", "  a  b  ", "\u{A0}x\u{A0}", "\n\nline\r\n", "é \u{2003}"] {
        assert_eq!(trim(s), s.trim());
    }
}

#[test]
fn split_words_gives_the_runs_between_white_space() {
    assert_eq!(split_words("transfer 0 1 10"), strings(&["transfer", "0", "1", "10"]));
    assert_eq!(split_words("  a\t\tb \n"), strings(&["a", "b"]));
    assert_eq!(split_words("one"), strings(&["one"]));
    assert_eq!(split_words("a\u{A0}b"), strings(&["a", "b"]));
    assert_eq!(split_words("q!"), strings(&["q!"]));
}

#[test]
fn split_words_of_a_blank_line_is_empty() {
    assert_eq!(split_words(""), Vec::<String>::new());
    assert_eq!(split_words("   "), Vec::<String>::new());
    assert_eq!(split_words(" \t\r\n\u{2028}"), Vec::<String>::new());
}

#[test]
fn split_words_agrees_with_std() {
    for s in ["", " ", "a", " a b ", "x\ty\nz", "\u{3000}wide\u{3000}space", "a  b   c"] {
        let expected: Vec<String> = s.split_whitespace().map(|w| w.to_string()).collect();
        assert_eq!(split_words(s), expected);
    }
}

#[test]
fn decimal_text_writes_numbers() {
    assert_eq!(decimal_text(0), "0");
    assert_eq!(decimal_text(7), "7");
    assert_eq!(decimal_text(10), "10");
    assert_eq!(decimal_text(1234567890), "1234567890");
    assert_eq!(decimal_text(u64::MAX), "18446744073709551615");
}

#[test]
fn join_puts_the_separator_between() {
    assert_eq!(join(&strings(&[]), " | "), "");
    assert_eq!(join(&strings(&["a"]), " | "), "a");
    assert_eq!(join(&strings(&["a", "b", "c"]), " | "), "a | b | c");
    assert_eq!(join(&strings(&["", ""]), ","), ",");
}

#[test]
fn str_equal_compares_texts() {
    assert!(str_equal("", ""));
    assert!(str_equal("quit", "quit"));
    assert!(!str_equal("quit", "quit "));
    assert!(!str_equal("quit", "quiT"));
    assert!(!str_equal("é", "e"));
}
