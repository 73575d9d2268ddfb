use tmonitor::text::{
    blank, first_word, has_char, has_prefix, push_decimal, push_zero_padded, same_text, shorten,
    white_space, without_prefix,
};

#[test]
fn numerals() {
    for n in [0u64, 7, 9, 10, 99, 100, 65535, 1_000_000_007, u64::MAX] {
        let mut text = "n=".to_string();
        push_decimal(&mut text, n);
        assert_eq!(text, format!("n={}", n));
        let mut padded = String::new();
        push_zero_padded(&mut padded, n, 4);
        assert_eq!(padded, format!("{:04}", n));
    }
}

#[test]
fn white_space_is_that_of_unicode() {
    for code in 0..=0x10FFFFu32 {
        if let Some(c) = char::from_u32(code) {
            assert_eq!(white_space(c), c.is_whitespace(), "at {:x}", code);
        }
    }
}

#[test]
fn blank_texts_trim_to_nothing() {
    for text in ["", " ", " \t\n\u{2003}", " x ", "x", "\u{200B}"] {
        assert_eq!(blank(text), text.trim().is_empty());
    }
}

#[test]
fn first_words() {
    for text in ["", "  ", "a", " a b", "\u{3000}ä\u{a0}b", "123456.78 98765.43\n"] {
        assert_eq!(first_word(text), text.split_whitespace().next().map(|w| w.to_string()));
    }
}

#[test]
fn prefixes() {
    assert!(has_prefix("--config=x", "--config="));
    assert!(!has_prefix("--conf", "--config="));
    assert!(has_prefix("ä", ""));
    assert_eq!(without_prefix("--config=ä", "--config="), Some("ä".to_string()));
    assert_eq!(without_prefix("--config=", "--config="), Some(String::new()));
    assert_eq!(without_prefix("--log", "--config="), None);
}

#[test]
fn characters_and_equality() {
    assert!(has_char("a:ä", 'ä') && has_char("::1", ':') && !has_char("ab", 'c'));
    assert!(same_text("ä", "ä") && !same_text("a", "ä") && !same_text("a", "ab"));
    assert!(same_text("", "") && !same_text("a\u{308}", "ä"));
}

#[test]
fn shortening_counts_characters() {
    assert_eq!(shorten("äöü", 3, 2), "äöü");
    assert_eq!(shorten("äöüß", 3, 2), "äö…");
}
