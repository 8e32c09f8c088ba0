use ironsign::text::{ends_with, entered, numbered, push_decimal, starts_with, trim};

#[test]
fn numbers_are_written_in_decimal() {
    for value in [0, 9, 10, 99, 100, 65535, u64::MAX] {
        let mut text = String::from("n=");
        push_decimal(&mut text, value);
        assert_eq!(text, format!("n={value}"));
    }
    assert_eq!(numbered("a_", 120, ".b"), "a_120.b");
}

#[test]
fn beginnings_and_ends_are_found() {
    for (text, part) in [("abc", ""), ("abc", "a"), ("abc", "c"), ("abc", "abc"), ("abc", "abcd"), ("", "a"), ("", "")] {
        assert_eq!(starts_with(text, part), text.starts_with(part));
        assert_eq!(ends_with(text, part), text.ends_with(part));
    }
}

#[test]
fn white_space_is_dropped_at_both_ends() {
    for text in ["", " ", "\n", " a", "a \r\n", "\u{85}\u{a0} a b \u{3000}\u{2009}", "\u{200b}a"] {
        assert_eq!(trim(text), text.trim());
    }
}

#[test]
fn every_white_space_character_is_known() {
    for code in 0..=0x10ffffu32 {
        if let Some(c) = char::from_u32(code) {
            let dropped = trim(&c.to_string()).is_empty();
            assert_eq!(dropped, c.is_whitespace(), "{code:x}");
        }
    }
}

#[test]
fn a_blank_line_names_nothing() {
    assert_eq!(entered("  \t\n"), None);
    assert_eq!(entered(""), None);
    assert_eq!(entered(" payload.bin\n"), Some("payload.bin".to_string()));
}
