use greeting::greet::{hello, wave};
use greeting::text::capitalize;

fn spaces(s: &str) -> String {
    s.chars().filter(|c| c.is_whitespace()).collect()
}

#[test]
fn whitespace_only_is_unchanged() {
    for s in [" ", "\t", "\n", "\r\n", " \t\n\r  ", "\u{A0}\u{3000}\u{2028}"] {
        assert_eq!(s.to_string(), capitalize(s));
    }
}

#[test]
fn capitalizing_twice_changes_nothing_more() {
    for s in [
        "hello world!",
        "ß straße",
        "what\n\ta\t\nwonderful \r\n world \n   \t  ",
        "ŉ x",
        "ǆemal ǳ",
    ] {
        let once = capitalize(s);
        assert_eq!(once, capitalize(once.as_str()));
    }
}

#[test]
fn whitespace_layout_is_kept() {
    for s in ["  what\ta\twonderful\nworld\n", "ß ß\r\nß", " x  y "] {
        assert_eq!(spaces(s), spaces(capitalize(s).as_str()));
    }
}

#[test]
fn leading_and_trailing_whitespace_kept() {
    assert_eq!("  Abc  ".to_string(), capitalize("  abc  "));
}

#[test]
fn only_first_letter_of_word_changes() {
    assert_eq!("ABC Def".to_string(), capitalize("aBC def"));
}

#[test]
fn punctuation_opens_a_word_unchanged() {
    assert_eq!("'tis It's".to_string(), capitalize("'tis it's"));
    assert_eq!("-abc".to_string(), capitalize("-abc"));
}

#[test]
fn multi_char_uppercase_mid_text() {
    assert_eq!("Abc SSe Xß".to_string(), capitalize("abc ße xß"));
    assert_eq!("\u{2BC}N".to_string(), capitalize("ŉ"));
}

#[test]
fn unicode_whitespace_separates_words() {
    assert_eq!("A\u{A0}B\u{3000}C".to_string(), capitalize("a\u{A0}b\u{3000}c"));
}

#[test]
fn non_letters_at_word_start() {
    assert_eq!("1st 2nd".to_string(), capitalize("1st 2nd"));
}

#[test]
fn hello_greets_capitalized_name() {
    assert_eq!("Hello, John Smith".to_string(), hello("john smith".to_string()));
    assert_eq!("Hello, ".to_string(), hello(String::new()));
}

#[test]
fn wave_with_and_without_name() {
    assert_eq!("Hi, Ann!".to_string(), wave(Some("ann".to_string())));
    assert_eq!("Hello!".to_string(), wave(None));
}
