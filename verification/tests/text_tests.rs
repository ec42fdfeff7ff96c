use trigger_pipeline::text::{
    begins_with_newline, chars_of, clone_texts, is_space, join, same_text, trim,
};

#[test]
fn chars_of_lists_every_character() {
    assert_eq!(chars_of(""), Vec::<char>::new());
    assert_eq!(chars_of("aé✓"), vec!['a', 'é', '✓']);
}

#[test]
fn begins_with_newline_looks_at_the_first_character() {
    assert!(begins_with_newline("\n"));
    assert!(begins_with_newline("\nabc"));
    assert!(!begins_with_newline(""));
    assert!(!begins_with_newline("a\n"));
    assert!(!begins_with_newline("\r\n"));
    assert!(!begins_with_newline(" \n"));
}

#[test]
fn same_text_compares_characters() {
    assert!(same_text("", ""));
    assert!(same_text("abc", "abc"));
    assert!(!same_text("abc", "abd"));
    assert!(!same_text("abc", "ab"));
}

#[test]
fn join_concatenates_in_order() {
    assert_eq!(join(&Vec::new()), "");
    assert_eq!(join(&vec!["a".to_string()]), "a");
    assert_eq!(
        join(&vec!["ab".to_string(), "".to_string(), "\ncd".to_string(), "é".to_string()]),
        "ab\ncdé"
    );
}

#[test]
fn trim_removes_whitespace_at_both_ends() {
    assert_eq!(trim(""), "");
    assert_eq!(trim("   "), "");
    assert_eq!(trim("a"), "a");
    assert_eq!(trim("  a b \n"), "a b");
    assert_eq!(trim("\t\r\n x"), "x");
    assert_eq!(trim("x \u{a0}\u{3000}"), "x");
    assert_eq!(trim(" é ✓ "), "é ✓");
}

#[test]
fn trim_agrees_with_std() {
    for text in ["", " ", "a", " a", "a ", " a b ", "\n\na\tb\n", "\u{2003}wide\u{2003}", "_ _"] {
        assert_eq!(trim(text), text.trim());
    }
}

#[test]
fn whitespace_is_what_std_calls_whitespace() {
    for code in 0..=0x10ffff_u32 {
        if let Some(c) = char::from_u32(code) {
            assert_eq!(is_space(c), c.is_whitespace(), "U+{:04X}", code);
        }
    }
}

#[test]
fn whitespace_examples() {
    for c in [' ', '\t', '\n', '\u{b}', '\u{c}', '\r', '\u{85}', '\u{a0}', '\u{2009}', '\u{3000}'] {
        assert!(is_space(c));
    }
    for c in ['a', '0', '\u{8}', '\u{e}', '\u{200b}', '\u{180e}', '\u{feff}', '_'] {
        assert!(!is_space(c));
    }
}

#[test]
fn clone_texts_copies_every_text() {
    let texts = vec!["a".to_string(), "".to_string(), "é✓".to_string()];
    assert_eq!(clone_texts(&texts), texts);
    assert_eq!(clone_texts(&Vec::new()), Vec::<String>::new());
}
