use helianto::text::{chars_of, has_char, is_space, join_with, owned, same, split_on, string_of, trim};

#[test]
fn trim_removes_whitespace_on_both_sides() {
    assert_eq!(trim("  foo bar \t\n"), "foo bar");
    assert_eq!(trim("foo"), "foo");
    assert_eq!(trim(""), "");
    assert_eq!(trim(" \t "), "");
    assert_eq!(trim("\u{a0}x\u{3000}"), "x");
}

#[test]
fn whitespace_is_the_unicode_property() {
    for c in ['\t', '\n', '\u{b}', '\u{c}', '\r', ' ', '\u{85}', '\u{a0}', '\u{1680}', '\u{2000}',
        '\u{200a}', '\u{2028}', '\u{2029}', '\u{202f}', '\u{205f}', '\u{3000}'] {
        assert!(is_space(c));
        assert!(c.is_whitespace());
    }
    for c in ['a', '_', '\u{200b}', '\u{feff}', '0', '\u{1c}'] {
        assert!(!is_space(c));
        assert!(!c.is_whitespace());
    }
}

#[test]
fn split_keeps_empty_pieces() {
    assert_eq!(split_on("a,b,,c", ','), vec!["a", "b", "", "c"]);
    assert_eq!(split_on("", ','), vec![""]);
    assert_eq!(split_on(",", ','), vec!["", ""]);
    assert_eq!(split_on("abc", ','), vec!["abc"]);
}

#[test]
fn join_puts_the_separator_between_pieces() {
    let pieces = vec![String::from("a"), String::from(""), String::from("c")];
    assert_eq!(join_with(&pieces, '/'), "a//c");
    assert_eq!(join_with(&Vec::new(), '/'), "");
    assert_eq!(join_with(&vec![String::from("x")], '/'), "x");
}

#[test]
fn strings_and_characters_convert_both_ways() {
    let chars = chars_of("héllo");
    assert_eq!(chars, vec!['h', 'é', 'l', 'l', 'o']);
    assert_eq!(string_of(&chars, 1, 4), "éll");
    assert_eq!(owned("héllo"), "héllo");
    assert!(same("abc", "abc"));
    assert!(!same("abc", "abd"));
    assert!(!same("abc", "ab"));
    assert!(has_char("a;b", ';'));
    assert!(!has_char("a,b", ';'));
}
