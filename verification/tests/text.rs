use downloads_sorter::text::{spells, to_chars, to_lower_char, to_lower_chars};

#[test]
fn ascii_letters_are_lowered() {
    assert_eq!(to_lower_char('A'), 'a');
    assert_eq!(to_lower_char('Z'), 'z');
    assert_eq!(to_lower_char('M'), 'm');
    assert_eq!(to_lower_char('a'), 'a');
    assert_eq!(to_lower_char('@'), '@');
    assert_eq!(to_lower_char('['), '[');
    assert_eq!(to_lower_char('7'), '7');
}

#[test]
fn other_characters_are_left_alone() {
    assert_eq!(to_lower_char('\u{c9}'), '\u{c9}');
    assert_eq!(to_lower_char('\u{212a}'), '\u{212a}');
    assert_eq!(to_lower_chars("\u{c9}T\u{c9}.Txt"), vec!['\u{c9}', 't', '\u{c9}', '.', 't', 'x', 't']);
}

#[test]
fn characters_of_a_text() {
    assert_eq!(to_chars(""), Vec::<char>::new());
    assert_eq!(to_chars("a.B"), vec!['a', '.', 'B']);
    assert_eq!(to_chars("\u{e9}\u{1f600}z"), vec!['\u{e9}', '\u{1f600}', 'z']);
}

#[test]
fn spelling() {
    assert!(spells(&vec!['p', 'd', 'f'], "pdf"));
    assert!(!spells(&vec!['p', 'd'], "pdf"));
    assert!(!spells(&vec!['p', 'd', 'g'], "pdf"));
    assert!(spells(&Vec::new(), ""));
    assert!(!spells(&vec!['x'], ""));
}
