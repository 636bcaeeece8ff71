use shared_lib::classes::{
    delimiter, digit, digit_or_dash, non_zero_digit, whitespace, ARRAY_DELIMITERS,
    OBJECT_DELIMITERS, WHITESPACE,
};
use shared_lib::text::{chars_of, skip_blanks, skip_digits, text_between};

#[test]
fn blanks_are_space_tab_and_line_ends() {
    for ch in [' ', '\n', '\r', '\t'] {
        assert!(whitespace(ch));
    }
    for ch in ['\u{b}', '\u{c}', '\u{a0}', '\u{2003}', 'a', '0', ',', '\\', 'n'] {
        assert!(!whitespace(ch));
    }
}

#[test]
fn digits_are_the_ten_ascii_digits() {
    for ch in "0123456789".chars() {
        assert!(digit(ch));
        assert!(digit_or_dash(ch));
        assert_eq!(non_zero_digit(ch), ch != '0');
    }
    for ch in ['/', ':', 'a', '-', '+', '.', '\u{0663}', '\u{ff11}'] {
        assert!(!digit(ch));
        assert!(!non_zero_digit(ch));
        assert_eq!(digit_or_dash(ch), ch == '-');
    }
}

#[test]
fn delimiter_sets_hold_what_they_name() {
    for ch in [' ', '\n', '\r', '\t', ','] {
        assert!(delimiter(ARRAY_DELIMITERS, ch));
        assert!(delimiter(OBJECT_DELIMITERS, ch));
    }
    assert!(delimiter(ARRAY_DELIMITERS, ']'));
    assert!(!delimiter(ARRAY_DELIMITERS, '}'));
    assert!(delimiter(OBJECT_DELIMITERS, '}'));
    assert!(!delimiter(OBJECT_DELIMITERS, ']'));
    assert!(delimiter(WHITESPACE, ' '));
    assert!(!delimiter(WHITESPACE, ','));
    for ch in ['[', '\\', 'n', 'r', 't', '0', '.', 'e', 'E', '-', '+', ':', '"'] {
        assert!(!delimiter(ARRAY_DELIMITERS, ch));
        assert!(!delimiter(OBJECT_DELIMITERS, ch));
        assert!(!delimiter(WHITESPACE, ch));
    }
}

#[test]
fn empty_pattern_holds_no_delimiter() {
    for ch in [' ', ',', ']', '}', 'a', '\n'] {
        assert!(!delimiter("", ch));
    }
}

#[test]
fn other_patterns_are_matched_as_written() {
    assert!(delimiter("[;|]", ';'));
    assert!(delimiter("[;|]", '|'));
    assert!(!delimiter("[;|]", ','));
    assert!(delimiter("\\s", '\u{a0}'));
    assert!(delimiter("x|y", 'y'));
    assert!(!delimiter("xy", 'x'));
}

#[test]
fn refused_pattern_matches_nothing() {
    for ch in ['[', ' ', ',', 'a'] {
        assert!(!delimiter("[", ch));
        assert!(!delimiter("(", ch));
    }
}

#[test]
fn characters_are_read_and_copied_in_order() {
    let chars = chars_of(" \t12\u{e9}x");
    assert_eq!(chars, vec![' ', '\t', '1', '2', '\u{e9}', 'x']);
    assert_eq!(text_between(&chars, 2, 5), "12\u{e9}");
    assert_eq!(text_between(&chars, 3, 3), "");
    assert_eq!(skip_blanks(&chars, 0), 2);
    assert_eq!(skip_blanks(&chars, 2), 2);
    assert_eq!(skip_blanks(&chars, 6), 6);
    assert_eq!(skip_digits(&chars, 2), 4);
    assert_eq!(skip_digits(&chars, 0), 0);
}
