use minilang::character::{Char, CharClass, CharValue};

#[test]
fn it_check_alphabetic() {
    let ch = Char::new(CharValue::Scalar('a'));

    assert!(ch.is_alphabetic());
}

#[test]
fn it_check_numericity() {
    let ch = Char::new(CharValue::Scalar('1'));

    assert!(ch.is_digit());
}

#[test]
fn it_check_alphanumericity() {
    let ch1 = Char::new(CharValue::Scalar('1'));

    let ch2 = Char::new(CharValue::Scalar('a'));

    assert!(ch1.is_alphanumeric());
    assert!(ch2.is_alphanumeric());
}

#[test]
fn it_check_whitespce() {
    let space = Char::new(CharValue::Scalar(' '));
    let new_line = Char::new(CharValue::Scalar('\n'));
    let cr = Char::new(CharValue::Scalar('\r'));
    let tab = Char::new(CharValue::Scalar('\t'));

    assert!(space.is_whitespace());
    assert!(new_line.is_whitespace());
    assert!(cr.is_whitespace());
    assert!(tab.is_whitespace());
}

#[test]
fn it_converts_into_char() {
    let ch = Char::new(CharValue::Scalar('a'));

    assert_eq!('a', ch.as_char());
}

#[test]
fn it_compares_with_char() {
    let ch = Char::new(CharValue::Scalar('a'));

    assert!(ch.eq_char('a'));
    assert!(Char::new(CharValue::Scalar('a')).eq_char('a'));

    assert!(!ch.eq_char('b'));
    assert!(!Char::new(CharValue::Scalar('b')).eq_char('a'));
}

#[test]
fn it_never_matches_a_char_at_end_of_input() {
    let end = Char::new(CharValue::End);

    assert!(end.is_eof());
    assert!(!end.eq_char('a'));
    assert!(!end.is_alphabetic());
    assert!(!end.is_alphanumeric());
    assert!(!end.is_digit());
    assert!(!end.is_whitespace());
    assert!(!end.is_newline());
}

#[test]
fn it_classifies_scalars_into_exactly_one_class() {
    let samples = vec![
        ('a', CharClass::Alphabetic),
        ('Z', CharClass::Alphabetic),
        ('0', CharClass::Digit),
        ('9', CharClass::Digit),
        (' ', CharClass::Whitespace),
        ('\t', CharClass::Whitespace),
        ('\n', CharClass::Whitespace),
        ('+', CharClass::Other),
        ('#', CharClass::Other),
        ('$', CharClass::Other),
    ];
    for (c, expected) in samples {
        assert_eq!(Char::new(CharValue::Scalar(c)).classify(), expected);
    }
}

#[test]
fn it_detects_newlines() {
    assert!(Char::new(CharValue::Scalar('\r')).is_newline());
    assert!(Char::new(CharValue::Scalar('\n')).is_newline());
    assert!(!Char::new(CharValue::Scalar(' ')).is_newline());
}
