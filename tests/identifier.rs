use somen_language::error::{Expected, ParseError};
use somen_language::identifier::{identifier, standard_identifier, CharClass};

fn chars(s: &str) -> Vec<char> {
    s.chars().collect()
}

#[test]
fn standard_identifier_reads_letters_digits_underscores() {
    let input = chars("abc_1 x");
    let (text, end) = standard_identifier(&input, 0).unwrap();
    assert_eq!(text, chars("abc_1"));
    assert_eq!(end, 5);
    let (text, end) = standard_identifier(&input, 6).unwrap();
    assert_eq!(text, chars("x"));
    assert_eq!(end, 7);
}

#[test]
fn standard_identifier_starts_with_a_letter() {
    let input = chars("1abc");
    assert_eq!(standard_identifier(&input, 0), Err(ParseError { position: 0, expected: Expected::Identifier }));
    assert_eq!(standard_identifier(&input, 4), Err(ParseError { position: 4, expected: Expected::Identifier }));
    let bytes = b"_x".to_vec();
    assert_eq!(standard_identifier(&bytes, 0), Err(ParseError { position: 0, expected: Expected::Identifier }));
}

#[test]
fn identifier_with_own_classes() {
    let start = CharClass { letters: false, digits: false, others: b"$@".to_vec() };
    let rest = CharClass { letters: false, digits: true, others: b"-".to_vec() };
    let input = b"$12-3a".to_vec();
    let (text, end) = identifier(&input, 0, &start, &rest).unwrap();
    assert_eq!(text, b"$12-3".to_vec());
    assert_eq!(end, 5);
}
