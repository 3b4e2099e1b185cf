use somen_language::character::{character, Character};
use somen_language::error::{Expected, ParseError};
use somen_language::numeric::float::{float, float_parts, FloatLiteral, FloatParts};
use somen_language::numeric::integer::{
    fold_digits, integer, integer_fixed, integer_trailing_zeros, IntegerLiteral,
};
use somen_language::numeric::radix::RadixTable;
use somen_language::numeric::{
    digit, digits, digits_fixed, digits_trailing_zeros, non_zero_digit, parse_complete, sign,
    signed, unsigned,
};

fn chars(s: &str) -> Vec<char> {
    s.chars().collect()
}

fn err(position: usize, expected: Expected) -> ParseError {
    ParseError { position, expected }
}

#[test]
fn integer_reconstructs_value_in_every_radix() {
    let cases: [(u8, &str); 10] = [
        (2, "1011001110001111"),
        (2, "1"),
        (8, "755"),
        (8, "1234567012345"),
        (10, "9223372036854775807"),
        (10, "425"),
        (16, "deadB33f"),
        (16, "7fffffffffffffff"),
        (36, "zz"),
        (36, "1y2p0ij32e8e7"),
    ];
    for (radix, text) in cases {
        let input = chars(text);
        let expected = i64::from_str_radix(text, radix as u32).unwrap();
        let (value, end): (i64, usize) = integer(&input, 0, radix, false).unwrap();
        assert_eq!(value, expected, "{text} in radix {radix}");
        assert_eq!(end, input.len());
        let (value, end): (i64, usize) = integer(&input, 0, radix, true).unwrap();
        assert_eq!(value, -expected, "-{text} in radix {radix}");
        assert_eq!(end, input.len());
    }
}

#[test]
fn integer_reaches_the_least_value_only_when_negated() {
    let input = chars("9223372036854775808");
    let r: Result<(i64, usize), ParseError> = integer(&input, 0, 10, true);
    assert_eq!(r, Ok((i64::MIN, 19)));
    let r: Result<(i64, usize), ParseError> = integer(&input, 0, 10, false);
    assert_eq!(r, Err(err(19, Expected::NotTooLarge)));
}

#[test]
fn integer_on_bytes() {
    let input = b"255 rest".to_vec();
    let r: Result<(u8, usize), ParseError> = integer(&input, 0, 10, false);
    assert_eq!(r, Ok((255, 3)));
    let input = b"256".to_vec();
    let r: Result<(u8, usize), ParseError> = integer(&input, 0, 10, false);
    assert_eq!(r, Err(err(3, Expected::NotTooLarge)));
}

#[test]
fn leading_zero_is_a_lone_zero() {
    let lit = IntegerLiteral { radix: 10 };
    let zero = chars("0");
    let r: Result<(i32, usize), ParseError> = integer(&zero, 0, 10, false);
    assert_eq!(r, Ok((0, 1)));
    let r: Result<i32, ParseError> = parse_complete(&lit, &zero, false);
    assert_eq!(r, Ok(0));

    let padded = chars("007");
    let r: Result<(i32, usize), ParseError> = integer(&padded, 0, 10, false);
    assert_eq!(r, Ok((0, 1)));
    let r: Result<i32, ParseError> = parse_complete(&lit, &padded, false);
    assert_eq!(r, Err(err(1, Expected::End)));

    let r: Result<(i32, usize), ParseError> = integer_trailing_zeros(&padded, 0, 10, false);
    assert_eq!(r, Ok((7, 3)));
}

#[test]
fn overflow_consumes_the_whole_run() {
    let input = chars("99999999999999999999");
    let r: Result<(i8, usize), ParseError> = integer(&input, 0, 10, false);
    assert_eq!(r, Err(err(20, Expected::NotTooLarge)));
    let r: Result<(u8, usize), ParseError> = integer(&input, 0, 10, false);
    assert_eq!(r, Err(err(20, Expected::NotTooLarge)));
    let r: Result<(i8, usize), ParseError> = integer_trailing_zeros(&input, 0, 10, true);
    assert_eq!(r, Err(err(20, Expected::NotTooLarge)));
}

#[test]
fn overflow_freezes_value_and_count() {
    let input = chars("1299");
    let r: (i8, usize, bool) = fold_digits(&input, 0, 4, 0, 10, false);
    assert_eq!(r, (12, 2, true));
    let r: (i8, usize, bool) = fold_digits(&input, 0, 3, 0, 10, true);
    assert_eq!(r, (-12, 2, true));
    let r: (i8, usize, bool) = fold_digits(&input, 0, 2, 0, 10, true);
    assert_eq!(r, (-12, 2, false));
}

#[test]
fn fold_continues_from_an_accumulator() {
    let input = chars("4567");
    let r: (u64, usize, bool) = fold_digits(&input, 1, 4, 12, 10, false);
    assert_eq!(r, (12567, 3, false));
    let r: (i32, usize, bool) = fold_digits(&input, 0, 0, 9, 10, false);
    assert_eq!(r, (9, 0, false));
}

#[test]
fn unsigned_type_takes_no_negative_number() {
    let lit = IntegerLiteral { radix: 10 };
    let r: Result<u8, ParseError> = parse_complete(&lit, &chars("-5"), false);
    assert_eq!(r, Err(err(2, Expected::NotTooLarge)));
    let r: Result<u8, ParseError> = parse_complete(&lit, &chars("-0"), false);
    assert_eq!(r, Ok(0));
}

#[test]
fn integer_fixed_takes_exactly_the_length() {
    let input = chars("00e9z");
    let r: Result<(u32, usize), ParseError> = integer_fixed(&input, 0, 4, 16, false);
    assert_eq!(r, Ok((0xe9, 4)));
    let r: Result<(u32, usize), ParseError> = integer_fixed(&input, 0, 5, 16, false);
    assert_eq!(r, Err(err(4, Expected::Digit(16))));
    let r: Result<(u32, usize), ParseError> = integer_fixed(&input, 2, 4, 16, false);
    assert_eq!(r, Err(err(4, Expected::Digit(16))));
    let r: Result<(u8, usize), ParseError> = integer_fixed(&chars("fff"), 0, 3, 16, false);
    assert_eq!(r, Err(err(3, Expected::NotTooLarge)));
}

#[test]
fn digit_matchers() {
    let input = chars("0a9z");
    assert_eq!(digit(&input, 0, 10), Ok('0'));
    assert_eq!(digit(&input, 1, 10), Err(err(1, Expected::Digit(10))));
    assert_eq!(digit(&input, 1, 11), Ok('a'));
    assert_eq!(digit(&input, 4, 10), Err(err(4, Expected::Digit(10))));
    assert_eq!(non_zero_digit(&input, 0, 10), Err(err(0, Expected::NonZeroDigit(10))));
    assert_eq!(non_zero_digit(&input, 2, 10), Ok('9'));
    assert_eq!(digits(&chars("120x"), 0, 10), Ok(3));
    assert_eq!(digits(&chars("012"), 0, 10), Ok(1));
    assert_eq!(digits(&chars("x"), 0, 10), Err(err(0, Expected::Digit(10))));
    assert_eq!(digits_trailing_zeros(&chars("0012x"), 0, 10), Ok(4));
    assert_eq!(digits_trailing_zeros(&chars(""), 0, 10), Err(err(0, Expected::Digit(10))));
    assert_eq!(digits_fixed(&chars("123"), 0, 2, 10), Ok(2));
    assert_eq!(digits_fixed(&chars("1x3"), 0, 2, 10), Err(err(1, Expected::Digit(10))));
    assert_eq!(digits_fixed(&chars("123"), 1, 0, 10), Ok(1));
}

#[test]
fn sign_without_plus() {
    assert_eq!(sign(&chars("-"), 0, false), Ok(true));
    assert_eq!(sign(&chars("+"), 0, false), Err(err(0, Expected::Sign(false))));
    assert_eq!(sign(&chars(""), 0, false), Err(err(0, Expected::Sign(false))));
}

#[test]
fn sign_with_plus() {
    assert_eq!(sign(&chars("-"), 0, true), Ok(true));
    assert_eq!(sign(&chars("+"), 0, true), Ok(false));
    assert_eq!(sign(&chars("1"), 0, true), Err(err(0, Expected::Sign(true))));
}

#[test]
fn signed_and_unsigned_literals() {
    let lit = IntegerLiteral { radix: 10 };
    let r: Result<(i32, usize), ParseError> = signed(&lit, &chars("-42"), 0, false);
    assert_eq!(r, Ok((-42, 3)));
    let r: Result<(i32, usize), ParseError> = signed(&lit, &chars("+42"), 0, true);
    assert_eq!(r, Ok((42, 3)));
    let r: Result<(i32, usize), ParseError> = signed(&lit, &chars("+42"), 0, false);
    assert_eq!(r, Err(err(0, Expected::Digit(10))));
    let r: Result<(i32, usize), ParseError> = signed(&lit, &chars("42"), 0, false);
    assert_eq!(r, Ok((42, 2)));
    let r: Result<(i32, usize), ParseError> = signed(&lit, &chars("-x"), 0, false);
    assert_eq!(r, Err(err(1, Expected::Digit(10))));
    let r: Result<(i32, usize), ParseError> = unsigned(&lit, &chars("-42"), 0);
    assert_eq!(r, Err(err(0, Expected::Digit(10))));
}

fn radix_table() -> RadixTable {
    RadixTable {
        prefixes: vec![(b"0x".to_vec(), 16), (b"0o".to_vec(), 8), (b"0b".to_vec(), 2)],
        default_radix: 10,
    }
}

#[test]
fn radix_prefixes_choose_the_radix() {
    let table = radix_table();
    let r: Result<i64, ParseError> = parse_complete(&table, &chars("0xDEADb33f"), true);
    assert_eq!(r, Ok(0xdeadb33f));
    let r: Result<i64, ParseError> = parse_complete(&table, &chars("-0o755"), true);
    assert_eq!(r, Ok(-0o755));
    let r: Result<i64, ParseError> = parse_complete(&table, &chars("+0b00001111"), true);
    assert_eq!(r, Ok(0b00001111));
    let r: Result<i64, ParseError> = parse_complete(&table, &chars("-425"), true);
    assert_eq!(r, Ok(-425));
    let r: Result<i64, ParseError> = parse_complete(&table, &chars("050"), true);
    assert_eq!(r, Err(err(1, Expected::End)));
    let r: Result<i64, ParseError> = parse_complete(&table, &chars("0"), true);
    assert_eq!(r, Ok(0));
}

#[test]
fn radix_prefix_commits_to_its_radix() {
    let table = radix_table();
    let r: Result<i64, ParseError> = parse_complete(&table, &chars("0xg"), true);
    assert_eq!(r, Err(err(2, Expected::Digit(16))));
    let r: Result<i64, ParseError> = parse_complete(&table, &chars("0b012"), true);
    assert_eq!(r, Err(err(4, Expected::End)));
    let r: Result<i8, ParseError> = parse_complete(&table, &chars("0xfff"), true);
    assert_eq!(r, Err(err(5, Expected::NotTooLarge)));
}

#[test]
fn float_parts_of_literals() {
    assert_eq!(float_parts(&chars("123.456e2"), 0), Ok((123456, -1, 9)));
    assert_eq!(float_parts(&chars("0.001"), 0), Ok((1, -3, 5)));
    assert_eq!(float_parts(&chars("1e10"), 0), Ok((1, 10, 4)));
    assert_eq!(float_parts(&chars("1E+10"), 0), Ok((1, 10, 5)));
    assert_eq!(float_parts(&chars("25e-3"), 0), Ok((25, -3, 5)));
    assert_eq!(float_parts(&chars("7"), 0), Ok((7, 0, 1)));
    assert_eq!(float_parts(&chars("x"), 0), Err(err(0, Expected::Digit(10))));
}

#[test]
fn float_parts_leave_incomplete_tails() {
    assert_eq!(float_parts(&chars("1."), 0), Ok((1, 0, 1)));
    assert_eq!(float_parts(&chars("1.5e"), 0), Ok((15, -1, 3)));
    assert_eq!(float_parts(&chars("1e+"), 0), Ok((1, 0, 1)));
    assert_eq!(float_parts(&chars("01.5"), 0), Ok((0, 0, 1)));
}

#[test]
fn float_parts_saturate() {
    let big = chars("18446744073709551616.5e3");
    assert_eq!(float_parts(&big, 0), Ok((u64::MAX, 0, 20)));
    let long = chars("1844674407370955161.55");
    assert_eq!(float_parts(&long, 0), Ok((u64::MAX, -1, 22)));
    assert_eq!(float_parts(&chars("1e99999999999"), 0), Ok((1, i32::MAX, 13)));
    assert_eq!(float_parts(&chars("1e-99999999999"), 0), Ok((1, i32::MIN, 14)));
    assert_eq!(float_parts(&chars("0.5e-2147483648"), 0), Ok((5, i32::MIN, 15)));
    assert_eq!(float_parts(&chars("1e2147483647"), 0), Ok((1, i32::MAX, 12)));
}

fn to_f64(parts: FloatParts) -> f64 {
    let value = parts.mantissa as f64 * 10f64.powi(parts.exponent);
    if parts.negative {
        -value
    } else {
        value
    }
}

#[test]
fn float_values() {
    let r: Result<FloatParts, ParseError> = parse_complete(&FloatLiteral, &chars("123.456e2"), false);
    let v = to_f64(r.unwrap());
    assert!((v - 12345.6).abs() < 1e-9);
    let r: Result<FloatParts, ParseError> = parse_complete(&FloatLiteral, &chars("0.001"), false);
    let v = to_f64(r.unwrap());
    assert!((v - 0.001).abs() < 1e-15);
    let r: Result<FloatParts, ParseError> = parse_complete(&FloatLiteral, &chars("-1e10"), false);
    let parts = r.unwrap();
    assert_eq!(parts, FloatParts { negative: true, mantissa: 1, exponent: 10 });
    assert_eq!(to_f64(parts), -1e10);
}

#[test]
fn character_matcher() {
    let input = chars("a-");
    assert_eq!(character(&input, 1, b'-'), Ok(2));
    assert_eq!(character(&input, 0, b'-'), Err(err(0, Expected::Character(b'-'))));
    assert_eq!(character(&input, 2, b'-'), Err(err(2, Expected::Character(b'-'))));
}

#[test]
fn character_classes() {
    assert!(Character::is_digit(&'7', 8));
    assert!(!Character::is_digit(&'8', 8));
    assert!(Character::is_digit(&'z', 36));
    assert!(Character::is_digit(&'Z', 36));
    assert!(!Character::is_digit(&'g', 16));
    assert_eq!(Character::to_digit(&'a', 16), Some(10));
    assert_eq!(Character::to_digit(&'F', 16), Some(15));
    assert_eq!(Character::to_digit(&'9', 10), Some(9));
    assert_eq!(Character::to_digit(&'é', 36), None);
    assert_eq!(Character::to_digit(&b'a', 11), Some(10));
    assert_eq!(Character::to_digit(&b'b', 11), None);
    assert!(Character::is_digit(&b'A', 11));
    assert!(Character::is_letter(&b'q'));
    assert!(!Character::is_letter(&b'_'));
    assert!(Character::eq_byte(&'x', b'x'));
    assert!(!Character::eq_byte(&'\u{178}', b'x'));
}

#[test]
fn float_carries_the_sign_flag() {
    let input = chars("2.5e1x");
    let r = float(&input, 0, true);
    assert_eq!(r, Ok((FloatParts { negative: true, mantissa: 25, exponent: 0 }, 5)));
    let r = float(&input, 5, false);
    assert_eq!(r, Err(err(5, Expected::Digit(10))));
}

#[test]
fn radix_table_without_prefixes_uses_the_default() {
    let table = RadixTable { prefixes: vec![], default_radix: 16 };
    let r: Result<u16, ParseError> = parse_complete(&table, &chars("ff"), false);
    assert_eq!(r, Ok(255));
    let r: Result<u16, ParseError> = parse_complete(&table, &chars("0ff"), false);
    assert_eq!(r, Err(err(1, Expected::End)));
}
