use migrust::decimal::{append_decimal, decimal_string, parse_numeral, read_digit, NumeralError};
use migrust::text::chars_of;

fn parse(text: &str) -> Result<u128, NumeralError> {
    parse_numeral(text)
}

#[test]
fn digits_are_read() {
    assert_eq!(read_digit('0'), Some(0));
    assert_eq!(read_digit('7'), Some(7));
    assert_eq!(read_digit('9'), Some(9));
    assert_eq!(read_digit('/'), None);
    assert_eq!(read_digit(':'), None);
    assert_eq!(read_digit('a'), None);
    assert_eq!(read_digit('٣'), None);
}

#[test]
fn numerals_denote_their_value() {
    assert_eq!(parse("0"), Ok(0));
    assert_eq!(parse("50"), Ok(50));
    assert_eq!(parse("000123"), Ok(123));
    assert_eq!(parse("+123"), Ok(123));
    assert_eq!(parse("18446744073709551616"), Ok(18446744073709551616));
}

#[test]
fn numerals_are_refused_for_their_first_fault() {
    assert_eq!(parse(""), Err(NumeralError::Empty));
    assert_eq!(parse("+"), Err(NumeralError::InvalidDigit));
    assert_eq!(parse("-"), Err(NumeralError::InvalidDigit));
    assert_eq!(parse("-1"), Err(NumeralError::InvalidDigit));
    assert_eq!(parse("++1"), Err(NumeralError::InvalidDigit));
    assert_eq!(parse("1+"), Err(NumeralError::InvalidDigit));
    assert_eq!(parse(" 1"), Err(NumeralError::InvalidDigit));
    assert_eq!(parse("1_000"), Err(NumeralError::InvalidDigit));
    assert_eq!(parse("１２"), Err(NumeralError::InvalidDigit));
}

#[test]
fn numerals_above_the_limit_overflow() {
    assert_eq!(parse("340282366920938463463374607431768211455"), Ok(u128::MAX));
    assert_eq!(
        parse("340282366920938463463374607431768211456"),
        Err(NumeralError::Overflow)
    );
    assert_eq!(
        parse("999999999999999999999999999999999999999999"),
        Err(NumeralError::Overflow)
    );
    assert_eq!(
        parse("+0000340282366920938463463374607431768211455"),
        Ok(u128::MAX)
    );
}

#[test]
fn numerals_agree_with_the_standard_parser() {
    for text in ["0", "7", "+7", "007", "", "+", "-7", "7a", "a7", "4294967296"] {
        assert_eq!(parse(text).ok(), text.parse::<u128>().ok(), "{text:?}");
    }
}

#[test]
fn numbers_are_written_without_leading_zeros() {
    assert_eq!(decimal_string(0), "0");
    assert_eq!(decimal_string(9), "9");
    assert_eq!(decimal_string(10), "10");
    assert_eq!(decimal_string(5432), "5432");
    assert_eq!(decimal_string(1700000000123), "1700000000123");
    assert_eq!(decimal_string(u128::MAX), "340282366920938463463374607431768211455");
}

#[test]
fn numbers_are_appended_to_what_stands_there() {
    let mut text = String::from("backup-");
    append_decimal(&mut text, 2024);
    assert_eq!(text, "backup-2024");
}

#[test]
fn written_numbers_read_back() {
    for n in [0u128, 1, 9, 10, 99, 100, 12345, u64::MAX as u128, u128::MAX - 1, u128::MAX] {
        assert_eq!(parse(&decimal_string(n)), Ok(n));
        assert_eq!(decimal_string(n), n.to_string());
    }
}

#[test]
fn characters_come_in_order() {
    assert_eq!(chars_of(""), Vec::<char>::new());
    assert_eq!(chars_of("1.sql"), vec!['1', '.', 's', 'q', 'l']);
    assert_eq!(chars_of("é1"), vec!['é', '1']);
}
