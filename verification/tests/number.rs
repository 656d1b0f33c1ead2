use music_library::number::{parse_number, to_digit};

#[test]
fn digits_before_a_slash_are_the_number() {
    assert_eq!(parse_number("3/12"), Some(3));
}

#[test]
fn plain_numbers_are_read_whole() {
    assert_eq!(parse_number("12"), Some(12));
    assert_eq!(parse_number("0"), Some(0));
    assert_eq!(parse_number("4294967295"), Some(u32::MAX));
}

#[test]
fn leading_zeros_do_not_count() {
    assert_eq!(parse_number("007"), Some(7));
    assert_eq!(parse_number("000"), Some(0));
}

#[test]
fn text_without_a_leading_digit_is_no_number() {
    assert_eq!(parse_number(""), None);
    assert_eq!(parse_number("abc"), None);
    assert_eq!(parse_number("none"), None);
    assert_eq!(parse_number(" 5"), None);
    assert_eq!(parse_number("-5"), None);
    assert_eq!(parse_number("+5"), None);
    assert_eq!(parse_number("/12"), None);
    assert_eq!(parse_number("x1"), None);
}

#[test]
fn reading_stops_at_the_first_other_character() {
    assert_eq!(parse_number("12a34"), Some(12));
    assert_eq!(parse_number("5 of 9"), Some(5));
    assert_eq!(parse_number("1.5"), Some(1));
    assert_eq!(parse_number("0x10"), Some(0));
}

#[test]
fn only_the_ten_ascii_digits_count() {
    // ARABIC-INDIC DIGIT THREE and FULLWIDTH DIGIT THREE
    assert_eq!(parse_number("\u{0663}"), None);
    assert_eq!(parse_number("\u{ff13}1"), None);
    assert_eq!(parse_number("1\u{ff13}"), Some(1));
}

#[test]
fn numbers_beyond_32_bits_wrap() {
    assert_eq!(parse_number("4294967296"), Some(0));
    assert_eq!(parse_number("4294967297"), Some(1));
    assert_eq!(parse_number("42949672960"), Some(0));
    assert_eq!(parse_number("99999999999"), Some((99_999_999_999u64 % (1u64 << 32)) as u32));
    assert_eq!(
        parse_number("123456789012345678901234567890"),
        Some((123456789012345678901234567890u128 % (1u128 << 32)) as u32)
    );
}

#[test]
fn a_digit_has_its_value() {
    assert_eq!(to_digit('0'), Some(0));
    assert_eq!(to_digit('7'), Some(7));
    assert_eq!(to_digit('9'), Some(9));
    assert_eq!(to_digit('/'), None);
    assert_eq!(to_digit(':'), None);
    assert_eq!(to_digit('a'), None);
}
