use portcheck::decimal::{digit_of, parse_decimal, render_decimal, NumberError};

#[test]
fn digit_of_agrees_with_std_on_every_char() {
    let mut code: u32 = 0;
    while code <= 0x10FFFF {
        if let Some(c) = char::from_u32(code) {
            assert_eq!(digit_of(c), c.to_digit(10), "U+{:04X}", code);
        }
        code += 1;
    }
}

#[test]
fn parse_plain_numbers() {
    assert_eq!(parse_decimal("0", u32::MAX), Ok(0));
    assert_eq!(parse_decimal("7", u32::MAX), Ok(7));
    assert_eq!(parse_decimal("3151", u32::MAX), Ok(3151));
    assert_eq!(parse_decimal("4294967295", u32::MAX), Ok(4294967295));
}

#[test]
fn parse_accepts_plus_sign_and_leading_zeros() {
    assert_eq!(parse_decimal("+5", u32::MAX), Ok(5));
    assert_eq!(parse_decimal("+0", u32::MAX), Ok(0));
    assert_eq!(parse_decimal("0000000000000042", u32::MAX), Ok(42));
    assert_eq!(parse_decimal("+007", u32::MAX), Ok(7));
}

#[test]
fn parse_rejects_empty_text() {
    assert_eq!(parse_decimal("", u32::MAX), Err(NumberError::Empty));
}

#[test]
fn parse_rejects_what_is_no_digit() {
    assert_eq!(parse_decimal("+", u32::MAX), Err(NumberError::InvalidDigit));
    assert_eq!(parse_decimal("-", u32::MAX), Err(NumberError::InvalidDigit));
    assert_eq!(parse_decimal("-1", u32::MAX), Err(NumberError::InvalidDigit));
    assert_eq!(parse_decimal("++1", u32::MAX), Err(NumberError::InvalidDigit));
    assert_eq!(parse_decimal("12a", u32::MAX), Err(NumberError::InvalidDigit));
    assert_eq!(parse_decimal("a12", u32::MAX), Err(NumberError::InvalidDigit));
    assert_eq!(parse_decimal("1 2", u32::MAX), Err(NumberError::InvalidDigit));
    assert_eq!(parse_decimal(" 12", u32::MAX), Err(NumberError::InvalidDigit));
    assert_eq!(parse_decimal("1.5", u32::MAX), Err(NumberError::InvalidDigit));
    assert_eq!(parse_decimal("\u{663}", u32::MAX), Err(NumberError::InvalidDigit));
}

#[test]
fn parse_rejects_numbers_above_the_limit() {
    assert_eq!(parse_decimal("4294967296", u32::MAX), Err(NumberError::TooLarge));
    assert_eq!(parse_decimal("99999999999999999999999", u32::MAX), Err(NumberError::TooLarge));
    assert_eq!(parse_decimal("100", 99), Err(NumberError::TooLarge));
    assert_eq!(parse_decimal("99", 99), Ok(99));
    assert_eq!(parse_decimal("1", 0), Err(NumberError::TooLarge));
    assert_eq!(parse_decimal("0", 0), Ok(0));
}

#[test]
fn parse_reports_a_bad_character_before_the_size() {
    assert_eq!(parse_decimal("99999999999x", u32::MAX), Err(NumberError::InvalidDigit));
}

#[test]
fn parse_succeeds_where_std_does() {
    let samples: [&str; 14] = [
        "", "+", "-", "0", "+0", "-0", "42", "0042", "4294967295", "4294967296", "12a", " 1", "1 ",
        "٣",
    ];
    for sample in samples {
        assert_eq!(
            parse_decimal(sample, u32::MAX).ok(),
            sample.parse::<u32>().ok(),
            "{:?}",
            sample
        );
    }
}

#[test]
fn render_writes_plain_digits() {
    assert_eq!(render_decimal(0), "0");
    assert_eq!(render_decimal(7), "7");
    assert_eq!(render_decimal(10), "10");
    assert_eq!(render_decimal(8080), "8080");
    assert_eq!(render_decimal(1234567890), "1234567890");
    assert_eq!(render_decimal(u32::MAX), "4294967295");
}

#[test]
fn render_agrees_with_std() {
    let samples: [u32; 8] = [0, 1, 9, 10, 99, 100, 65535, 4294967295];
    for n in samples {
        assert_eq!(render_decimal(n), n.to_string());
    }
}

#[test]
fn parse_reads_back_what_render_writes() {
    let samples: [u32; 8] = [0, 1, 9, 10, 101, 65535, 65536, 4294967295];
    for n in samples {
        assert_eq!(parse_decimal(&render_decimal(n), u32::MAX), Ok(n));
        assert_eq!(parse_decimal(&render_decimal(n), n), Ok(n));
    }
}
