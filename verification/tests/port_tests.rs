use portcheck::decimal::NumberError;
use portcheck::port::{effective_port, parse_port, DEFAULT_PORT};

#[test]
fn default_port_is_8080() {
    assert_eq!(DEFAULT_PORT, 8080);
    assert_eq!(effective_port(None), Ok(8080));
}

#[test]
fn given_port_is_taken() {
    assert_eq!(effective_port(Some("65535")), Ok(65535));
    assert_eq!(effective_port(Some("0")), Ok(0));
    assert_eq!(effective_port(Some("80")), Ok(80));
    assert_eq!(effective_port(Some("8080")), Ok(8080));
}

#[test]
fn port_out_of_range_is_refused() {
    assert_eq!(effective_port(Some("70000")), Err(NumberError::TooLarge));
    assert_eq!(effective_port(Some("65536")), Err(NumberError::TooLarge));
    assert_eq!(parse_port("70000"), Err(NumberError::TooLarge));
}

#[test]
fn port_that_is_no_number_is_refused() {
    assert_eq!(effective_port(Some("abc")), Err(NumberError::InvalidDigit));
    assert_eq!(effective_port(Some("")), Err(NumberError::Empty));
    assert_eq!(effective_port(Some("-1")), Err(NumberError::InvalidDigit));
    assert_eq!(parse_port("abc"), Err(NumberError::InvalidDigit));
}

#[test]
fn parse_port_reads_every_port_at_the_edges() {
    assert_eq!(parse_port("0"), Ok(0));
    assert_eq!(parse_port("1"), Ok(1));
    assert_eq!(parse_port("1023"), Ok(1023));
    assert_eq!(parse_port("65534"), Ok(65534));
    assert_eq!(parse_port("65535"), Ok(65535));
    assert_eq!(parse_port("+443"), Ok(443));
}
