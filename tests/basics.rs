use fdu_sdk::error::{ErrorType, SDKError};
use fdu_sdk::hello_world;
use fdu_sdk::text::{is_blank, is_whitespace, parse_decimal, Decimal};

#[test]
fn it_works() {
    assert_eq!(hello_world(), "hello world");
    assert_eq!(fdu_sdk::add(1, 2), 3);
}

#[test]
fn add_negative_values() {
    assert_eq!(fdu_sdk::add(-5, 3), -2);
}

#[test]
fn none_error_is_none() {
    let e = SDKError::none();
    assert!(e.is_none_error());
    assert_eq!(e.message, "");
    assert!(e.cause.is_none());
}

#[test]
fn new_error_is_none_kind_with_message() {
    let e = SDKError::new("Key d is missing".to_string());
    assert!(e.is_none_error());
    assert_eq!(e.to_text(), "Key d is missing");
}

#[test]
fn typed_error_is_not_none() {
    let e = SDKError::with_type(ErrorType::LoginError, "login error".to_string());
    assert!(!e.is_none_error());
    assert_eq!(e.kind, ErrorType::LoginError);
    assert_eq!(e.to_text(), "login error");
}

#[test]
fn error_with_cause_prints_kind_and_cause() {
    let e = SDKError::with_cause(
        ErrorType::ParseError,
        "serde_json reported an error".to_string(),
        "EOF while parsing".to_string(),
    );
    assert_eq!(
        e.to_text(),
        "Type ParseError: serde_json reported an error caused by EOF while parsing"
    );
}

#[test]
fn error_kind_names() {
    assert_eq!(ErrorType::NetworkError.name(), "NetworkError");
    assert_eq!(ErrorType::OtherError.name(), "OtherError");
    assert_eq!(ErrorType::LogoutError.name(), "LogoutError");
    assert_eq!(ErrorType::NoneError.name(), "NoneError");
}

#[test]
fn decimals_keep_every_digit() {
    assert_eq!(parse_decimal("3.652"), Some(Decimal { units: 3652, scale: 3 }));
    assert_eq!(parse_decimal("120"), Some(Decimal { units: 120, scale: 0 }));
    assert_eq!(parse_decimal(".5"), Some(Decimal { units: 5, scale: 1 }));
    assert_eq!(parse_decimal("3."), Some(Decimal { units: 3, scale: 0 }));
    assert_eq!(parse_decimal(""), None);
    assert_eq!(parse_decimal("1.2.3"), None);
    assert_eq!(parse_decimal(" 3"), None);
    assert_eq!(parse_decimal("18446744073709551616"), None);
}

#[test]
fn unicode_whitespace() {
    for c in [' ', '\t', '\n', '\u{a0}', '\u{3000}', '\u{2009}', '\u{85}'] {
        assert_eq!(is_whitespace(c), c.is_whitespace());
        assert!(is_whitespace(c));
    }
    for c in ['a', '\u{200b}', '\u{feff}', '成'] {
        assert_eq!(is_whitespace(c), c.is_whitespace());
    }
    assert!(is_blank(" \u{a0}\n"));
    assert!(!is_blank(" x "));
}
