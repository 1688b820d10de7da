//! Tests for the error taxonomy, its constructors, and its display text.

use toon_table::error::Error;
use toon_table::text::{classify_text_error, str_contains};
use toon_table::value::Value;

#[test]
fn test_error_display() {
    let err = Error::MissingColumn("id".to_string());
    assert_eq!(err.message(), "Missing required column: id");

    let err = Error::InvalidType {
        expected: "string".to_string(),
        got: "number".to_string(),
    };
    assert!(err.message().contains("expected string"));
}

#[test]
fn test_error_constructors() {
    let err = Error::serialize("failed to write");
    assert!(matches!(err, Error::Serialize(_)));

    let err = Error::invalid_table("missing header");
    assert!(matches!(err, Error::InvalidTable(_)));
}

#[test]
fn test_error_more_constructors() {
    assert!(matches!(Error::deserialize("bad text"), Error::Deserialize(_)));
    assert!(matches!(Error::missing_column("role"), Error::MissingColumn(_)));
    assert!(matches!(Error::conversion("too large"), Error::ConversionError(_)));
    let err = Error::invalid_type("bool", &Value::from("yes"));
    assert_eq!(
        err,
        Error::InvalidType {
            expected: "bool".to_string(),
            got: "string".to_string(),
        }
    );
}

#[test]
fn test_bounds_error_messages() {
    let err = Error::RowOutOfBounds { index: 12, len: 3 };
    assert_eq!(err.message(), "Row index 12 out of bounds (table has 3 rows)");

    let err = Error::ColumnOutOfBounds { index: 0, len: 0 };
    assert_eq!(
        err.message(),
        "Column index 0 out of bounds (table has 0 columns)"
    );
}

#[test]
fn test_classify_text_error() {
    assert!(matches!(
        classify_text_error("could not serialize the value".to_string()),
        Error::Serialize(_)
    ));
    assert!(matches!(
        classify_text_error("Serialize step broke".to_string()),
        Error::Serialize(_)
    ));
    assert!(matches!(
        classify_text_error("unexpected token at line 3".to_string()),
        Error::Deserialize(_)
    ));
}

#[test]
fn test_str_contains() {
    assert!(str_contains("hello world", "lo wo"));
    assert!(str_contains("abc", ""));
    assert!(!str_contains("abc", "abcd"));
    assert!(!str_contains("hello", "He"));
}

#[test]
fn test_from_text_codec_error() {
    let parse_err = serde_toon2::from_str::<serde_toon2::Value>("key: [3]: a,b").unwrap_err();
    let err = Error::from(parse_err);
    assert!(matches!(err, Error::Serialize(_) | Error::Deserialize(_)));
}
