//! Tests for the scalar text codecs and the typed readers.

use serde_sexpr::format_bool;
use serde_sexpr::format_i64;
use serde_sexpr::format_u64;
use serde_sexpr::parse_bool_text;
use serde_sexpr::parse_char_text;
use serde_sexpr::parse_sint_text;
use serde_sexpr::parse_uint_text;
use serde_sexpr::Error;
use serde_sexpr::Value;

fn sym(s: &str) -> Value {
    Value::Sym(s.to_string())
}

#[test]
fn format_unsigned() {
    assert_eq!(format_u64(0), "0");
    assert_eq!(format_u64(42), "42");
    assert_eq!(format_u64(10), "10");
    assert_eq!(format_u64(u64::MAX), "18446744073709551615");
}

#[test]
fn format_signed() {
    assert_eq!(format_i64(0), "0");
    assert_eq!(format_i64(42), "42");
    assert_eq!(format_i64(-42), "-42");
    assert_eq!(format_i64(i64::MIN), "-9223372036854775808");
    assert_eq!(format_i64(i64::MAX), "9223372036854775807");
}

#[test]
fn format_booleans() {
    assert_eq!(format_bool(true), "true");
    assert_eq!(format_bool(false), "false");
}

#[test]
fn parse_unsigned_text() {
    assert_eq!(parse_uint_text("42", u64::MAX), Some(42));
    assert_eq!(parse_uint_text("+42", u64::MAX), Some(42));
    assert_eq!(parse_uint_text("042", u64::MAX), Some(42));
    assert_eq!(parse_uint_text("0", u64::MAX), Some(0));
    assert_eq!(parse_uint_text("18446744073709551615", u64::MAX), Some(u64::MAX));
    assert_eq!(parse_uint_text("18446744073709551616", u64::MAX), None);
    assert_eq!(parse_uint_text("", u64::MAX), None);
    assert_eq!(parse_uint_text("+", u64::MAX), None);
    assert_eq!(parse_uint_text("-1", u64::MAX), None);
    assert_eq!(parse_uint_text("4x2", u64::MAX), None);
    assert_eq!(parse_uint_text("300", 255), None);
    assert_eq!(parse_uint_text("255", 255), Some(255));
}

#[test]
fn parse_signed_text() {
    assert_eq!(parse_sint_text("42", i64::MIN, i64::MAX), Some(42));
    assert_eq!(parse_sint_text("-42", i64::MIN, i64::MAX), Some(-42));
    assert_eq!(parse_sint_text("+42", i64::MIN, i64::MAX), Some(42));
    assert_eq!(
        parse_sint_text("-9223372036854775808", i64::MIN, i64::MAX),
        Some(i64::MIN)
    );
    assert_eq!(parse_sint_text("-9223372036854775809", i64::MIN, i64::MAX), None);
    assert_eq!(
        parse_sint_text("9223372036854775807", i64::MIN, i64::MAX),
        Some(i64::MAX)
    );
    assert_eq!(parse_sint_text("9223372036854775808", i64::MIN, i64::MAX), None);
    assert_eq!(parse_sint_text("-", i64::MIN, i64::MAX), None);
    assert_eq!(parse_sint_text("-128", -128, 127), Some(-128));
    assert_eq!(parse_sint_text("-129", -128, 127), None);
    assert_eq!(parse_sint_text("128", -128, 127), None);
}

#[test]
fn parse_boolean_text() {
    assert_eq!(parse_bool_text("true"), Some(true));
    assert_eq!(parse_bool_text("false"), Some(false));
    assert_eq!(parse_bool_text("True"), None);
    assert_eq!(parse_bool_text("truex"), None);
    assert_eq!(parse_bool_text(""), None);
}

#[test]
fn parse_character_text() {
    assert_eq!(parse_char_text("%"), Some('%'));
    assert_eq!(parse_char_text("é"), Some('é'));
    assert_eq!(parse_char_text(""), None);
    assert_eq!(parse_char_text("ab"), None);
}

#[test]
fn read_bool_from_tree() {
    assert_eq!(sym("true").parse_as_bool().unwrap(), true);
    assert_eq!(sym("false").parse_as_bool().unwrap(), false);
    assert!(matches!(
        sym("yes").parse_as_bool(),
        Err(Error::Invalid("bool", _))
    ));
    assert!(matches!(
        Value::List(Vec::new()).parse_as_bool(),
        Err(Error::Invalid("bool", _))
    ));
}

#[test]
fn read_unsigned_from_tree() {
    assert_eq!(sym("42").parse_as_u8().unwrap(), 42u8);
    assert_eq!(sym("42").parse_as_u16().unwrap(), 42u16);
    assert_eq!(sym("42").parse_as_u32().unwrap(), 42u32);
    assert_eq!(sym("42").parse_as_u64().unwrap(), 42u64);
    assert!(matches!(
        sym("256").parse_as_u8(),
        Err(Error::Invalid("u8", _))
    ));
    assert!(matches!(
        sym("65536").parse_as_u16(),
        Err(Error::Invalid("u16", _))
    ));
    assert!(matches!(
        sym("4294967296").parse_as_u32(),
        Err(Error::Invalid("u32", _))
    ));
    assert!(matches!(
        sym("nope").parse_as_u64(),
        Err(Error::Invalid("u64", _))
    ));
}

#[test]
fn read_signed_from_tree() {
    assert_eq!(sym("-42").parse_as_i8().unwrap(), -42i8);
    assert_eq!(sym("-42").parse_as_i16().unwrap(), -42i16);
    assert_eq!(sym("-42").parse_as_i32().unwrap(), -42i32);
    assert_eq!(sym("-42").parse_as_i64().unwrap(), -42i64);
    assert!(matches!(
        sym("-129").parse_as_i8(),
        Err(Error::Invalid("i8", _))
    ));
    assert!(matches!(
        sym("128").parse_as_i8(),
        Err(Error::Invalid("i8", _))
    ));
}

#[test]
fn read_char_from_tree() {
    assert_eq!(sym("%").parse_as_char().unwrap(), '%');
    assert!(matches!(
        sym("ab").parse_as_char(),
        Err(Error::Invalid("char", _))
    ));
}

#[test]
fn scalars_round_trip_through_text() {
    for v in [0u64, 1, 9, 10, 99, 100, 12345, u64::MAX] {
        assert_eq!(parse_uint_text(&format_u64(v), u64::MAX), Some(v));
    }
    for v in [0i64, 42, -42, i64::MIN, i64::MAX] {
        assert_eq!(parse_sint_text(&format_i64(v), i64::MIN, i64::MAX), Some(v));
    }
}
