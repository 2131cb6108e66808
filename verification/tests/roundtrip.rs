//! Scenario tests for the printer and the parser.

use serde_sexpr::Error;
use serde_sexpr::Value;

fn sym(s: &str) -> Value {
    Value::Sym(s.to_string())
}

#[test]
fn print_plain_symbol() {
    assert_eq!(sym("Hello!").to_text(), "Hello!");
}

#[test]
fn parse_plain_symbol() {
    assert_eq!(Value::parse_text("Hello!").unwrap(), sym("Hello!"));
}

#[test]
fn print_symbol_with_space() {
    assert_eq!(sym("Goodbye, world!").to_text(), "|Goodbye,\\ world!|");
}

#[test]
fn parse_symbol_with_space() {
    assert_eq!(
        Value::parse_text("|Goodbye,\\ world!|").unwrap(),
        sym("Goodbye, world!")
    );
}

#[test]
fn print_symbol_of_quoting_characters() {
    assert_eq!(sym(")|(").to_text(), "|\\)\\|\\(|");
}

#[test]
fn parse_symbol_of_quoting_characters() {
    assert_eq!(Value::parse_text("|\\)\\|\\(|").unwrap(), sym(")|("));
}

#[test]
fn print_empty_list() {
    assert_eq!(Value::List(Vec::new()).to_text(), "()");
}

#[test]
fn parse_empty_list() {
    assert_eq!(Value::parse_text("()").unwrap(), Value::List(Vec::new()));
}

#[test]
fn print_empty_symbol() {
    assert_eq!(sym("").to_text(), "||");
}

#[test]
fn parse_empty_symbol() {
    assert_eq!(Value::parse_text("||").unwrap(), sym(""));
}

#[test]
fn parse_nested_lists() {
    let expected = Value::List(vec![
        Value::List(vec![sym("1"), sym("yi")]),
        Value::List(vec![sym("2"), sym("er")]),
    ]);
    assert_eq!(Value::parse_text("((1 yi) (2 er))").unwrap(), expected);
}

#[test]
fn print_nested_lists() {
    let v = Value::List(vec![
        Value::List(vec![sym("1"), sym("yi")]),
        Value::List(vec![sym("2"), sym("er")]),
    ]);
    assert_eq!(v.to_text(), "((1 yi) (2 er))");
}

#[test]
fn trailing_input_is_its_own_error() {
    assert!(matches!(
        Value::parse_text("(a b) extra"),
        Err(Error::ParseTrailing)
    ));
}

#[test]
fn malformed_input_fails_to_parse() {
    assert!(matches!(Value::parse_text("(a b"), Err(Error::ParseFailed)));
}

#[test]
fn surrounding_whitespace_is_ignored() {
    assert_eq!(Value::parse_text("  \n (a b)\t ").unwrap(),
        Value::List(vec![sym("a"), sym("b")]));
}

#[test]
fn whitespace_inside_parens_is_rejected() {
    assert!(matches!(Value::parse_text("( a )"), Err(Error::ParseFailed)));
}

#[test]
fn unescaped_space_in_escaped_symbol_is_rejected() {
    assert!(matches!(Value::parse_text("|a b|"), Err(Error::ParseFailed)));
}

#[test]
fn escaped_symbol_accepts_escaped_ordinary_character() {
    // The parser is more permissive on read than the printer on write: a
    // backslash escapes any character, not only quoting-significant ones.
    assert_eq!(Value::parse_text("|\\a|").unwrap(), sym("a"));
}

#[test]
fn adjacent_values_without_whitespace() {
    // An escaped symbol may abut a bare symbol: the separator may be empty
    // where the boundary is unambiguous.
    assert_eq!(
        Value::parse_text("(a|b|)").unwrap(),
        Value::List(vec![sym("a"), sym("b")])
    );
}

#[test]
fn round_trip_deeply_nested() {
    let mut v = sym("x");
    for _ in 0..40 {
        v = Value::List(vec![v, sym("")]);
    }
    let text = v.to_text();
    assert_eq!(Value::parse_text(&text).unwrap(), v);
}

#[test]
fn round_trip_every_quoting_character() {
    let cases = ["(", ")", "|", "\\", " ", "\t", "\n", "a b", "(x)", "\\|",
        "a\u{2028}b", "\u{3000}", "mixed (all)| of \\ them"];
    for c in cases {
        let v = sym(c);
        let text = v.to_text();
        assert_eq!(Value::parse_text(&text).unwrap(), v, "case {:?}", c);
    }
}

#[test]
fn round_trip_unicode_symbols() {
    let v = Value::List(vec![sym("héllo"), sym("wörld"), sym("日本語")]);
    let text = v.to_text();
    assert_eq!(text, "(héllo wörld 日本語)");
    assert_eq!(Value::parse_text(&text).unwrap(), v);
}

#[test]
fn print_is_idempotent_through_parse() {
    let v = Value::List(vec![sym("a b"), Value::List(vec![sym(""), sym(")")])]);
    let once = v.to_text();
    let again = Value::parse_text(&once).unwrap().to_text();
    assert_eq!(once, again);
}

#[test]
fn parse_via_from_str() {
    let v: Value = "(a b)".parse().unwrap();
    assert_eq!(v, Value::List(vec![sym("a"), sym("b")]));
}

#[test]
fn parse_bytes_valid_utf8() {
    let v = Value::parse_bytes("(a b)".as_bytes()).unwrap();
    assert_eq!(v, Value::List(vec![sym("a"), sym("b")]));
}

#[test]
fn parse_bytes_invalid_utf8() {
    assert!(matches!(
        Value::parse_bytes(&[0xff, 0xfe]),
        Err(Error::Utf8(_))
    ));
}

#[test]
fn empty_and_blank_documents_fail() {
    assert!(matches!(Value::parse_text(""), Err(Error::ParseFailed)));
    assert!(matches!(Value::parse_text("  \n\t"), Err(Error::ParseFailed)));
}

#[test]
fn unicode_whitespace_separates_elements() {
    assert_eq!(
        Value::parse_text("(a\u{3000}b)").unwrap(),
        Value::List(vec![sym("a"), sym("b")])
    );
    assert_eq!(
        Value::parse_text("\u{2028}a\u{00A0}").unwrap(),
        sym("a")
    );
}

#[test]
fn io_errors_wrap_into_the_io_variant() {
    let e: Error = std::io::Error::new(std::io::ErrorKind::Other, "stream broke").into();
    assert!(matches!(e, Error::Io(_)));
    assert_eq!(e.to_message(), "stream broke");
}

#[test]
fn utf8_errors_wrap_into_the_utf8_variant() {
    let bad = std::str::from_utf8(&[0xff]).unwrap_err();
    let e: Error = bad.into();
    assert!(matches!(e, Error::Utf8(_)));
}

#[test]
fn values_convert_from_strings_and_lists() {
    let s: Value = "foo".to_string().into();
    assert_eq!(s, sym("foo"));
    let l: Value = vec![sym("a")].into();
    assert_eq!(l, Value::List(vec![sym("a")]));
}

#[test]
fn error_messages() {
    assert_eq!(
        Error::ParseFailed.to_message(),
        "parsing s-expression failed"
    );
    assert_eq!(
        Error::ParseTrailing.to_message(),
        "parsing s-expression failed (trailing input)"
    );
    assert_eq!(
        Error::Invalid("bool", sym("maybe")).to_message(),
        "maybe is not a bool"
    );
    assert_eq!(Error::Custom("boom".to_string()).to_message(), "boom");
}
