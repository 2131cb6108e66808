//! The error type shared by parsing, printing, and the mapping layers.

use vstd::prelude::*;

use crate::value::Value;

verus! {

#[verifier::external_type_specification]
#[verifier::external_body]
pub struct ExIoError(std::io::Error);

#[verifier::external_type_specification]
#[verifier::external_body]
pub struct ExUtf8Error(std::str::Utf8Error);

/// An error while converting between typed data and s-expression text.
#[derive(Debug)]
pub enum Error {
    /// A custom error raised by the data-model mapping layer.
    Custom(String),

    /// An I/O error from reading or writing a byte stream.
    Io(std::io::Error),

    /// An invalid s-expression was found when the named shape was requested
    /// of the carried value.
    Invalid(&'static str, Value),

    /// A string failed to parse as an s-expression.
    ParseFailed,

    /// An s-expression was successfully parsed, but there was trailing input.
    ParseTrailing,

    /// An error converting bytes to UTF-8.
    Utf8(std::str::Utf8Error),
}

/// Relies on the Display implementation of std::io::Error, for
/// diagnostics only; nothing is stated of the text.
#[verifier::external_body]
fn io_error_text(e: &std::io::Error) -> String {
    e.to_string()
}

/// Relies on the Display implementation of std::str::Utf8Error, for
/// diagnostics only; nothing is stated of the text.
#[verifier::external_body]
fn utf8_error_text(e: &std::str::Utf8Error) -> String {
    e.to_string()
}

impl Error {
    /// The error's human-readable description.
    pub fn to_message(&self) -> (r: String)
        ensures
            match self {
                Error::Custom(s) => r@ == s@,
                Error::Invalid(n, v) => r@ == crate::printer::print_value(v@) + " is not a "@
                    + n@,
                Error::ParseFailed => r@ == "parsing s-expression failed"@,
                Error::ParseTrailing => r@ == "parsing s-expression failed (trailing input)"@,
                _ => true,
            },
    {
        match self {
            Error::Custom(s) => s.clone(),
            Error::Io(e) => io_error_text(e),
            Error::Invalid(n, v) => {
                let mut out = v.to_text();
                out.append(" is not a ");
                out.append(n);
                out
            }
            Error::ParseFailed => "parsing s-expression failed".to_owned(),
            Error::ParseTrailing => "parsing s-expression failed (trailing input)".to_owned(),
            Error::Utf8(e) => utf8_error_text(e),
        }
    }
}

impl From<std::io::Error> for Error {
    /// An I/O error wraps into the `Io` variant.
    fn from(e: std::io::Error) -> (r: Error) {
        Error::Io(e)
    }
}

impl vstd::std_specs::convert::FromSpecImpl<std::io::Error> for Error {
    open spec fn obeys_from_spec() -> bool {
        true
    }

    open spec fn from_spec(e: std::io::Error) -> Error {
        Error::Io(e)
    }
}

impl From<std::str::Utf8Error> for Error {
    /// A UTF-8 decoding error wraps into the `Utf8` variant.
    fn from(e: std::str::Utf8Error) -> (r: Error) {
        Error::Utf8(e)
    }
}

impl vstd::std_specs::convert::FromSpecImpl<std::str::Utf8Error> for Error {
    open spec fn obeys_from_spec() -> bool {
        true
    }

    open spec fn from_spec(e: std::str::Utf8Error) -> Error {
        Error::Utf8(e)
    }
}

} // verus!
