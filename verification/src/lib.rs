//! An S-expression data-interchange codec.
//!
//! The grammar is parenthesized lists of symbols; a symbol containing
//! whitespace or one of `(`, `)`, `|`, `\` is printed delimited by `|`
//! characters with those characters escaped by a backslash.

use vstd::prelude::*;

mod de;
mod error;
mod numbers;
mod parser;
mod printer;
mod roundtrip;
mod ser;
mod value;

pub use de::MapAccess;
pub use de::SeqAccess;
pub use error::Error;
pub use numbers::format_bool;
pub use numbers::format_i64;
pub use numbers::format_u64;
pub use numbers::parse_bool_text;
pub use numbers::parse_char_text;
pub use numbers::parse_sint_text;
pub use numbers::parse_uint_text;
pub use numbers::spec_bool_text;
pub use numbers::spec_dec_nat;
pub use numbers::spec_int_text;
pub use numbers::spec_parse_bool;
pub use numbers::spec_parse_sint;
pub use numbers::spec_parse_uint;
pub use parser::ParseOutcome;
pub use parser::parse_document;
pub use parser::parse_items;
pub use parser::parse_more_items;
pub use parser::parse_sym_body;
pub use parser::parse_value;
pub use parser::skip_ws;
pub use parser::take_bare;
pub use roundtrip::lemma_bare_symbol_agreement;
pub use roundtrip::lemma_empty_list_ambiguity;
pub use roundtrip::lemma_parse_print_roundtrip;
pub use roundtrip::lemma_print_parse_print;
pub use printer::escape_char;
pub use printer::escape_sym;
pub use printer::is_bare_sym;
pub use printer::print_items;
pub use printer::print_tail;
pub use printer::print_value;
pub use ser::ListSerializer;
pub use ser::MapSerializer;
pub use ser::Serializer;
pub use ser::serialize_generic;
pub use value::SpecValue;
pub use value::Value;
pub use value::value_model;
pub use value::values_model;

verus! {

/// Whether the character has the Unicode White_Space property, the
/// classification `char::is_whitespace` uses.
pub open spec fn spec_is_whitespace(c: char) -> bool {
    ||| c == '\u{0009}'
    ||| c == '\u{000A}'
    ||| c == '\u{000B}'
    ||| c == '\u{000C}'
    ||| c == '\u{000D}'
    ||| c == ' '
    ||| c == '\u{0085}'
    ||| c == '\u{00A0}'
    ||| c == '\u{1680}'
    ||| c == '\u{2000}'
    ||| c == '\u{2001}'
    ||| c == '\u{2002}'
    ||| c == '\u{2003}'
    ||| c == '\u{2004}'
    ||| c == '\u{2005}'
    ||| c == '\u{2006}'
    ||| c == '\u{2007}'
    ||| c == '\u{2008}'
    ||| c == '\u{2009}'
    ||| c == '\u{200A}'
    ||| c == '\u{2028}'
    ||| c == '\u{2029}'
    ||| c == '\u{202F}'
    ||| c == '\u{205F}'
    ||| c == '\u{3000}'
}

/// A character is quoting-significant iff it is whitespace or one of
/// `(`, `)`, `|`, `\`.  This single predicate governs both where the
/// printer must escape and where the parser ends a bare symbol.
pub open spec fn spec_needs_quoting(c: char) -> bool {
    spec_is_whitespace(c) || c == '(' || c == ')' || c == '|' || c == '\\'
}

/// Returns whether the given character is whitespace.
pub fn is_whitespace_char(c: char) -> (r: bool)
    ensures
        r == spec_is_whitespace(c),
{
    match c {
        '\u{0009}' | '\u{000A}' | '\u{000B}' | '\u{000C}' | '\u{000D}' | ' ' | '\u{0085}'
        | '\u{00A0}' | '\u{1680}' | '\u{2000}' | '\u{2001}' | '\u{2002}' | '\u{2003}'
        | '\u{2004}' | '\u{2005}' | '\u{2006}' | '\u{2007}' | '\u{2008}' | '\u{2009}'
        | '\u{200A}' | '\u{2028}' | '\u{2029}' | '\u{202F}' | '\u{205F}' | '\u{3000}' => true,
        _ => false,
    }
}

/// Returns whether the given character needs quoting.
pub fn needs_quoting(c: char) -> (r: bool)
    ensures
        r == spec_needs_quoting(c),
{
    is_whitespace_char(c) || c == '(' || c == ')' || c == '|' || c == '\\'
}

} // verus!
