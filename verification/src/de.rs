//! Interpreting an s-expression tree as typed data.
//!
//! Each function validates one shape request against a tree: scalars come
//! from symbols via their text-parsing rules, sequences and maps from
//! lists, union cases from a symbol or from a list headed by the case
//! name.  An empty list stands at once for an absent optional value, a
//! unit, and an empty sequence; deserializing `()` against any of those
//! three shapes succeeds with that shape's empty value.

use vstd::prelude::*;

use crate::error::Error;
use crate::numbers::parse_bool_text;
use crate::numbers::parse_char_text;
use crate::numbers::parse_sint_text;
use crate::numbers::parse_uint_text;
use crate::numbers::spec_parse_bool;
use crate::numbers::spec_parse_sint;
use crate::numbers::spec_parse_uint;
use crate::value::SpecValue;
use crate::value::Value;
use crate::value::values_model;
use crate::value::lemma_values_model;

verus! {

/// Relies on std::str::from_utf8: decodes the bytes exactly when they are
/// valid UTF-8, per vstd's UTF-8 model.
#[verifier::external_body]
pub(crate) fn utf8_to_str(b: &[u8]) -> (r: Result<&str, std::str::Utf8Error>)
    ensures
        match r {
            Ok(s) => vstd::utf8::valid_utf8(b@) && s@ == vstd::utf8::decode_utf8(b@),
            Err(_) => !vstd::utf8::valid_utf8(b@),
        },
{
    std::str::from_utf8(b)
}

impl Value {
    /// Extracts the symbol text a scalar shape reads its value from; a
    /// list is invalid for any scalar shape, reported under the shape's
    /// name.
    pub fn deserialize_generic(self, name: &'static str) -> (r: Result<String, Error>)
        ensures
            match r {
                Ok(s) => self@ == SpecValue::Sym(s@),
                Err(e) => self@ is List && (e matches Error::Invalid(n, v) && n@ == name@ && v@
                    == self@),
            },
    {
        match self {
            Value::Sym(s) => Ok(s),
            Value::List(l) => Err(Error::Invalid(name, Value::List(l))),
        }
    }

    /// Reads the tree as an optional value: the empty list is absent;
    /// anything else is present as itself.
    pub fn option_content(self) -> (r: Option<Value>)
        ensures
            match r {
                None => self@ == SpecValue::List(Seq::<SpecValue>::empty()),
                Some(v) => v@ == self@ && self@ != SpecValue::List(Seq::<SpecValue>::empty()),
            },
    {
        match self {
            Value::List(l) => {
                proof {
                    lemma_values_model(l@);
                }
                if l.len() == 0 {
                    proof {
                        assert(values_model(l@) =~= Seq::<SpecValue>::empty());
                    }
                    None
                } else {
                    Some(Value::List(l))
                }
            }
            Value::Sym(s) => Some(Value::Sym(s)),
        }
    }

    /// Reads the tree as a unit: only the empty list qualifies.
    pub fn expect_unit(self) -> (r: Result<(), Error>)
        ensures
            match r {
                Ok(u) => self@ == SpecValue::List(Seq::<SpecValue>::empty()),
                Err(e) => self@ != SpecValue::List(Seq::<SpecValue>::empty()) && (e
                    matches Error::Invalid(n, v) && n@ == "unit"@ && v@ == self@),
            },
    {
        match self {
            Value::List(l) => {
                proof {
                    lemma_values_model(l@);
                }
                if l.len() == 0 {
                    proof {
                        assert(values_model(l@) =~= Seq::<SpecValue>::empty());
                    }
                    Ok(())
                } else {
                    Err(Error::Invalid("unit", Value::List(l)))
                }
            }
            Value::Sym(s) => Err(Error::Invalid("unit", Value::Sym(s))),
        }
    }

    /// Reads the tree as a sequence of elements: only a list qualifies;
    /// the mismatch is reported under the requesting shape's name.
    pub fn into_elements(self, name: &'static str) -> (r: Result<Vec<Value>, Error>)
        ensures
            match r {
                Ok(l) => self@ == SpecValue::List(values_model(l@)),
                Err(e) => self@ is Sym && (e matches Error::Invalid(n, v) && n@ == name@ && v@
                    == self@),
            },
    {
        match self {
            Value::List(l) => Ok(l),
            Value::Sym(s) => Err(Error::Invalid(name, Value::Sym(s))),
        }
    }

    /// Splits the tree into a tagged-union case name and its payload: a
    /// symbol names a case with no payload; a non-empty list yields its
    /// head and the remaining elements; an empty list names no case and
    /// is invalid.
    pub fn into_variant_parts(self) -> (r: Result<(Value, Option<Vec<Value>>), Error>)
        ensures
            match r {
                Ok((tag, payload)) => match payload {
                    None => self@ is Sym && tag@ == self@,
                    Some(p) => self@ matches SpecValue::List(l) && l.len() > 0 && tag@ == l[0]
                        && values_model(p@) == l.drop_first(),
                },
                Err(e) => self@ == SpecValue::List(Seq::<SpecValue>::empty()) && (e
                    matches Error::Invalid(n, v) && n@ == "enum"@ && v@ == self@),
            },
    {
        match self {
            Value::List(l) => {
                proof {
                    lemma_values_model(l@);
                }
                if l.len() == 0 {
                    proof {
                        assert(values_model(l@) =~= Seq::<SpecValue>::empty());
                    }
                    Err(Error::Invalid("enum", Value::List(l)))
                } else {
                    let mut rest = l;
                    let tag = rest.remove(0);
                    proof {
                        let old_l = rest@.insert(0, tag);
                        lemma_values_model(rest@);
                        lemma_values_model(old_l);
                        assert(values_model(rest@) =~= values_model(old_l).drop_first());
                    }
                    Ok((tag, Some(rest)))
                }
            }
            Value::Sym(s) => Ok((Value::Sym(s), None)),
        }
    }

    /// Parses the bytes as UTF-8 text and then as a document.
    pub fn parse_bytes(b: &[u8]) -> (r: Result<Value, Error>)
        ensures
            match r {
                Ok(v) => vstd::utf8::valid_utf8(b@) && crate::parser::parse_document(
                    vstd::utf8::decode_utf8(b@),
                ) == crate::parser::ParseOutcome::Parsed(v@),
                Err(e) => match e {
                    Error::Utf8(u) => !vstd::utf8::valid_utf8(b@),
                    Error::ParseFailed => vstd::utf8::valid_utf8(b@) && crate::parser::parse_document(
                        vstd::utf8::decode_utf8(b@),
                    ) is Failed,
                    Error::ParseTrailing => vstd::utf8::valid_utf8(b@)
                        && crate::parser::parse_document(vstd::utf8::decode_utf8(b@)) is Trailing,
                    _ => false,
                },
            },
    {
        match utf8_to_str(b) {
            Ok(s) => Value::parse_text(s),
            Err(e) => Err(Error::Utf8(e)),
        }
    }

    /// Reads the tree as a boolean via the boolean text-parsing rule.
    pub fn parse_as_bool(self) -> (r: Result<bool, Error>)
        ensures
            match r {
                Ok(b) => self@ matches SpecValue::Sym(t) && spec_parse_bool(t) == Some(b),
                Err(e) => (self@ is List || (self@ matches SpecValue::Sym(t) && spec_parse_bool(t)
                    is None)) && (e matches Error::Invalid(n, v) && n@ == "bool"@ && v@ == self@),
            },
    {
        match self {
            Value::List(l) => Err(Error::Invalid("bool", Value::List(l))),
            Value::Sym(t) => match parse_bool_text(t.as_str()) {
                Some(b) => Ok(b),
                None => Err(Error::Invalid("bool", Value::Sym(t))),
            },
        }
    }

    /// Reads the tree as a `u8` via the unsigned-integer text rule.
    pub fn parse_as_u8(self) -> (r: Result<u8, Error>)
        ensures
            match r {
                Ok(v) => self@ matches SpecValue::Sym(t) && spec_parse_uint(t, u8::MAX as int)
                    == Some(v as int),
                Err(e) => (self@ is List || (self@ matches SpecValue::Sym(t) && spec_parse_uint(
                    t,
                    u8::MAX as int,
                ) is None)) && (e matches Error::Invalid(n, v) && n@ == "u8"@ && v@ == self@),
            },
    {
        match self {
            Value::List(l) => Err(Error::Invalid("u8", Value::List(l))),
            Value::Sym(t) => match parse_uint_text(t.as_str(), u8::MAX as u64) {
                Some(v) => Ok(v as u8),
                None => Err(Error::Invalid("u8", Value::Sym(t))),
            },
        }
    }

    /// Reads the tree as a `u16` via the unsigned-integer text rule.
    pub fn parse_as_u16(self) -> (r: Result<u16, Error>)
        ensures
            match r {
                Ok(v) => self@ matches SpecValue::Sym(t) && spec_parse_uint(t, u16::MAX as int)
                    == Some(v as int),
                Err(e) => (self@ is List || (self@ matches SpecValue::Sym(t) && spec_parse_uint(
                    t,
                    u16::MAX as int,
                ) is None)) && (e matches Error::Invalid(n, v) && n@ == "u16"@ && v@ == self@),
            },
    {
        match self {
            Value::List(l) => Err(Error::Invalid("u16", Value::List(l))),
            Value::Sym(t) => match parse_uint_text(t.as_str(), u16::MAX as u64) {
                Some(v) => Ok(v as u16),
                None => Err(Error::Invalid("u16", Value::Sym(t))),
            },
        }
    }

    /// Reads the tree as a `u32` via the unsigned-integer text rule.
    pub fn parse_as_u32(self) -> (r: Result<u32, Error>)
        ensures
            match r {
                Ok(v) => self@ matches SpecValue::Sym(t) && spec_parse_uint(t, u32::MAX as int)
                    == Some(v as int),
                Err(e) => (self@ is List || (self@ matches SpecValue::Sym(t) && spec_parse_uint(
                    t,
                    u32::MAX as int,
                ) is None)) && (e matches Error::Invalid(n, v) && n@ == "u32"@ && v@ == self@),
            },
    {
        match self {
            Value::List(l) => Err(Error::Invalid("u32", Value::List(l))),
            Value::Sym(t) => match parse_uint_text(t.as_str(), u32::MAX as u64) {
                Some(v) => Ok(v as u32),
                None => Err(Error::Invalid("u32", Value::Sym(t))),
            },
        }
    }

    /// Reads the tree as a `u64` via the unsigned-integer text rule.
    pub fn parse_as_u64(self) -> (r: Result<u64, Error>)
        ensures
            match r {
                Ok(v) => self@ matches SpecValue::Sym(t) && spec_parse_uint(t, u64::MAX as int)
                    == Some(v as int),
                Err(e) => (self@ is List || (self@ matches SpecValue::Sym(t) && spec_parse_uint(
                    t,
                    u64::MAX as int,
                ) is None)) && (e matches Error::Invalid(n, v) && n@ == "u64"@ && v@ == self@),
            },
    {
        match self {
            Value::List(l) => Err(Error::Invalid("u64", Value::List(l))),
            Value::Sym(t) => match parse_uint_text(t.as_str(), u64::MAX) {
                Some(v) => Ok(v),
                None => Err(Error::Invalid("u64", Value::Sym(t))),
            },
        }
    }

    /// Reads the tree as an `i8` via the signed-integer text rule.
    pub fn parse_as_i8(self) -> (r: Result<i8, Error>)
        ensures
            match r {
                Ok(v) => self@ matches SpecValue::Sym(t) && spec_parse_sint(
                    t,
                    i8::MIN as int,
                    i8::MAX as int,
                ) == Some(v as int),
                Err(e) => (self@ is List || (self@ matches SpecValue::Sym(t) && spec_parse_sint(
                    t,
                    i8::MIN as int,
                    i8::MAX as int,
                ) is None)) && (e matches Error::Invalid(n, v) && n@ == "i8"@ && v@ == self@),
            },
    {
        match self {
            Value::List(l) => Err(Error::Invalid("i8", Value::List(l))),
            Value::Sym(t) => match parse_sint_text(t.as_str(), i8::MIN as i64, i8::MAX as i64) {
                Some(v) => Ok(v as i8),
                None => Err(Error::Invalid("i8", Value::Sym(t))),
            },
        }
    }

    /// Reads the tree as an `i16` via the signed-integer text rule.
    pub fn parse_as_i16(self) -> (r: Result<i16, Error>)
        ensures
            match r {
                Ok(v) => self@ matches SpecValue::Sym(t) && spec_parse_sint(
                    t,
                    i16::MIN as int,
                    i16::MAX as int,
                ) == Some(v as int),
                Err(e) => (self@ is List || (self@ matches SpecValue::Sym(t) && spec_parse_sint(
                    t,
                    i16::MIN as int,
                    i16::MAX as int,
                ) is None)) && (e matches Error::Invalid(n, v) && n@ == "i16"@ && v@ == self@),
            },
    {
        match self {
            Value::List(l) => Err(Error::Invalid("i16", Value::List(l))),
            Value::Sym(t) => match parse_sint_text(t.as_str(), i16::MIN as i64, i16::MAX as i64) {
                Some(v) => Ok(v as i16),
                None => Err(Error::Invalid("i16", Value::Sym(t))),
            },
        }
    }

    /// Reads the tree as an `i32` via the signed-integer text rule.
    pub fn parse_as_i32(self) -> (r: Result<i32, Error>)
        ensures
            match r {
                Ok(v) => self@ matches SpecValue::Sym(t) && spec_parse_sint(
                    t,
                    i32::MIN as int,
                    i32::MAX as int,
                ) == Some(v as int),
                Err(e) => (self@ is List || (self@ matches SpecValue::Sym(t) && spec_parse_sint(
                    t,
                    i32::MIN as int,
                    i32::MAX as int,
                ) is None)) && (e matches Error::Invalid(n, v) && n@ == "i32"@ && v@ == self@),
            },
    {
        match self {
            Value::List(l) => Err(Error::Invalid("i32", Value::List(l))),
            Value::Sym(t) => match parse_sint_text(t.as_str(), i32::MIN as i64, i32::MAX as i64) {
                Some(v) => Ok(v as i32),
                None => Err(Error::Invalid("i32", Value::Sym(t))),
            },
        }
    }

    /// Reads the tree as an `i64` via the signed-integer text rule.
    pub fn parse_as_i64(self) -> (r: Result<i64, Error>)
        ensures
            match r {
                Ok(v) => self@ matches SpecValue::Sym(t) && spec_parse_sint(
                    t,
                    i64::MIN as int,
                    i64::MAX as int,
                ) == Some(v as int),
                Err(e) => (self@ is List || (self@ matches SpecValue::Sym(t) && spec_parse_sint(
                    t,
                    i64::MIN as int,
                    i64::MAX as int,
                ) is None)) && (e matches Error::Invalid(n, v) && n@ == "i64"@ && v@ == self@),
            },
    {
        match self {
            Value::List(l) => Err(Error::Invalid("i64", Value::List(l))),
            Value::Sym(t) => match parse_sint_text(t.as_str(), i64::MIN, i64::MAX) {
                Some(v) => Ok(v),
                None => Err(Error::Invalid("i64", Value::Sym(t))),
            },
        }
    }

    /// Reads the tree as a character: a symbol of exactly one character.
    pub fn parse_as_char(self) -> (r: Result<char, Error>)
        ensures
            match r {
                Ok(c) => self@ == SpecValue::Sym(seq![c]),
                Err(e) => (self@ is List || (self@ matches SpecValue::Sym(t) && t.len() != 1)) && (
                e matches Error::Invalid(n, v) && n@ == "char"@ && v@ == self@),
            },
    {
        match self {
            Value::List(l) => Err(Error::Invalid("char", Value::List(l))),
            Value::Sym(t) => match parse_char_text(t.as_str()) {
                Some(c) => Ok(c),
                None => Err(Error::Invalid("char", Value::Sym(t))),
            },
        }
    }
}

/// Hands out a list's elements in order, as the framework asks for the
/// next element of a sequence.
pub struct SeqAccess {
    items: Vec<Value>,
}

impl SeqAccess {
    /// The elements not yet handed out, in order.
    pub closed spec fn remaining(&self) -> Seq<SpecValue> {
        values_model(self.items@)
    }

    /// Starts handing out the given elements.
    pub fn new(items: Vec<Value>) -> (r: SeqAccess)
        ensures
            r.remaining() == values_model(items@),
    {
        SeqAccess { items }
    }

    /// The next element, if any remain.
    pub fn next_element(&mut self) -> (r: Option<Value>)
        ensures
            match r {
                Some(v) => old(self).remaining().len() > 0 && v@ == old(self).remaining()[0]
                    && final(self).remaining() == old(self).remaining().drop_first(),
                None => old(self).remaining().len() == 0 && final(self).remaining() == old(self).remaining(),
            },
    {
        proof {
            lemma_values_model(self.items@);
        }
        if self.items.len() == 0 {
            None
        } else {
            let v = self.items.remove(0);
            proof {
                let old_items = self.items@.insert(0, v);
                lemma_values_model(self.items@);
                lemma_values_model(old_items);
                assert(values_model(self.items@) =~= values_model(old_items).drop_first());
            }
            Some(v)
        }
    }
}

/// Hands out a list's `[key value]` pairs, as the framework asks
/// alternately for the next key and the next value of a map.
pub struct MapAccess {
    entries: Vec<Value>,
    pending: Option<Value>,
}

impl MapAccess {
    /// The entries not yet handed out, in order.
    pub closed spec fn remaining_entries(&self) -> Seq<SpecValue> {
        values_model(self.entries@)
    }

    /// The value of the entry whose key was handed out but whose value
    /// was not yet asked for.
    pub closed spec fn pending_value(&self) -> Option<SpecValue> {
        match self.pending {
            Some(v) => Some(v@),
            None => None,
        }
    }

    /// Starts handing out the given entries.
    pub fn new(entries: Vec<Value>) -> (r: MapAccess)
        ensures
            r.remaining_entries() == values_model(entries@),
            r.pending_value() is None,
    {
        MapAccess { entries, pending: None }
    }

    /// Returns whether an entry's value is held back awaiting
    /// `next_value`.
    pub fn has_pending_value(&self) -> (r: bool)
        ensures
            r == (self.pending_value() is Some),
    {
        self.pending.is_some()
    }

    /// The next entry's key, if any entries remain; the entry's value is
    /// held back for `next_value`.  An entry that is not a two-element
    /// list is invalid as a pair.
    pub fn next_key(&mut self) -> (r: Result<Option<Value>, Error>)
        requires
            old(self).pending_value() is None,
        ensures
            match r {
                Ok(o) => match o {
                    None => old(self).remaining_entries().len() == 0 && *final(self) == *old(
                        self),
                    Some(k) => {
                        &&& old(self).remaining_entries().len() > 0
                        &&& old(self).remaining_entries()[0] matches SpecValue::List(p) && p.len()
                            == 2 && k@ == p[0] && final(self).pending_value() == Some(p[1])
                        &&& final(self).remaining_entries() == old(self).remaining_entries().drop_first()
                    },
                },
                Err(e) => {
                    &&& old(self).remaining_entries().len() > 0
                    &&& !(old(self).remaining_entries()[0] matches SpecValue::List(p) && p.len()
                        == 2)
                    &&& e matches Error::Invalid(n, v) && n@ == "pair"@ && v@ == old(self).remaining_entries()[0]
                    &&& final(self).remaining_entries() == old(self).remaining_entries().drop_first()
                    &&& final(self).pending_value() is None
                },
            },
    {
        proof {
            lemma_values_model(self.entries@);
        }
        if self.entries.len() == 0 {
            return Ok(None);
        }
        let entry = self.entries.remove(0);
        proof {
            let old_entries = self.entries@.insert(0, entry);
            lemma_values_model(self.entries@);
            lemma_values_model(old_entries);
            assert(values_model(self.entries@) =~= values_model(old_entries).drop_first());
        }
        match entry {
            Value::List(pair) => {
                proof {
                    lemma_values_model(pair@);
                }
                if pair.len() == 2 {
                    let mut pair = pair;
                    let value = pair.pop().unwrap();
                    let key = pair.pop().unwrap();
                    self.pending = Some(value);
                    Ok(Some(key))
                } else {
                    Err(Error::Invalid("pair", Value::List(pair)))
                }
            }
            Value::Sym(t) => Err(Error::Invalid("pair", Value::Sym(t))),
        }
    }

    /// The held-back value of the entry whose key was last handed out.
    pub fn next_value(&mut self) -> (r: Value)
        requires
            old(self).pending_value() is Some,
        ensures
            Some(r@) == old(self).pending_value(),
            final(self).pending_value() is None,
            final(self).remaining_entries() == old(self).remaining_entries(),
    {
        let v = self.pending.take().unwrap();
        v
    }
}

} // verus!
