//! Building an s-expression tree from typed data.
//!
//! Scalars become symbols holding their canonical display text; absent
//! optional values, units, and zero-field records become the empty list;
//! sequences and tuples collect their elements into a list; keyed
//! mappings and named-field records collect two-element `[key value]`
//! lists; tagged-union cases are the case name, alone for an empty
//! payload or heading a list otherwise.

use vstd::prelude::*;

use crate::error::Error;
use crate::numbers::format_bool;
use crate::numbers::format_i64;
use crate::numbers::format_u64;
use crate::numbers::spec_bool_text;
use crate::numbers::spec_dec_nat;
use crate::numbers::spec_int_text;
use crate::value::SpecValue;
use crate::value::Value;
use crate::value::value_model;
use crate::value::values_model;
use crate::value::lemma_values_model;
use crate::de::utf8_to_str;

verus! {

/// Relies on String::push: appends exactly the given character.
#[verifier::external_body]
fn push_char(s: &mut String, c: char)
    ensures
        final(s)@ == old(s)@.push(c),
{
    s.push(c);
}

/// Wraps a scalar's canonical display text as a symbol.
pub fn serialize_generic(text: String) -> (r: Result<Value, Error>)
    ensures
        r matches Ok(v) && v@ == SpecValue::Sym(text@),
{
    Ok(Value::Sym(text))
}

/// A serializer for s-expressions: each method builds the tree for one
/// typed shape.
#[derive(Debug)]
pub struct Serializer;

impl Serializer {
    /// A boolean's symbol: its canonical text.
    pub fn serialize_bool(self, v: bool) -> (r: Value)
        ensures
            r@ == SpecValue::Sym(spec_bool_text(v)),
    {
        Value::Sym(format_bool(v))
    }

    /// An unsigned integer's symbol: its decimal text.
    pub fn serialize_u64(self, v: u64) -> (r: Value)
        ensures
            r@ == SpecValue::Sym(spec_dec_nat(v as nat)),
    {
        Value::Sym(format_u64(v))
    }

    /// A signed integer's symbol: its decimal text.
    pub fn serialize_i64(self, v: i64) -> (r: Value)
        ensures
            r@ == SpecValue::Sym(spec_int_text(v as int)),
    {
        Value::Sym(format_i64(v))
    }

    /// A character's symbol: the character itself.
    pub fn serialize_char(self, c: char) -> (r: Value)
        ensures
            r@ == SpecValue::Sym(seq![c]),
    {
        let mut s = String::new();
        push_char(&mut s, c);
        proof {
            assert(s@ =~= seq![c]);
        }
        Value::Sym(s)
    }

    /// A string's symbol: the string itself.
    pub fn serialize_str(self, v: &str) -> (r: Value)
        ensures
            r@ == SpecValue::Sym(v@),
    {
        Value::Sym(v.to_owned())
    }

    /// A byte sequence's symbol: its UTF-8 decoding; bytes that are not
    /// valid text cannot be represented.
    pub fn serialize_bytes(self, v: &[u8]) -> (r: Result<Value, Error>)
        ensures
            match r {
                Ok(val) => vstd::utf8::valid_utf8(v@) && val@ == SpecValue::Sym(
                    vstd::utf8::decode_utf8(v@),
                ),
                Err(e) => !vstd::utf8::valid_utf8(v@) && e is Utf8,
            },
    {
        match utf8_to_str(v) {
            Ok(s) => Ok(Value::Sym(s.to_owned())),
            Err(e) => Err(Error::Utf8(e)),
        }
    }

    /// A unit's tree: the empty list.
    pub fn serialize_unit(self) -> (r: Value)
        ensures
            r@ == SpecValue::List(Seq::<SpecValue>::empty()),
    {
        let items: Vec<Value> = Vec::new();
        proof {
            assert(values_model(items@) =~= Seq::<SpecValue>::empty());
        }
        Value::List(items)
    }

    /// An absent optional value's tree: the empty list, identical to a
    /// unit's and to an empty sequence's.
    pub fn serialize_none(self) -> (r: Value)
        ensures
            r@ == SpecValue::List(Seq::<SpecValue>::empty()),
    {
        self.serialize_unit()
    }

    /// A payload-free union case's tree: a symbol holding the case name.
    pub fn serialize_unit_variant(self, variant: &str) -> (r: Value)
        ensures
            r@ == SpecValue::Sym(variant@),
    {
        Value::Sym(variant.to_owned())
    }

    /// A single-payload union case's tree: the case name heading a
    /// two-element list.
    pub fn serialize_newtype_variant(self, variant: &str, value: Value) -> (r: Value)
        ensures
            r@ == SpecValue::List(seq![SpecValue::Sym(variant@), value@]),
    {
        let mut items: Vec<Value> = Vec::new();
        items.push(Value::Sym(variant.to_owned()));
        items.push(value);
        proof {
            lemma_values_model(items@);
            assert(values_model(items@) =~= seq![SpecValue::Sym(variant@), value@]);
        }
        Value::List(items)
    }

    /// Starts collecting a sequence's or tuple's elements.
    pub fn serialize_seq(self) -> (r: ListSerializer)
        ensures
            r.collected() == Seq::<SpecValue>::empty(),
    {
        ListSerializer::new()
    }

    /// Starts collecting a multi-payload union case: the case name first.
    pub fn serialize_tuple_variant(self, variant: &str) -> (r: ListSerializer)
        ensures
            r.collected() == seq![SpecValue::Sym(variant@)],
    {
        ListSerializer::new_tagged(variant)
    }

    /// Starts collecting a keyed mapping's or named-field record's pairs.
    pub fn serialize_map(self) -> (r: MapSerializer)
        ensures
            r.collected() == Seq::<SpecValue>::empty(),
            r.pending_key() is None,
    {
        MapSerializer::new()
    }

    /// Starts collecting a named-field union case: the case name first.
    pub fn serialize_struct_variant(self, variant: &str) -> (r: MapSerializer)
        ensures
            r.collected() == seq![SpecValue::Sym(variant@)],
            r.pending_key() is None,
    {
        MapSerializer::new_tagged(variant)
    }
}

/// Collects a sequence's elements into a list, as the framework hands
/// them over one by one.
#[derive(Debug)]
pub struct ListSerializer {
    items: Vec<Value>,
}

impl ListSerializer {
    /// The elements collected so far, in order.
    pub closed spec fn collected(&self) -> Seq<SpecValue> {
        values_model(self.items@)
    }

    /// Starts with no elements.
    pub fn new() -> (r: ListSerializer)
        ensures
            r.collected() == Seq::<SpecValue>::empty(),
    {
        let items: Vec<Value> = Vec::new();
        proof {
            assert(values_model(items@) =~= Seq::<SpecValue>::empty());
        }
        ListSerializer { items }
    }

    /// Starts with a union case's name as the first element.
    pub fn new_tagged(variant: &str) -> (r: ListSerializer)
        ensures
            r.collected() == seq![SpecValue::Sym(variant@)],
    {
        let mut items: Vec<Value> = Vec::new();
        items.push(Value::Sym(variant.to_owned()));
        proof {
            lemma_values_model(items@);
            assert(values_model(items@) =~= seq![SpecValue::Sym(variant@)]);
        }
        ListSerializer { items }
    }

    /// Appends one element.
    pub fn serialize_element(&mut self, value: Value)
        ensures
            final(self).collected() == old(self).collected().push(value@),
    {
        let ghost old_items = self.items@;
        self.items.push(value);
        proof {
            assert(self.items@.drop_last() =~= old_items);
        }
    }

    /// Finishes: the collected elements as a list.
    pub fn end(self) -> (r: Value)
        ensures
            r@ == SpecValue::List(self.collected()),
    {
        Value::List(self.items)
    }
}

/// Collects a keyed mapping's entries into a list of two-element
/// `[key value]` lists, as the framework hands keys and values over
/// alternately.
#[derive(Debug)]
pub struct MapSerializer {
    entries: Vec<Value>,
    pending: Option<Value>,
}

impl MapSerializer {
    /// The entries collected so far, in order.
    pub closed spec fn collected(&self) -> Seq<SpecValue> {
        values_model(self.entries@)
    }

    /// The key handed over but not yet paired with its value.
    pub closed spec fn pending_key(&self) -> Option<SpecValue> {
        match self.pending {
            Some(k) => Some(k@),
            None => None,
        }
    }

    /// Starts with no entries.
    pub fn new() -> (r: MapSerializer)
        ensures
            r.collected() == Seq::<SpecValue>::empty(),
            r.pending_key() is None,
    {
        let entries: Vec<Value> = Vec::new();
        proof {
            assert(values_model(entries@) =~= Seq::<SpecValue>::empty());
        }
        MapSerializer { entries, pending: None }
    }

    /// Starts with a union case's name as the first element.
    pub fn new_tagged(variant: &str) -> (r: MapSerializer)
        ensures
            r.collected() == seq![SpecValue::Sym(variant@)],
            r.pending_key() is None,
    {
        let mut entries: Vec<Value> = Vec::new();
        entries.push(Value::Sym(variant.to_owned()));
        proof {
            lemma_values_model(entries@);
            assert(values_model(entries@) =~= seq![SpecValue::Sym(variant@)]);
        }
        MapSerializer { entries, pending: None }
    }

    /// Returns whether a key is held and awaiting its value.
    pub fn has_pending_key(&self) -> (r: bool)
        ensures
            r == (self.pending_key() is Some),
    {
        self.pending.is_some()
    }

    /// Holds a key until its value arrives.
    pub fn serialize_key(&mut self, key: Value)
        requires
            old(self).pending_key() is None,
        ensures
            final(self).pending_key() == Some(key@),
            final(self).collected() == old(self).collected(),
    {
        self.pending = Some(key);
    }

    /// Pairs the held key with its value and appends the entry.
    pub fn serialize_value(&mut self, value: Value)
        requires
            old(self).pending_key() is Some,
        ensures
            final(self).pending_key() is None,
            final(self).collected() == old(self).collected().push(
                SpecValue::List(seq![old(self).pending_key()->0, value@]),
            ),
    {
        let key = self.pending.take().unwrap();
        let mut pair: Vec<Value> = Vec::new();
        pair.push(key);
        pair.push(value);
        let ghost old_entries = self.entries@;
        let ghost pair_view = pair@;
        let entry = Value::List(pair);
        let ghost entry_snap = entry;
        self.entries.push(entry);
        proof {
            lemma_values_model(pair_view);
            assert(values_model(pair_view) =~= seq![old(self).pending_key()->0, value@]);
            assert(self.entries@.drop_last() =~= old_entries);
            assert(self.entries@.last() == entry_snap);
            assert(value_model(entry_snap) == SpecValue::List(values_model(pair_view)));
        }
    }

    /// Appends one entry: a key and its value at once.
    pub fn serialize_field(&mut self, key: Value, value: Value)
        requires
            old(self).pending_key() is None,
        ensures
            final(self).pending_key() is None,
            final(self).collected() == old(self).collected().push(
                SpecValue::List(seq![key@, value@]),
            ),
    {
        self.serialize_key(key);
        self.serialize_value(value);
    }

    /// Finishes: the collected entries as a list.
    pub fn end(self) -> (r: Value)
        requires
            self.pending_key() is None,
        ensures
            r@ == SpecValue::List(self.collected()),
    {
        Value::List(self.entries)
    }
}

} // verus!
