//! Tests for the mapping layers: building trees from typed shapes and
//! validating shape requests against trees.

use serde_sexpr::Error;
use serde_sexpr::ListSerializer;
use serde_sexpr::MapAccess;
use serde_sexpr::MapSerializer;
use serde_sexpr::SeqAccess;
use serde_sexpr::Serializer;
use serde_sexpr::Value;
use serde_sexpr::serialize_generic;

fn sym(s: &str) -> Value {
    Value::Sym(s.to_string())
}

#[test]
fn serialize_scalars() {
    assert_eq!(Serializer.serialize_bool(true).to_text(), "true");
    assert_eq!(Serializer.serialize_bool(false).to_text(), "false");
    assert_eq!(Serializer.serialize_u64(42).to_text(), "42");
    assert_eq!(Serializer.serialize_i64(-42).to_text(), "-42");
    assert_eq!(Serializer.serialize_char('%').to_text(), "%");
    assert_eq!(Serializer.serialize_str("s1").to_text(), "s1");
}

#[test]
fn serialize_generic_wraps_text() {
    assert_eq!(
        serialize_generic("123.45".to_string()).unwrap(),
        sym("123.45")
    );
}

#[test]
fn serialize_bytes_decodes_utf8() {
    assert_eq!(
        Serializer.serialize_bytes("héllo".as_bytes()).unwrap(),
        sym("héllo")
    );
}

#[test]
fn serialize_bytes_rejects_invalid_utf8() {
    assert!(matches!(
        Serializer.serialize_bytes(&[0xff, 0xfe]),
        Err(Error::Utf8(_))
    ));
}

#[test]
fn serialize_empty_shapes() {
    assert_eq!(Serializer.serialize_unit().to_text(), "()");
    assert_eq!(Serializer.serialize_none().to_text(), "()");
}

#[test]
fn serialize_variants() {
    assert_eq!(
        Serializer.serialize_unit_variant("UnitVariant").to_text(),
        "UnitVariant"
    );
    assert_eq!(
        Serializer
            .serialize_newtype_variant("NewtypeVariant", sym("42"))
            .to_text(),
        "(NewtypeVariant 42)"
    );
}

#[test]
fn collect_sequence() {
    let mut ls = Serializer.serialize_seq();
    ls.serialize_element(sym("uno"));
    ls.serialize_element(sym("dos"));
    ls.serialize_element(sym("tres"));
    assert_eq!(ls.end().to_text(), "(uno dos tres)");
}

#[test]
fn collect_empty_sequence() {
    assert_eq!(ListSerializer::new().end().to_text(), "()");
}

#[test]
fn collect_tuple_variant() {
    let mut ls = Serializer.serialize_tuple_variant("TupleVariant");
    ls.serialize_element(sym("42"));
    ls.serialize_element(sym("true"));
    assert_eq!(ls.end().to_text(), "(TupleVariant 42 true)");
}

#[test]
fn collect_map() {
    let mut ms = Serializer.serialize_map();
    ms.serialize_key(sym("1"));
    ms.serialize_value(sym("yi"));
    ms.serialize_field(sym("2"), sym("er"));
    assert_eq!(ms.end().to_text(), "((1 yi) (2 er))");
}

#[test]
fn collect_empty_map() {
    assert_eq!(MapSerializer::new().end().to_text(), "()");
}

#[test]
fn collect_struct_variant() {
    let mut ms = Serializer.serialize_struct_variant("StructVariant");
    ms.serialize_field(sym("foo"), sym("42"));
    ms.serialize_field(sym("bar"), sym("true"));
    assert_eq!(ms.end().to_text(), "(StructVariant (foo 42) (bar true))");
}

#[test]
fn scalar_shape_reads_symbol_text() {
    assert_eq!(sym("s1").deserialize_generic("string").unwrap(), "s1");
    assert!(matches!(
        Value::List(Vec::new()).deserialize_generic("string"),
        Err(Error::Invalid("string", _))
    ));
}

#[test]
fn optional_shape() {
    assert_eq!(Value::List(Vec::new()).option_content(), None);
    assert_eq!(sym("foo").option_content(), Some(sym("foo")));
    assert_eq!(
        Value::parse_text("(a)").unwrap().option_content(),
        Some(Value::parse_text("(a)").unwrap())
    );
}

#[test]
fn unit_shape() {
    assert!(Value::List(Vec::new()).expect_unit().is_ok());
    assert!(matches!(
        sym("x").expect_unit(),
        Err(Error::Invalid("unit", _))
    ));
    assert!(matches!(
        Value::parse_text("(a)").unwrap().expect_unit(),
        Err(Error::Invalid("unit", _))
    ));
}

#[test]
fn sequence_shape() {
    let l = Value::parse_text("(uno dos)").unwrap();
    let items = l.into_elements("sequence").unwrap();
    assert_eq!(items, vec![sym("uno"), sym("dos")]);
    assert!(matches!(
        sym("x").into_elements("sequence"),
        Err(Error::Invalid("sequence", _))
    ));
}

#[test]
fn sequence_access_hands_elements_in_order() {
    let mut sa = SeqAccess::new(vec![sym("a"), sym("b")]);
    assert_eq!(sa.next_element(), Some(sym("a")));
    assert_eq!(sa.next_element(), Some(sym("b")));
    assert_eq!(sa.next_element(), None);
    assert_eq!(sa.next_element(), None);
}

#[test]
fn map_access_hands_pairs_alternately() {
    let entries = Value::parse_text("((1 yi) (2 er))")
        .unwrap()
        .into_elements("map")
        .unwrap();
    let mut ma = MapAccess::new(entries);
    assert_eq!(ma.next_key().unwrap(), Some(sym("1")));
    assert_eq!(ma.next_value(), sym("yi"));
    assert_eq!(ma.next_key().unwrap(), Some(sym("2")));
    assert_eq!(ma.next_value(), sym("er"));
    assert_eq!(ma.next_key().unwrap(), None);
}

#[test]
fn map_state_is_observable() {
    let mut ms = MapSerializer::new();
    assert!(!ms.has_pending_key());
    ms.serialize_key(sym("k"));
    assert!(ms.has_pending_key());
    ms.serialize_value(sym("v"));
    assert!(!ms.has_pending_key());

    let mut ma = MapAccess::new(vec![Value::List(vec![sym("k"), sym("v")])]);
    assert!(!ma.has_pending_value());
    assert_eq!(ma.next_key().unwrap(), Some(sym("k")));
    assert!(ma.has_pending_value());
    assert_eq!(ma.next_value(), sym("v"));
    assert!(!ma.has_pending_value());
}

#[test]
fn map_access_rejects_non_pairs() {
    let mut ma = MapAccess::new(vec![sym("odd")]);
    assert!(matches!(ma.next_key(), Err(Error::Invalid("pair", _))));
    let mut ma = MapAccess::new(vec![Value::List(vec![sym("a")])]);
    assert!(matches!(ma.next_key(), Err(Error::Invalid("pair", _))));
    let mut ma = MapAccess::new(vec![Value::List(vec![sym("a"), sym("b"), sym("c")])]);
    assert!(matches!(ma.next_key(), Err(Error::Invalid("pair", _))));
}

#[test]
fn empty_list_serves_three_shapes() {
    // The ambiguity boundary: `()` deserializes as an absent optional, as
    // a unit, and as an empty sequence alike.
    assert_eq!(Value::parse_text("()").unwrap().option_content(), None);
    assert!(Value::parse_text("()").unwrap().expect_unit().is_ok());
    assert!(Value::parse_text("()")
        .unwrap()
        .into_elements("sequence")
        .unwrap()
        .is_empty());
}

#[test]
fn union_shape_from_symbol() {
    let (tag, payload) = sym("UnitVariant").into_variant_parts().unwrap();
    assert_eq!(tag, sym("UnitVariant"));
    assert!(payload.is_none());
}

#[test]
fn union_shape_from_list() {
    let v = Value::parse_text("(NewtypeVariant 42)").unwrap();
    let (tag, payload) = v.into_variant_parts().unwrap();
    assert_eq!(tag, sym("NewtypeVariant"));
    assert_eq!(payload.unwrap(), vec![sym("42")]);
}

#[test]
fn union_shape_rejects_empty_list() {
    assert!(matches!(
        Value::List(Vec::new()).into_variant_parts(),
        Err(Error::Invalid("enum", _))
    ));
}
