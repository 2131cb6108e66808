//! The laws relating the printer and the parser.
//!
//! Any tree the printer can render is recovered exactly by the parser, so
//! printing is also idempotent through a parse.  Both rest on the printer
//! and the parser sharing one quoting-significant predicate.

use vstd::prelude::*;

use crate::spec_is_whitespace;
use crate::spec_needs_quoting;
use crate::value::SpecValue;
use crate::printer::escape_sym;
use crate::printer::is_bare_sym;
use crate::printer::lemma_print_head;
use crate::printer::print_items;
use crate::printer::print_tail;
use crate::printer::print_value;
use crate::parser::ParseOutcome;
use crate::parser::lemma_take_bare;
use crate::parser::lemma_take_bare_at;
use crate::parser::parse_document;
use crate::parser::parse_items;
use crate::parser::parse_more_items;
use crate::parser::parse_sym_body;
use crate::parser::parse_value;
use crate::parser::skip_ws;
use crate::parser::take_bare;

verus! {

/// Parsing the escaped body of a printed symbol recovers the symbol's
/// characters and stops exactly at the closing bar.
proof fn lemma_parse_print_sym_body(sym: Seq<char>, rest: Seq<char>)
    ensures
        parse_sym_body(escape_sym(sym) + seq!['|'] + rest) == Some((sym, rest)),
    decreases sym.len(),
{
    let s = escape_sym(sym) + seq!['|'] + rest;
    if sym.len() == 0 {
        assert(s =~= seq!['|'] + rest);
        assert(s[0] == '|');
        assert(s.drop_first() =~= rest);
        assert(sym =~= Seq::<char>::empty());
    } else {
        let c = sym[0];
        let tail_s = escape_sym(sym.drop_first()) + seq!['|'] + rest;
        lemma_parse_print_sym_body(sym.drop_first(), rest);
        if spec_needs_quoting(c) {
            assert(s =~= seq!['\\', c] + tail_s);
            assert(s[0] == '\\');
            assert(s[0] != '|');
            assert(s.len() >= 2);
            assert(s[1] == c);
            assert(s.subrange(2, s.len() as int) =~= tail_s);
            assert(seq![c] + sym.drop_first() =~= sym);
        } else {
            assert(s =~= seq![c] + tail_s);
            assert(s[0] == c);
            assert(s.drop_first() =~= tail_s);
            assert(seq![c] + sym.drop_first() =~= sym);
        }
    }
}

/// Parsing printed text followed by a terminator recovers the printed
/// value and consumes exactly its text.  The terminator condition is what
/// the printer guarantees around every rendered child: either nothing
/// follows, or a quoting-significant character (a space or a close paren)
/// does.
proof fn lemma_parse_print_value(v: SpecValue, rest: Seq<char>)
    requires
        rest.len() == 0 || spec_needs_quoting(rest[0]),
    ensures
        parse_value(print_value(v) + rest) == Some((v, rest)),
    decreases v, 0int,
{
    let s = print_value(v) + rest;
    lemma_print_head(v);
    match v {
        SpecValue::Sym(sym) => {
            if is_bare_sym(sym) {
                assert(s =~= sym + rest);
                assert(s[0] == sym[0]);
                assert(!spec_needs_quoting(s[0]));
                assert(s[0] != '(' && s[0] != '|');
                assert(forall|j: int| 0 <= j < sym.len() ==> !spec_needs_quoting(s[j]));
                lemma_take_bare_at(s, sym.len() as int);
                assert(s.subrange(0, sym.len() as int) =~= sym);
                assert(s.subrange(sym.len() as int, s.len() as int) =~= rest);
            } else {
                assert(s =~= seq!['|'] + (escape_sym(sym) + seq!['|'] + rest));
                assert(s[0] == '|');
                assert(s[0] != '(');
                assert(s.drop_first() =~= escape_sym(sym) + seq!['|'] + rest);
                lemma_parse_print_sym_body(sym, rest);
            }
        }
        SpecValue::List(l) => {
            assert(s =~= seq!['('] + (print_items(l) + seq![')'] + rest));
            assert(s[0] == '(');
            assert(s.drop_first() =~= print_items(l) + seq![')'] + rest);
            lemma_parse_print_items(l, rest);
        }
    }
}

/// Parsing a printed list body recovers the children and consumes the
/// closing paren.
proof fn lemma_parse_print_items(l: Seq<SpecValue>, rest: Seq<char>)
    ensures
        parse_items(print_items(l) + seq![')'] + rest) == Some((l, rest)),
    decreases l, 1int,
{
    let s = print_items(l) + seq![')'] + rest;
    if l.len() == 0 {
        assert(s =~= seq![')'] + rest);
        assert(s[0] == ')');
        assert(s.drop_first() =~= rest);
        assert(l =~= Seq::<SpecValue>::empty());
    } else {
        let ldf = l.drop_first();
        let tail = print_tail(ldf) + seq![')'] + rest;
        assert(s =~= print_value(l[0]) + tail);
        lemma_print_head(l[0]);
        assert(s[0] == print_value(l[0])[0]);
        assert(s[0] != ')');
        if ldf.len() == 0 {
            assert(tail =~= seq![')'] + rest);
            assert(tail[0] == ')');
        } else {
            assert(tail[0] == ' ');
        }
        assert(spec_needs_quoting(tail[0]));
        lemma_parse_print_value(l[0], tail);
        assert(tail.len() < s.len());
        lemma_parse_print_more(ldf, rest);
        assert(seq![l[0]] + ldf =~= l);
    }
}

/// Parsing a printed list body after its first child recovers the
/// remaining children and consumes the closing paren.
proof fn lemma_parse_print_more(l: Seq<SpecValue>, rest: Seq<char>)
    ensures
        parse_more_items(print_tail(l) + seq![')'] + rest) == Some((l, rest)),
    decreases l, 2int,
{
    let s = print_tail(l) + seq![')'] + rest;
    if l.len() == 0 {
        assert(s =~= seq![')'] + rest);
        assert(s[0] == ')');
        assert(s.drop_first() =~= rest);
        assert(l =~= Seq::<SpecValue>::empty());
    } else {
        let ldf = l.drop_first();
        let tail = print_tail(ldf) + seq![')'] + rest;
        assert(s =~= seq![' '] + (print_value(l[0]) + tail));
        assert(s[0] == ' ');
        assert(s[0] != ')');
        assert(spec_is_whitespace(s[0]));
        lemma_print_head(l[0]);
        assert(s.drop_first() =~= print_value(l[0]) + tail);
        let after = print_value(l[0]) + tail;
        assert(after[0] == print_value(l[0])[0]);
        assert(!spec_is_whitespace(after[0]));
        assert(skip_ws(after) == after);
        assert(skip_ws(s) == after);
        if ldf.len() == 0 {
            assert(tail =~= seq![')'] + rest);
            assert(tail[0] == ')');
        } else {
            assert(tail[0] == ' ');
        }
        assert(spec_needs_quoting(tail[0]));
        lemma_parse_print_value(l[0], tail);
        assert(tail.len() < s.len());
        lemma_parse_print_more(ldf, rest);
        assert(seq![l[0]] + ldf =~= l);
    }
}

/// Round-trip law: the parser recovers every printed tree exactly, for
/// every tree -- deeply nested lists, empty lists, empty symbols, and
/// symbols containing any quoting-significant characters anywhere.
pub proof fn lemma_parse_print_roundtrip(v: SpecValue)
    ensures
        parse_document(print_value(v)) == ParseOutcome::Parsed(v),
{
    let s = print_value(v);
    lemma_print_head(v);
    assert(skip_ws(s) == s);
    assert(s + Seq::<char>::empty() =~= s);
    lemma_parse_print_value(v, Seq::empty());
    assert(parse_value(s) == Some((v, Seq::<char>::empty())));
}

/// Idempotence of printing: printing what the parser recovered from
/// printed text reproduces that text.
pub proof fn lemma_print_parse_print(v: SpecValue)
    ensures
        parse_document(print_value(v)) matches ParseOutcome::Parsed(w) && print_value(w)
            == print_value(v),
{
    lemma_parse_print_roundtrip(v);
}

/// Ambiguity boundary: the absent optional value, the unit, and the
/// empty sequence all share one tree, the empty list, which prints as
/// `()` and is recovered from `()` by the parser.  Deserializing that
/// tree against any of the three shapes succeeds with that shape's empty
/// value, as the contracts of `Value::option_content`,
/// `Value::expect_unit`, and `Value::into_elements` state; the collision
/// is an intentional, lossy convention.
pub proof fn lemma_empty_list_ambiguity()
    ensures
        print_value(SpecValue::List(Seq::<SpecValue>::empty())) == seq!['(', ')'],
        parse_document(seq!['(', ')']) == ParseOutcome::Parsed(
            SpecValue::List(Seq::<SpecValue>::empty()),
        ),
{
    assert(print_value(SpecValue::List(Seq::<SpecValue>::empty())) =~= seq!['(', ')']);
    lemma_parse_print_roundtrip(SpecValue::List(Seq::<SpecValue>::empty()));
}

/// Printer/parser predicate agreement, observed at symbols: a non-empty
/// symbol is printed verbatim (no escaping) exactly when the parser's
/// bare-symbol scan consumes all of it.
pub proof fn lemma_bare_symbol_agreement(s: Seq<char>)
    requires
        s.len() > 0,
    ensures
        is_bare_sym(s) <==> take_bare(s).0 == s,
{
    if is_bare_sym(s) {
        lemma_take_bare_at(s, s.len() as int);
        assert(s.subrange(0, s.len() as int) =~= s);
    }
    if take_bare(s).0 == s {
        lemma_take_bare(s);
    }
}

} // verus!
