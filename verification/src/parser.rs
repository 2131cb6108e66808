//! Parsing s-expression text into a tree.
//!
//! The grammar, over characters:
//!
//! ```text
//! document  := ws value ws EOF
//! value     := list | escaped_symbol | bare_symbol
//! list      := '(' (value (ws value)*)? ')'
//! escaped_symbol := '|' sym_char* '|'
//! sym_char  := '\' ANY_CHAR | run_of_non_quoting_chars
//! bare_symbol := run_of_non_quoting_chars   ; at least one character
//! ws        := whitespace*
//! ```
//!
//! The spec parser below consumes a suffix of the input per production and
//! returns what remains.  A few branches defensively demand that a nested
//! parse consumed at least one character; the consumption lemmas prove
//! that those branches never refuse anything.

use vstd::prelude::*;

use vstd::string::*;

use crate::spec_is_whitespace;
use crate::spec_needs_quoting;
use crate::is_whitespace_char;
use crate::needs_quoting;
use crate::error::Error;
use crate::value::SpecValue;
use crate::value::Value;
use crate::value::values_model;
use crate::value::lemma_values_model;

verus! {

/// The three outcomes of parsing a document: exactly one value, a value
/// with trailing non-whitespace input, or no value at all.
pub enum ParseOutcome {
    /// The whole document is one value (with surrounding whitespace).
    Parsed(SpecValue),
    /// One value was parsed but non-whitespace input followed it.
    Trailing,
    /// The text does not begin with a well-formed value.
    Failed,
}

/// The suffix remaining after leading whitespace.
pub open spec fn skip_ws(s: Seq<char>) -> Seq<char>
    decreases s.len(),
{
    if s.len() > 0 && spec_is_whitespace(s[0]) {
        skip_ws(s.drop_first())
    } else {
        s
    }
}

/// The longest prefix of characters needing no quoting, and the suffix
/// after it.
pub open spec fn take_bare(s: Seq<char>) -> (Seq<char>, Seq<char>)
    decreases s.len(),
{
    if s.len() > 0 && !spec_needs_quoting(s[0]) {
        let (b, r) = take_bare(s.drop_first());
        (seq![s[0]] + b, r)
    } else {
        (Seq::empty(), s)
    }
}

/// Parses the body of an escaped symbol up to and including the closing
/// bar: a backslash escapes the immediately following single character
/// literally; characters needing no quoting stand for themselves; any
/// unescaped quoting-significant character other than the closing bar is
/// malformed.
pub open spec fn parse_sym_body(s: Seq<char>) -> Option<(Seq<char>, Seq<char>)>
    decreases s.len(),
{
    if s.len() == 0 {
        None
    } else if s[0] == '|' {
        Some((Seq::empty(), s.drop_first()))
    } else if s[0] == '\\' {
        if s.len() >= 2 {
            match parse_sym_body(s.subrange(2, s.len() as int)) {
                Some((content, rest)) => Some((seq![s[1]] + content, rest)),
                None => None,
            }
        } else {
            None
        }
    } else if !spec_needs_quoting(s[0]) {
        match parse_sym_body(s.drop_first()) {
            Some((content, rest)) => Some((seq![s[0]] + content, rest)),
            None => None,
        }
    } else {
        None
    }
}

/// Parses one value from the front of the input.
pub open spec fn parse_value(s: Seq<char>) -> Option<(SpecValue, Seq<char>)>
    decreases s.len(), 0int,
{
    if s.len() == 0 {
        None
    } else if s[0] == '(' {
        match parse_items(s.drop_first()) {
            Some((items, rest)) => Some((SpecValue::List(items), rest)),
            None => None,
        }
    } else if s[0] == '|' {
        match parse_sym_body(s.drop_first()) {
            Some((content, rest)) => Some((SpecValue::Sym(content), rest)),
            None => None,
        }
    } else if !spec_needs_quoting(s[0]) {
        let (bare, rest) = take_bare(s);
        Some((SpecValue::Sym(bare), rest))
    } else {
        None
    }
}

/// Parses a list body after the opening paren: either the closing paren
/// at once, or a first value followed by the remaining elements.
pub open spec fn parse_items(s: Seq<char>) -> Option<(Seq<SpecValue>, Seq<char>)>
    decreases s.len(), 1int,
{
    if s.len() == 0 {
        None
    } else if s[0] == ')' {
        Some((Seq::empty(), s.drop_first()))
    } else {
        match parse_value(s) {
            Some((v, rest1)) => if rest1.len() < s.len() {
                match parse_more_items(rest1) {
                    Some((vs, rest2)) => Some((seq![v] + vs, rest2)),
                    None => None,
                }
            } else {
                None
            },
            None => None,
        }
    }
}

/// Parses a list body after an element: either the closing paren, or
/// whitespace and a further value followed by the rest.
pub open spec fn parse_more_items(s: Seq<char>) -> Option<(Seq<SpecValue>, Seq<char>)>
    decreases s.len(), 2int,
{
    if s.len() == 0 {
        None
    } else if s[0] == ')' {
        Some((Seq::empty(), s.drop_first()))
    } else {
        let s2 = skip_ws(s);
        if s2.len() <= s.len() {
            match parse_value(s2) {
                Some((v, rest1)) => if rest1.len() < s.len() {
                    match parse_more_items(rest1) {
                        Some((vs, rest2)) => Some((seq![v] + vs, rest2)),
                        None => None,
                    }
                } else {
                    None
                },
                None => None,
            }
        } else {
            None
        }
    }
}

/// Parses a whole document: one value, optionally surrounded by
/// whitespace, with nothing else trailing.
pub open spec fn parse_document(s: Seq<char>) -> ParseOutcome {
    match parse_value(skip_ws(s)) {
        None => ParseOutcome::Failed,
        Some((v, rest)) => if skip_ws(rest).len() == 0 {
            ParseOutcome::Parsed(v)
        } else {
            ParseOutcome::Trailing
        },
    }
}

/// Skipping whitespace yields a suffix no longer than the input, and one
/// that does not begin with whitespace.
pub proof fn lemma_skip_ws(s: Seq<char>)
    ensures
        skip_ws(s).len() <= s.len(),
        skip_ws(s).len() > 0 ==> !spec_is_whitespace(skip_ws(s)[0]),
    decreases s.len(),
{
    if s.len() > 0 && spec_is_whitespace(s[0]) {
        lemma_skip_ws(s.drop_first());
    }
}

/// A bare-symbol run and its remainder partition the input, the run's
/// characters need no quoting, and the remainder starts with a
/// quoting-significant character if it is non-empty.
pub proof fn lemma_take_bare(s: Seq<char>)
    ensures
        take_bare(s).0 + take_bare(s).1 == s,
        take_bare(s).0.len() + take_bare(s).1.len() == s.len(),
        forall|i: int| 0 <= i < take_bare(s).0.len() ==> !spec_needs_quoting(take_bare(s).0[i]),
        take_bare(s).1.len() > 0 ==> spec_needs_quoting(take_bare(s).1[0]),
    decreases s.len(),
{
    if s.len() > 0 && !spec_needs_quoting(s[0]) {
        lemma_take_bare(s.drop_first());
        let b = take_bare(s.drop_first()).0;
        let r = take_bare(s.drop_first()).1;
        assert(seq![s[0]] + (b + r) =~= s);
        assert((seq![s[0]] + b) + r =~= seq![s[0]] + (b + r));
    }
}

/// A successful escaped-symbol body parse consumes at least one character.
pub proof fn lemma_sym_body_consumes(s: Seq<char>)
    ensures
        parse_sym_body(s) matches Some((content, rest)) ==> rest.len() < s.len(),
    decreases s.len(),
{
    if s.len() > 0 && s[0] != '|' {
        if s[0] == '\\' {
            if s.len() >= 2 {
                lemma_sym_body_consumes(s.subrange(2, s.len() as int));
            }
        } else if !spec_needs_quoting(s[0]) {
            lemma_sym_body_consumes(s.drop_first());
        }
    }
}

/// A successful value parse consumes at least one character.
pub proof fn lemma_parse_value_consumes(s: Seq<char>)
    ensures
        parse_value(s) matches Some((v, rest)) ==> rest.len() < s.len(),
    decreases s.len(), 0int,
{
    if s.len() > 0 {
        if s[0] == '(' {
            lemma_parse_items_consumes(s.drop_first());
        } else if s[0] == '|' {
            lemma_sym_body_consumes(s.drop_first());
        } else if !spec_needs_quoting(s[0]) {
            lemma_take_bare(s);
        }
    }
}

/// A successful list-body parse consumes at least one character.
pub proof fn lemma_parse_items_consumes(s: Seq<char>)
    ensures
        parse_items(s) matches Some((vs, rest)) ==> rest.len() < s.len(),
    decreases s.len(), 1int,
{
    if s.len() > 0 && s[0] != ')' {
        lemma_parse_value_consumes(s);
        if let Some((v, rest1)) = parse_value(s) {
            if rest1.len() < s.len() {
                lemma_parse_more_items_consumes(rest1);
            }
        }
    }
}

/// When the first `k` characters need no quoting and the next one (if
/// any) does, the bare-symbol run is exactly those `k` characters.
pub proof fn lemma_take_bare_at(s: Seq<char>, k: int)
    requires
        0 <= k <= s.len(),
        forall|j: int| 0 <= j < k ==> !spec_needs_quoting(s[j]),
        k < s.len() ==> spec_needs_quoting(s[k]),
    ensures
        take_bare(s).0 == s.subrange(0, k),
        take_bare(s).1 == s.subrange(k, s.len() as int),
    decreases s.len(),
{
    if k == 0 {
        assert(take_bare(s).0 =~= s.subrange(0, 0));
        assert(take_bare(s).1 =~= s.subrange(0, s.len() as int));
    } else {
        let sdf = s.drop_first();
        assert(!spec_needs_quoting(s[0]));
        assert(forall|j: int| 0 <= j < k - 1 ==> !spec_needs_quoting(sdf[j]));
        lemma_take_bare_at(sdf, k - 1);
        assert(seq![s[0]] + sdf.subrange(0, k - 1) =~= s.subrange(0, k));
        assert(sdf.subrange(k - 1, sdf.len() as int) =~= s.subrange(k, s.len() as int));
    }
}

/// A successful list-continuation parse consumes at least one character.
pub proof fn lemma_parse_more_items_consumes(s: Seq<char>)
    ensures
        parse_more_items(s) matches Some((vs, rest)) ==> rest.len() < s.len(),
    decreases s.len(), 2int,
{
    if s.len() > 0 && s[0] != ')' {
        let s2 = skip_ws(s);
        lemma_skip_ws(s);
        if s2.len() <= s.len() {
            lemma_parse_value_consumes(s2);
            if let Some((v, rest1)) = parse_value(s2) {
                if rest1.len() < s.len() {
                    lemma_parse_more_items_consumes(rest1);
                }
            }
        }
    }
}

/// The suffix of the text after any leading whitespace.
fn skip_ws_text<'a>(s: &'a str) -> (r: &'a str)
    ensures
        r@ == skip_ws(s@),
        r@.len() <= s@.len(),
    decreases s@.len(),
{
    let n = s.unicode_len();
    if n == 0 {
        return s;
    }
    if is_whitespace_char(s.get_char(0)) {
        let t = s.substring_char(1, n);
        proof {
            assert(t@ =~= s@.drop_first());
        }
        skip_ws_text(t)
    } else {
        s
    }
}

/// Parses the body of an escaped symbol, returning its unescaped content
/// and the suffix after the closing bar.
fn parse_sym_body_text<'a>(s: &'a str) -> (r: Option<(String, &'a str)>)
    ensures
        match r {
            Some((content, rest)) => parse_sym_body(s@) == Some((content@, rest@))
                && rest@.len() < s@.len(),
            None => parse_sym_body(s@) is None,
        },
    decreases s@.len(),
{
    let n = s.unicode_len();
    if n == 0 {
        return None;
    }
    let c = s.get_char(0);
    if c == '|' {
        let rest = s.substring_char(1, n);
        proof {
            assert(rest@ =~= s@.drop_first());
        }
        Some((String::new(), rest))
    } else if c == '\\' {
        if n >= 2 {
            let t = s.substring_char(2, n);
            proof {
                assert(t@ =~= s@.subrange(2, s@.len() as int));
            }
            match parse_sym_body_text(t) {
                Some((tail, rest)) => {
                    let mut content = s.substring_char(1, 2).to_owned();
                    content.append(tail.as_str());
                    proof {
                        assert(s@.subrange(1, 2) =~= seq![s@[1]]);
                        assert(content@ =~= seq![s@[1]] + tail@);
                    }
                    Some((content, rest))
                }
                None => None,
            }
        } else {
            None
        }
    } else if !needs_quoting(c) {
        let t = s.substring_char(1, n);
        proof {
            assert(t@ =~= s@.drop_first());
        }
        match parse_sym_body_text(t) {
            Some((tail, rest)) => {
                let mut content = s.substring_char(0, 1).to_owned();
                content.append(tail.as_str());
                proof {
                    assert(s@.subrange(0, 1) =~= seq![s@[0]]);
                    assert(content@ =~= seq![s@[0]] + tail@);
                }
                Some((content, rest))
            }
            None => None,
        }
    } else {
        None
    }
}

/// Parses one value from the front of the text.
fn parse_value_text<'a>(s: &'a str) -> (r: Option<(Value, &'a str)>)
    ensures
        match r {
            Some((v, rest)) => parse_value(s@) == Some((v@, rest@)) && rest@.len() < s@.len(),
            None => parse_value(s@) is None,
        },
    decreases s@.len(), 0int,
{
    let n = s.unicode_len();
    if n == 0 {
        return None;
    }
    let c = s.get_char(0);
    if c == '(' {
        let t = s.substring_char(1, n);
        proof {
            assert(t@ =~= s@.drop_first());
        }
        match parse_items_text(t) {
            Some((items, rest)) => Some((Value::List(items), rest)),
            None => None,
        }
    } else if c == '|' {
        let t = s.substring_char(1, n);
        proof {
            assert(t@ =~= s@.drop_first());
        }
        match parse_sym_body_text(t) {
            Some((content, rest)) => Some((Value::Sym(content), rest)),
            None => None,
        }
    } else if !needs_quoting(c) {
        let mut k: usize = 1;
        loop
            invariant
                n == s@.len(),
                1 <= k <= n,
                forall|j: int| 0 <= j < k ==> !spec_needs_quoting(s@[j]),
            ensures
                1 <= k <= n,
                forall|j: int| 0 <= j < k ==> !spec_needs_quoting(s@[j]),
                k < n ==> spec_needs_quoting(s@[k as int]),
            decreases n - k,
        {
            if k == n {
                break;
            }
            if needs_quoting(s.get_char(k)) {
                break;
            }
            k += 1;
        }
        let bare = s.substring_char(0, k);
        let rest = s.substring_char(k, n);
        proof {
            lemma_take_bare_at(s@, k as int);
        }
        Some((Value::Sym(bare.to_owned()), rest))
    } else {
        None
    }
}

/// Parses a list body after the opening paren.
fn parse_items_text<'a>(s: &'a str) -> (r: Option<(Vec<Value>, &'a str)>)
    ensures
        match r {
            Some((items, rest)) => parse_items(s@) == Some((values_model(items@), rest@))
                && rest@.len() < s@.len(),
            None => parse_items(s@) is None,
        },
    decreases s@.len(), 1int,
{
    let n = s.unicode_len();
    if n == 0 {
        return None;
    }
    if s.get_char(0) == ')' {
        let rest = s.substring_char(1, n);
        proof {
            assert(rest@ =~= s@.drop_first());
            assert(values_model(Seq::<Value>::empty()) =~= Seq::<SpecValue>::empty());
        }
        let items: Vec<Value> = Vec::new();
        return Some((items, rest));
    }
    match parse_value_text(s) {
        Some((v, rest1)) => match parse_more_items_text(rest1) {
            Some((more, rest2)) => {
                let mut items = more;
                let ghost old_items = items@;
                items.insert(0, v);
                proof {
                    assert(items@ =~= seq![v] + old_items);
                    lemma_values_model(items@);
                    lemma_values_model(old_items);
                    assert(values_model(items@) =~= seq![v@] + values_model(old_items));
                }
                Some((items, rest2))
            }
            None => None,
        },
        None => None,
    }
}

/// Parses a list body after an element.
fn parse_more_items_text<'a>(s: &'a str) -> (r: Option<(Vec<Value>, &'a str)>)
    ensures
        match r {
            Some((items, rest)) => parse_more_items(s@) == Some((values_model(items@), rest@))
                && rest@.len() < s@.len(),
            None => parse_more_items(s@) is None,
        },
    decreases s@.len(), 2int,
{
    let n = s.unicode_len();
    if n == 0 {
        return None;
    }
    if s.get_char(0) == ')' {
        let rest = s.substring_char(1, n);
        proof {
            assert(rest@ =~= s@.drop_first());
            assert(values_model(Seq::<Value>::empty()) =~= Seq::<SpecValue>::empty());
        }
        let items: Vec<Value> = Vec::new();
        return Some((items, rest));
    }
    let s2 = skip_ws_text(s);
    match parse_value_text(s2) {
        Some((v, rest1)) => match parse_more_items_text(rest1) {
            Some((more, rest2)) => {
                let mut items = more;
                let ghost old_items = items@;
                items.insert(0, v);
                proof {
                    assert(items@ =~= seq![v] + old_items);
                    lemma_values_model(items@);
                    lemma_values_model(old_items);
                    assert(values_model(items@) =~= seq![v@] + values_model(old_items));
                }
                Some((items, rest2))
            }
            None => None,
        },
        None => None,
    }
}

impl core::str::FromStr for Value {
    type Err = Error;

    fn from_str(s: &str) -> Result<Value, Error> {
        Value::parse_text(s)
    }
}

impl Value {
    /// Parses a document: exactly one s-expression, optionally surrounded
    /// by whitespace.  A malformed document yields `Error::ParseFailed`; a
    /// well-formed value followed by non-whitespace input yields
    /// `Error::ParseTrailing`.
    pub fn parse_text(s: &str) -> (r: Result<Value, Error>)
        ensures
            match r {
                Ok(v) => parse_document(s@) == ParseOutcome::Parsed(v@),
                Err(e) => match e {
                    Error::ParseFailed => parse_document(s@) == ParseOutcome::Failed,
                    Error::ParseTrailing => parse_document(s@) == ParseOutcome::Trailing,
                    _ => false,
                },
            },
    {
        let s1 = skip_ws_text(s);
        match parse_value_text(s1) {
            None => Err(Error::ParseFailed),
            Some((v, rest)) => {
                let rest2 = skip_ws_text(rest);
                if rest2.unicode_len() == 0 {
                    Ok(v)
                } else {
                    Err(Error::ParseTrailing)
                }
            }
        }
    }
}

} // verus!
