//! Rendering an s-expression tree as text.
//!
//! A symbol that is non-empty and contains no quoting-significant character
//! is emitted verbatim.  Any other symbol is delimited by `|` characters,
//! with each quoting-significant character preceded by a backslash.  A list
//! is its children's renderings joined by single spaces, in parentheses.

use vstd::prelude::*;
use vstd::string::*;

use crate::spec_is_whitespace;
use crate::spec_needs_quoting;
use crate::needs_quoting;
use crate::value::SpecValue;
use crate::value::Value;
use crate::value::value_model;
use crate::value::values_model;
use crate::value::lemma_values_model;

verus! {

/// How one character of a symbol is emitted between `|` delimiters:
/// preceded by a backslash iff it is quoting-significant.
pub open spec fn escape_char(c: char) -> Seq<char> {
    if spec_needs_quoting(c) {
        seq!['\\', c]
    } else {
        seq![c]
    }
}

/// The body of a delimited symbol: each character escaped as needed.
pub open spec fn escape_sym(s: Seq<char>) -> Seq<char>
    decreases s.len(),
{
    if s.len() == 0 {
        Seq::empty()
    } else {
        escape_char(s[0]) + escape_sym(s.drop_first())
    }
}

/// Whether a symbol may be emitted verbatim: non-empty and free of
/// quoting-significant characters.
pub open spec fn is_bare_sym(s: Seq<char>) -> bool {
    s.len() > 0 && (forall|i: int| 0 <= i < s.len() ==> !spec_needs_quoting(s[i]))
}

/// The text of one s-expression.
pub open spec fn print_value(v: SpecValue) -> Seq<char>
    decreases v, 0int,
{
    match v {
        SpecValue::Sym(s) => if is_bare_sym(s) {
            s
        } else {
            seq!['|'] + escape_sym(s) + seq!['|']
        },
        SpecValue::List(l) => seq!['('] + print_items(l) + seq![')'],
    }
}

/// The text of a list body: the children joined by single spaces.
pub open spec fn print_items(l: Seq<SpecValue>) -> Seq<char>
    decreases l, 0int,
{
    if l.len() == 0 {
        Seq::empty()
    } else {
        print_value(l[0]) + print_tail(l.drop_first())
    }
}

/// The text of a list body after its first child: nothing, or a space
/// followed by the remaining children.
pub open spec fn print_tail(l: Seq<SpecValue>) -> Seq<char>
    decreases l, 1int,
{
    if l.len() == 0 {
        Seq::empty()
    } else {
        seq![' '] + print_items(l)
    }
}

/// Printed text is never empty, and its first character is an open paren,
/// a bar, or a character that needs no quoting; in particular it is never
/// whitespace and never a close paren.
pub proof fn lemma_print_head(v: SpecValue)
    ensures
        print_value(v).len() > 0,
        print_value(v)[0] == '(' || print_value(v)[0] == '|' || !spec_needs_quoting(
            print_value(v)[0],
        ),
        !spec_is_whitespace(print_value(v)[0]),
        print_value(v)[0] != ')',
{
    match v {
        SpecValue::Sym(s) => {
            if is_bare_sym(s) {
                assert(!spec_needs_quoting(s[0]));
            }
        }
        SpecValue::List(_) => {}
    }
}

/// Escaping a symbol extended by one character appends that character's
/// escape to the escaped symbol.
pub proof fn lemma_escape_push(s: Seq<char>, c: char)
    ensures
        escape_sym(s.push(c)) == escape_sym(s) + escape_char(c),
    decreases s.len(),
{
    if s.len() == 0 {
        assert(s.push(c).drop_first() =~= Seq::<char>::empty());
        assert(s.push(c)[0] == c);
        assert(escape_sym(s.push(c)) == escape_char(c) + escape_sym(Seq::<char>::empty()));
        assert(escape_char(c) + Seq::<char>::empty() =~= escape_char(c));
        assert(escape_sym(s) + escape_char(c) =~= escape_char(c));
    } else {
        assert(s.push(c).drop_first() =~= s.drop_first().push(c));
        lemma_escape_push(s.drop_first(), c);
        assert(escape_char(s[0]) + (escape_sym(s.drop_first()) + escape_char(c)) =~= (escape_char(
            s[0],
        ) + escape_sym(s.drop_first())) + escape_char(c));
    }
}

/// Printing a list body extended by one child appends a space (when the
/// body was non-empty) and the child's text.
pub proof fn lemma_print_items_push(l: Seq<SpecValue>, v: SpecValue)
    ensures
        print_items(l.push(v)) == if l.len() == 0 {
            print_value(v)
        } else {
            print_items(l) + seq![' '] + print_value(v)
        },
    decreases l.len(),
{
    if l.len() == 0 {
        assert(l.push(v)[0] == v);
        assert(l.push(v).drop_first() =~= Seq::<SpecValue>::empty());
        assert(print_items(l.push(v)) =~= print_value(v));
    } else {
        assert(l.push(v)[0] == l[0]);
        assert(l.push(v).drop_first() =~= l.drop_first().push(v));
        lemma_print_items_push(l.drop_first(), v);
        if l.len() == 1 {
            assert(l.drop_first() =~= Seq::<SpecValue>::empty());
            assert(print_items(l) =~= print_value(l[0]));
            assert(print_items(l.push(v)) =~= print_value(l[0]) + seq![' '] + print_value(v));
        } else {
            assert(print_items(l.push(v)) =~= print_value(l[0]) + (seq![' '] + (print_items(
                l.drop_first(),
            ) + seq![' '] + print_value(v))));
            assert(print_items(l) + seq![' '] + print_value(v) =~= print_value(l[0]) + (seq![' ']
                + (print_items(l.drop_first()) + seq![' '] + print_value(v))));
        }
    }
}

/// Returns whether the symbol text may be emitted verbatim.
fn sym_is_bare(s: &str) -> (r: bool)
    ensures
        r == is_bare_sym(s@),
{
    let n = s.unicode_len();
    if n == 0 {
        return false;
    }
    let mut i: usize = 0;
    while i < n
        invariant
            n == s@.len(),
            0 <= i <= n,
            forall|j: int| 0 <= j < i ==> !spec_needs_quoting(s@[j]),
        decreases n - i,
    {
        if needs_quoting(s.get_char(i)) {
            assert(spec_needs_quoting(s@[i as int]));
            return false;
        }
        i += 1;
    }
    true
}

/// Renders a symbol, delimiting and escaping it when required.
fn sym_to_text(s: &str) -> (r: String)
    ensures
        r@ == print_value(SpecValue::Sym(s@)),
{
    if sym_is_bare(s) {
        return s.to_owned();
    }
    let n = s.unicode_len();
    let mut out = String::from_str("|");
    proof {
        reveal_strlit("|");
        reveal_strlit("\\");
        assert(out@ =~= seq!['|'] + escape_sym(s@.take(0)));
    }
    let mut i: usize = 0;
    while i < n
        invariant
            n == s@.len(),
            0 <= i <= n,
            out@ == seq!['|'] + escape_sym(s@.take(i as int)),
        decreases n - i,
    {
        let c = s.get_char(i);
        if needs_quoting(c) {
            out.append("\\");
            proof {
                reveal_strlit("\\");
            }
        }
        let piece = s.substring_char(i, i + 1);
        out.append(piece);
        proof {
            assert(piece@ =~= seq![s@[i as int]]);
            lemma_escape_push(s@.take(i as int), s@[i as int]);
            assert(s@.take(i as int).push(s@[i as int]) =~= s@.take(i + 1 as int));
            assert(out@ =~= seq!['|'] + escape_sym(s@.take(i + 1 as int)));
        }
        i += 1;
    }
    out.append("|");
    proof {
        reveal_strlit("|");
        assert(s@.take(n as int) =~= s@);
        assert(out@ =~= seq!['|'] + escape_sym(s@) + seq!['|']);
        assert(!is_bare_sym(s@) ==> print_value(SpecValue::Sym(s@)) == seq!['|'] + escape_sym(s@)
            + seq!['|']);
    }
    out
}

impl Value {
    /// Renders the s-expression as text.
    pub fn to_text(&self) -> (r: String)
        ensures
            r@ == print_value(self@),
        decreases self,
    {
        match self {
            Value::Sym(s) => sym_to_text(s.as_str()),
            Value::List(l) => {
                let mut out = String::from_str("(");
                proof {
                    reveal_strlit("(");
                    assert(values_model(l@.take(0)) =~= Seq::<SpecValue>::empty());
                    assert(out@ =~= seq!['('] + print_items(values_model(l@.take(0))));
                }
                let mut i: usize = 0;
                let n = l.len();
                while i < n
                    invariant
                        n == l@.len(),
                        0 <= i <= n,
                        out@ == seq!['('] + print_items(values_model(l@.take(i as int))),
                        *self == Value::List(*l),
                    decreases n - i,
                {
                    proof {
                        assert(decreases_to!(self => l@[i as int])) by {
                            assert(decreases_to!(*self => (*self)->List_0));
                            assert((*self)->List_0 == *l);
                            assert(decreases_to!(*l => l@));
                            assert(decreases_to!(l@ => l@[i as int]));
                        }
                    }
                    let piece = l[i].to_text();
                    if i > 0 {
                        out.append(" ");
                    }
                    out.append(piece.as_str());
                    proof {
                        reveal_strlit(" ");
                        let pre = values_model(l@.take(i as int));
                        lemma_values_model(l@.take(i as int));
                        lemma_print_items_push(pre, value_model(l@[i as int]));
                        assert(l@.take(i as int).push(l@[i as int]) =~= l@.take(i + 1 as int));
                        assert(values_model(l@.take(i + 1 as int)) =~= pre.push(value_model(
                            l@[i as int],
                        ))) by {
                            lemma_values_model(l@.take(i + 1 as int));
                            lemma_values_model(l@.take(i as int));
                        }
                        if i > 0 {
                            assert(pre.len() > 0) by {
                                lemma_values_model(l@.take(i as int));
                            }
                            assert(out@ =~= seq!['('] + (print_items(pre) + seq![' ']
                                + print_value(value_model(l@[i as int]))));
                        } else {
                            assert(pre.len() == 0) by {
                                lemma_values_model(l@.take(0));
                            }
                            assert(out@ =~= seq!['('] + print_value(value_model(l@[0])));
                        }
                        assert(out@ =~= seq!['('] + print_items(values_model(l@.take(
                            i + 1 as int,
                        ))));
                    }
                    i += 1;
                }
                out.append(")");
                proof {
                    reveal_strlit(")");
                    assert(l@.take(n as int) =~= l@);
                    assert(out@ =~= seq!['('] + print_items(values_model(l@)) + seq![')']);
                }
                out
            }
        }
    }
}

} // verus!
