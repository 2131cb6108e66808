//! The s-expression tree and its mathematical model.

use vstd::prelude::*;

verus! {

/// The mathematical model of an s-expression: a list of trees or a symbol
/// holding an arbitrary sequence of characters.
pub enum SpecValue {
    /// An ordered sequence of s-expressions.
    List(Seq<SpecValue>),
    /// An atomic symbol; any characters are allowed in its logical content.
    Sym(Seq<char>),
}

/// An s-expression.
#[derive(Debug, Eq, Hash, Ord, PartialOrd)]
pub enum Value {
    /// A list.
    List(Vec<Value>),

    /// A symbol.
    Sym(String),
}

impl View for Value {
    type V = SpecValue;

    open spec fn view(&self) -> SpecValue {
        value_model(*self)
    }
}

/// The model of an s-expression tree: lists become sequences of the
/// children's models, symbols become their character sequences.
pub open spec fn value_model(v: Value) -> SpecValue
    decreases v,
{
    match v {
        Value::List(l) => SpecValue::List(values_model(l@)),
        Value::Sym(s) => SpecValue::Sym(s@),
    }
}

/// The models of a sequence of s-expression trees, elementwise.
pub open spec fn values_model(l: Seq<Value>) -> Seq<SpecValue>
    decreases l,
{
    if l.len() == 0 {
        Seq::empty()
    } else {
        values_model(l.drop_last()).push(value_model(l.last()))
    }
}

/// `values_model` is the elementwise image of `value_model`.
pub proof fn lemma_values_model(l: Seq<Value>)
    ensures
        values_model(l).len() == l.len(),
        forall|i: int| 0 <= i < l.len() ==> values_model(l)[i] == value_model(l[i]),
    decreases l.len(),
{
    if l.len() > 0 {
        lemma_values_model(l.drop_last());
    }
}

/// Structural equality of two trees: it coincides with equality of their
/// models, so two trees are equal exactly when every list has the same
/// children in the same order and every symbol the same characters.
fn value_eq(a: &Value, b: &Value) -> (r: bool)
    ensures
        r == (a@ == b@),
    decreases a,
{
    match (a, b) {
        (Value::Sym(x), Value::Sym(y)) => *x == *y,
        (Value::List(x), Value::List(y)) => {
            proof {
                lemma_values_model(x@);
                lemma_values_model(y@);
            }
            let n = x.len();
            if n != y.len() {
                return false;
            }
            let mut i: usize = 0;
            while i < n
                invariant
                    n == x@.len(),
                    n == y@.len(),
                    0 <= i <= n,
                    *a == Value::List(*x),
                    *b == Value::List(*y),
                    forall|j: int| 0 <= j < i ==> value_model(x@[j]) == value_model(y@[j]),
                decreases n - i,
            {
                proof {
                    assert(decreases_to!(a => x@[i as int])) by {
                        assert(decreases_to!(*a => (*a)->List_0));
                        assert((*a)->List_0 == *x);
                        assert(decreases_to!(*x => x@));
                        assert(decreases_to!(x@ => x@[i as int]));
                    }
                }
                if !value_eq(&x[i], &y[i]) {
                    proof {
                        lemma_values_model(x@);
                        lemma_values_model(y@);
                        assert(values_model(x@)[i as int] != values_model(y@)[i as int]);
                    }
                    return false;
                }
                i += 1;
            }
            proof {
                lemma_values_model(x@);
                lemma_values_model(y@);
                assert(values_model(x@) =~= values_model(y@));
            }
            true
        }
        _ => false,
    }
}

impl PartialEq for Value {
    fn eq(&self, other: &Value) -> (r: bool) {
        value_eq(self, other)
    }
}

impl vstd::std_specs::cmp::PartialEqSpecImpl for Value {
    open spec fn obeys_eq_spec() -> bool {
        true
    }

    open spec fn eq_spec(&self, other: &Value) -> bool {
        self@ == other@
    }
}

impl From<String> for Value {
    /// A string converts to the symbol holding it.
    fn from(s: String) -> (r: Value) {
        Value::Sym(s)
    }
}

impl From<Vec<Value>> for Value {
    /// A vector of trees converts to the list of them.
    fn from(l: Vec<Value>) -> (r: Value) {
        Value::List(l)
    }
}

impl vstd::std_specs::convert::FromSpecImpl<String> for Value {
    open spec fn obeys_from_spec() -> bool {
        true
    }

    open spec fn from_spec(s: String) -> Value {
        Value::Sym(s)
    }
}

impl vstd::std_specs::convert::FromSpecImpl<Vec<Value>> for Value {
    open spec fn obeys_from_spec() -> bool {
        true
    }

    open spec fn from_spec(l: Vec<Value>) -> Value {
        Value::List(l)
    }
}

} // verus!
