//! Structural equality of values.

use crate::ast::{List, Type};
use crate::model::Value;
use crate::number::{is_nan_bits, same_number};
use vstd::prelude::*;

verus! {

/// Deep equality, directed by the kind of value: units are equal, numbers
/// compare by numeric value, texts and booleans by content, pairs by both
/// components, lists by length and by every item. A closure, a native
/// function or a free reference equals nothing, not even itself.
pub open spec fn equal(a: Value, b: Value) -> bool
    decreases a,
{
    match (a, b) {
        (Value::Unit, Value::Unit) => true,
        (Value::Number(x), Value::Number(y)) => same_number(x, y),
        (Value::Bool(x), Value::Bool(y)) => x == y,
        (Value::Str(x), Value::Str(y)) => x == y,
        (Value::Tuple(a1, a2), Value::Tuple(b1, b2)) => equal(*a1, *b1) && equal(*a2, *b2),
        (Value::List(x), Value::List(y)) => {
            &&& x.len() == y.len()
            &&& forall|i: int| 0 <= i < x.len() ==> equal(#[trigger] x[i], y[i])
        },
        _ => false,
    }
}

/// Whether two lists have the same length and equal items.
pub open spec fn equal_items(x: Seq<Value>, y: Seq<Value>) -> bool {
    equal(Value::List(x), Value::List(y))
}

/// Whether a value can be compared with itself: it holds no closure, no
/// native function, no free reference and no NaN, at any depth.
pub open spec fn comparable(value: Value) -> bool
    decreases value,
{
    match value {
        Value::Unit => true,
        Value::Number(bits) => !is_nan_bits(bits),
        Value::Bool(_) => true,
        Value::Str(_) => true,
        Value::Tuple(first, second) => comparable(*first) && comparable(*second),
        Value::List(items) => forall|i: int|
            0 <= i < items.len() ==> comparable(#[trigger] items[i]),
        Value::Free(_) => false,
        Value::Closure(_, _) => false,
        Value::Native(_) => false,
    }
}

/// Equality is reflexive on every value that can be compared with itself.
pub proof fn lemma_equal_reflexive(value: Value)
    requires
        comparable(value),
    ensures
        equal(value, value),
    decreases value,
{
    match value {
        Value::Tuple(first, second) => {
            lemma_equal_reflexive(*first);
            lemma_equal_reflexive(*second);
        },
        Value::List(items) => {
            assert forall|i: int| 0 <= i < items.len() implies equal(
                #[trigger] items[i],
                items[i],
            ) by {
                lemma_equal_reflexive(items[i]);
            }
        },
        _ => {},
    }
}

/// Equality does not depend on the order of its operands.
pub proof fn lemma_equal_symmetric(a: Value, b: Value)
    ensures
        equal(a, b) == equal(b, a),
    decreases a,
{
    match (a, b) {
        (Value::Tuple(a1, a2), Value::Tuple(b1, b2)) => {
            lemma_equal_symmetric(*a1, *b1);
            lemma_equal_symmetric(*a2, *b2);
        },
        (Value::List(x), Value::List(y)) => {
            if x.len() == y.len() {
                assert forall|i: int| 0 <= i < x.len() implies equal(x[i], y[i]) == equal(
                    y[i],
                    x[i],
                ) by {
                    lemma_equal_symmetric(x[i], y[i]);
                }
            }
        },
        _ => {},
    }
}

/// Two lists with a head each are equal exactly when the heads are equal and
/// the tails are.
proof fn lemma_equal_items_cons(h1: Value, t1: Seq<Value>, h2: Value, t2: Seq<Value>)
    ensures
        equal_items(seq![h1] + t1, seq![h2] + t2) == (equal(h1, h2) && equal_items(t1, t2)),
{
    let x = seq![h1] + t1;
    let y = seq![h2] + t2;
    if equal_items(x, y) {
        assert(equal(x[0], y[0]));
        assert forall|i: int| 0 <= i < t1.len() implies equal(#[trigger] t1[i], t2[i]) by {
            assert(equal(x[i + 1], y[i + 1]));
        }
    }
}

impl Type {
    /// Structural equality of two values.
    pub fn equals(&self, o: &Self) -> (r: bool)
        ensures
            r == equal(self@, o@),
        decreases self,
    {
        match self {
            Type::Unit => if let Type::Unit = o {
                true
            } else {
                false
            },
            Type::Number(a) => if let Type::Number(b) = o {
                a.same_value(b)
            } else {
                false
            },
            Type::Bool(a) => if let Type::Bool(b) = o {
                *a == *b
            } else {
                false
            },
            Type::Str(a) => if let Type::Str(b) = o {
                *a == *b
            } else {
                false
            },
            Type::Tuple(a, b) => if let Type::Tuple(c, d) = o {
                a.equals(c) && b.equals(d)
            } else {
                false
            },
            Type::List(a) => if let Type::List(b) = o {
                a.equals(b)
            } else {
                false
            },
            _ => false,
        }
    }
}

impl List {
    /// Structural equality of two lists.
    pub fn equals(&self, o: &Self) -> (r: bool)
        ensures
            r == equal_items(self@, o@),
        decreases self,
    {
        match self {
            List::End => if let List::End = o {
                true
            } else {
                false
            },
            List::Cons(hd, tl) => if let List::Cons(h2, t2) = o {
                proof {
                    lemma_equal_items_cons(hd@, tl@, h2@, t2@);
                }
                hd.equals(h2) && tl.equals(t2)
            } else {
                false
            },
        }
    }
}

} // verus!
