//! What comparing values says of them.

use vstd::prelude::*;

use super::ops::{field_of, infix_of, prefix_of};
use crate::ast::{BinOp, UnOp};
use crate::builtins::basics::key_place;
use crate::builtins::world::{OutV, PlaceV};
use crate::value::{is_nan, same_value, ValueV};

verus! {

/// Whether no floating-point number is in a value.
pub open spec fn floatless(v: ValueV) -> bool
    decreases v,
{
    match v {
        ValueV::Float(_) => false,
        ValueV::List(vs) => forall|i: int| 0 <= i < vs.len() ==> floatless(#[trigger] vs[i]),
        ValueV::Dict(es) => forall|i: int| 0 <= i < es.len() ==> floatless((#[trigger] es[i]).1),
        _ => true,
    }
}

/// Values without floating-point numbers are the same exactly where they are equal.
proof fn lemma_same(a: ValueV, b: ValueV)
    requires
        floatless(a),
    ensures
        same_value(a, b) == (a == b),
    decreases a,
{
    match (a, b) {
        (ValueV::List(x), ValueV::List(y)) => {
            assert forall|i: int| 0 <= i < x.len() implies same_value(#[trigger] x[i], y[i]) == (x[i] == y[i]) by {
                lemma_same(x[i], y[i]);
            }
            if same_value(a, b) {
                assert forall|i: int| 0 <= i < x.len() implies x[i] == y[i] by {
                    assert(same_value(x[i], y[i]));
                }
                assert(x =~= y);
            }
        },
        (ValueV::Dict(x), ValueV::Dict(y)) => {
            assert forall|i: int| 0 <= i < x.len() implies same_value((#[trigger] x[i]).1, y[i].1) == (x[i].1 == y[i].1) by {
                lemma_same(x[i].1, y[i].1);
            }
            if same_value(a, b) {
                assert forall|i: int| 0 <= i < x.len() implies x[i] == y[i] by {
                    assert(x[i].0 == y[i].0 && same_value(x[i].1, y[i].1));
                }
                assert(x =~= y);
            }
        },
        _ => {},
    }
}

/// Whether two values are of one type that can be compared for equality.
pub open spec fn comparable(a: ValueV, b: ValueV) -> bool {
    ||| a is Int && b is Int
    ||| a is Bool && b is Bool
    ||| a is Str && b is Str
    ||| a is List && b is List
    ||| a is Dict && b is Dict
    ||| a is Null && b is Null
}

/// `==` says of two values of one type, without floating-point numbers in them, whether they are equal,
/// and `!=` whether they are not.
pub proof fn law_equality(p: PlaceV, a: ValueV, b: ValueV)
    requires
        comparable(a, b),
        floatless(a),
    ensures
        infix_of(p, BinOp::Eq, a, b) == OutV::Value(ValueV::Bool(a == b)),
        infix_of(p, BinOp::Ne, a, b) == OutV::Value(ValueV::Bool(a != b)),
{
    lemma_same(a, b);
}

/// Whether a comparison holds.
pub open spec fn says(p: PlaceV, op: BinOp, a: ValueV, b: ValueV) -> bool {
    infix_of(p, op, a, b) == OutV::Value(ValueV::Bool(true))
}

/// Of two integers, and of two floating-point numbers, exactly one holds: the first is less, they are
/// equal, or it is greater. The other comparisons follow, and turning the numbers round turns the
/// comparison round. Positive floating-point numbers stand in the order of their bits, and negative
/// ones below them.
pub proof fn law_order(p: PlaceV, a: ValueV, b: ValueV)
    requires
        (a is Int && b is Int) || (a is Float && b is Float && !is_nan(a->Float_0) && !is_nan(b->Float_0)),
    ensures
        says(p, BinOp::Lt, a, b) || says(p, BinOp::Eq, a, b) || says(p, BinOp::Gt, a, b),
        !(says(p, BinOp::Lt, a, b) && says(p, BinOp::Eq, a, b)),
        !(says(p, BinOp::Lt, a, b) && says(p, BinOp::Gt, a, b)),
        !(says(p, BinOp::Eq, a, b) && says(p, BinOp::Gt, a, b)),
        says(p, BinOp::Le, a, b) == (says(p, BinOp::Lt, a, b) || says(p, BinOp::Eq, a, b)),
        says(p, BinOp::Ge, a, b) == (says(p, BinOp::Gt, a, b) || says(p, BinOp::Eq, a, b)),
        says(p, BinOp::Ne, a, b) == !says(p, BinOp::Eq, a, b),
        says(p, BinOp::Lt, a, b) == says(p, BinOp::Gt, b, a),
        says(p, BinOp::Le, a, b) == says(p, BinOp::Ge, b, a),
        a is Int ==> says(p, BinOp::Lt, a, b) == (a->Int_0 < b->Int_0),
        a is Float && a->Float_0 < 0x8000_0000_0000_0000 && b->Float_0 < 0x8000_0000_0000_0000 ==> says(
            p,
            BinOp::Lt,
            a,
            b,
        ) == (a->Float_0 < b->Float_0),
        a is Float && a->Float_0 > 0x8000_0000_0000_0000 && b->Float_0 < 0x8000_0000_0000_0000 ==> says(
            p,
            BinOp::Lt,
            a,
            b,
        ),
{
}

/// Turning an integer or a truth twice gives it back.
pub proof fn law_prefixes_undo(p: PlaceV, n: i64, t: bool)
    ensures
        n > i64::MIN ==> (prefix_of(p, UnOp::Neg, ValueV::Int(n)) matches OutV::Value(v) && v == ValueV::Int((-n) as i64)
            && prefix_of(p, UnOp::Neg, v) == OutV::Value(ValueV::Int(n))),
        prefix_of(p, UnOp::Not, ValueV::Bool(t)) matches OutV::Value(v) && v != ValueV::Bool(t) && prefix_of(
            p,
            UnOp::Not,
            v,
        ) == OutV::Value(ValueV::Bool(t)),
{
}

proof fn lemma_key_place(es: Seq<(Seq<char>, ValueV)>, k: Seq<char>, i: int, j: int)
    requires
        0 <= i <= j < es.len(),
        es[j].0 == k,
        forall|m: int| i <= m < j ==> (#[trigger] es[m]).0 != k,
    ensures
        key_place(es, k, i) == Some(j),
    decreases j - i,
{
    if i < j {
        assert(es[i].0 != k);
        lemma_key_place(es, k, i + 1, j);
    }
}

/// A member of a dictionary is the value of its entry.
pub proof fn law_members(p: PlaceV, es: Seq<(Seq<char>, ValueV)>, j: int)
    requires
        0 <= j < es.len(),
        forall|m: int| 0 <= m < j ==> (#[trigger] es[m]).0 != es[j].0,
    ensures
        field_of(p, ValueV::Dict(es), es[j].0) == OutV::Value(es[j].1),
{
    lemma_key_place(es, es[j].0, 0, j);
}

} // verus!
