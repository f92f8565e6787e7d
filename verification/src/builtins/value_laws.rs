//! What holds of the built-in functions of values, called by their names.

use vstd::prelude::*;

use super::basics::{
    abs_of, append_of, assert_of, contains_of, extreme_of, index_of_of, len_of, showing, sides_of,
    to_int_of, written,
};
use super::http_laws::{lemma_dec, law_numerals_read_back};
use super::world::{OutV, PendingV, PlaceV, RequestV};
use super::{called, need, value_fn, WorldV};
use crate::text::{dec, idec, is_digit};
use crate::value::{assembled, floats_of, shown, PieceV, ValueV};
use crate::words::{has_sub, lemma_trimmed, white};

verus! {

proof fn lemma_lists(p: PlaceV, a: Seq<ValueV>)
    ensures
        value_fn(p, "print"@, a) == Some(need(p, "print"@, a, 1, showing(shown(a[0]), true))),
        value_fn(p, "len"@, a) == Some(need(p, "len"@, a, 1, len_of(p, a))),
        value_fn(p, "append"@, a) == Some(need(p, "append"@, a, 2, append_of(p, a))),
        value_fn(p, "clone"@, a) == Some(need(p, "clone"@, a, 1, OutV::Value(a[0]))),
        value_fn(p, "copy"@, a) == Some(need(p, "copy"@, a, 1, OutV::Value(a[0]))),
        value_fn(p, "contains"@, a) == Some(need(p, "contains"@, a, 2, contains_of(p, a))),
        value_fn(p, "index_of"@, a) == Some(need(p, "index_of"@, a, 2, index_of_of(p, a))),
        value_fn(p, "keys"@, a) == Some(need(p, "keys"@, a, 1, sides_of(p, "keys"@, a))),
        value_fn(p, "values"@, a) == Some(need(p, "values"@, a, 1, sides_of(p, "values"@, a))),
        "values"@ != "keys"@,
{
    reveal_strlit("print");
    reveal_strlit("len");
    reveal_strlit("append");
    reveal_strlit("clone");
    reveal_strlit("copy");
    reveal_strlit("contains");
    reveal_strlit("index_of");
    reveal_strlit("keys");
    reveal_strlit("values");
    assert("print"@[0] == 'p' && "clone"@[0] == 'c');
    assert("append"@[0] == 'a' && "values"@[0] == 'v');
    assert("copy"@[0] == 'c' && "keys"@[0] == 'k');
    assert("contains"@[0] == 'c' && "index_of"@[0] == 'i');
}

proof fn lemma_checks(p: PlaceV, a: Seq<ValueV>)
    ensures
        value_fn(p, "type_of"@, a) == Some(need(p, "type_of"@, a, 1, OutV::Value(ValueV::Str(a[0].type_text())))),
        value_fn(p, "assert"@, a) == Some(need(p, "assert"@, a, 1, assert_of(p, a))),
{
    reveal_strlit("print");
    reveal_strlit("len");
    reveal_strlit("append");
    reveal_strlit("clone");
    reveal_strlit("copy");
    reveal_strlit("contains");
    reveal_strlit("index_of");
    reveal_strlit("keys");
    reveal_strlit("values");
    reveal_strlit("has_key");
    reveal_strlit("type_of");
    reveal_strlit("assert");
    assert("type_of"@[0] == 't' && "has_key"@[0] == 'h');
    assert("append"@[1] == 'p' && "assert"@[1] == 's' && "values"@[1] == 'a');
}

proof fn lemma_numbers(p: PlaceV, a: Seq<ValueV>)
    ensures
        value_fn(p, "to_str"@, a) == Some(need(p, "to_str"@, a, 1, showing(shown(a[0]), false))),
        value_fn(p, "to_int"@, a) == Some(need(p, "to_int"@, a, 1, to_int_of(p, a))),
        value_fn(p, "abs"@, a) == Some(need(p, "abs"@, a, 1, abs_of(p, a))),
        value_fn(p, "max"@, a) == Some(need(p, "max"@, a, 2, extreme_of(p, "max"@, a))),
        value_fn(p, "min"@, a) == Some(need(p, "min"@, a, 2, extreme_of(p, "min"@, a))),
        "min"@ != "max"@,
{
    reveal_strlit("print");
    reveal_strlit("len");
    reveal_strlit("append");
    reveal_strlit("clone");
    reveal_strlit("copy");
    reveal_strlit("contains");
    reveal_strlit("index_of");
    reveal_strlit("keys");
    reveal_strlit("values");
    reveal_strlit("has_key");
    reveal_strlit("type_of");
    reveal_strlit("assert");
    reveal_strlit("is_int");
    reveal_strlit("is_float");
    reveal_strlit("is_str");
    reveal_strlit("is_bool");
    reveal_strlit("is_list");
    reveal_strlit("is_dict");
    reveal_strlit("is_null");
    reveal_strlit("to_str");
    reveal_strlit("to_int");
    reveal_strlit("to_float");
    reveal_strlit("abs");
    reveal_strlit("max");
    reveal_strlit("min");
    assert("to_str"@[0] == 't' && "to_int"@[0] == 't');
    assert("append"@[0] == 'a' && "values"@[0] == 'v' && "assert"@[0] == 'a' && "is_int"@[0] == 'i' && "is_str"@[0]
        == 'i');
    assert("to_str"@[3] == 's' && "to_int"@[3] == 'i');
    assert("len"@[0] == 'l' && "abs"@[0] == 'a' && "max"@[0] == 'm' && "min"@[0] == 'm');
    assert("max"@[1] == 'a' && "min"@[1] == 'i');
}

/// The larger of two integers is one of them and below neither; the smaller is one of them and above
/// neither.
pub proof fn law_extremes(w: WorldV, p: PlaceV, x: i64, y: i64)
    ensures
        ({
            let a = seq![ValueV::Int(x), ValueV::Int(y)];
            &&& called(w, p, "max"@, a) == (w, OutV::Value(ValueV::Int(if x >= y { x } else { y })))
            &&& called(w, p, "min"@, a) == (w, OutV::Value(ValueV::Int(if x <= y { x } else { y })))
        }),
{
    reveal(called);
    lemma_numbers(p, seq![ValueV::Int(x), ValueV::Int(y)]);
}

/// The absolute value of an integer is not negative, and the integer or its opposite; the one integer
/// that has none in 64 bits is an error.
pub proof fn law_abs(w: WorldV, p: PlaceV, x: i64)
    ensures
        ({
            let r = called(w, p, "abs"@, seq![ValueV::Int(x)]);
            &&& r.0 == w
            &&& if x == i64::MIN {
                r.1 matches OutV::Error(e) && e.code == "H010"@
            } else {
                r.1 matches OutV::Value(ValueV::Int(n)) && n >= 0 && (n == x || n == -x)
            }
        }),
{
    reveal(called);
    lemma_numbers(p, seq![ValueV::Int(x)]);
}

/// Appending puts a value behind the items of a list and leaves these as they are: the list is longer
/// by one.
pub proof fn law_append(w: WorldV, p: PlaceV, vs: Seq<ValueV>, v: ValueV, i: int)
    requires
        vs.len() < i64::MAX,
    ensures
        ({
            let r = called(w, p, "append"@, seq![ValueV::List(vs), v]);
            &&& r.0 == w
            &&& r.1 matches OutV::Value(ValueV::List(us)) && us.len() == vs.len() + 1 && us[vs.len() as int] == v && (0
                <= i < vs.len() ==> us[i] == vs[i]) && called(w, p, "len"@, seq![ValueV::List(us)]) == (
                w,
                OutV::Value(ValueV::Int((vs.len() + 1) as i64)),
            )
        }),
{
    reveal(called);
    lemma_lists(p, seq![ValueV::List(vs), v]);
    lemma_lists(p, seq![ValueV::List(vs.push(v))]);
}

/// A copy is the value itself.
pub proof fn law_copies(w: WorldV, p: PlaceV, v: ValueV)
    ensures
        called(w, p, "clone"@, seq![v]) == (w, OutV::Value(v)),
        called(w, p, "copy"@, seq![v]) == (w, OutV::Value(v)),
{
    reveal(called);
    lemma_lists(p, seq![v]);
}

/// The keys and the values of a dictionary stand in the order of its entries.
pub proof fn law_keys_and_values(w: WorldV, p: PlaceV, es: Seq<(Seq<char>, ValueV)>, i: int)
    ensures
        ({
            let a = seq![ValueV::Dict(es)];
            let ks = called(w, p, "keys"@, a);
            let vs = called(w, p, "values"@, a);
            &&& ks.0 == w && vs.0 == w
            &&& ks.1 matches OutV::Value(ValueV::List(l)) && l.len() == es.len() && (0 <= i < es.len() ==> l[i]
                == ValueV::Str(es[i].0))
            &&& vs.1 matches OutV::Value(ValueV::List(l)) && l.len() == es.len() && (0 <= i < es.len() ==> l[i]
                == es[i].1)
        }),
{
    reveal(called);
    lemma_lists(p, seq![ValueV::Dict(es)]);
}

/// A text holds another exactly where it falls into three parts of which that is the middle one.
pub proof fn law_contains(w: WorldV, p: PlaceV, front: Seq<char>, t: Seq<char>, back: Seq<char>, s: Seq<char>)
    ensures
        called(w, p, "contains"@, seq![ValueV::Str(front + t + back), ValueV::Str(t)]) == (
            w,
            OutV::Value(ValueV::Bool(true)),
        ),
        (forall|x: Seq<char>, y: Seq<char>| s != #[trigger] (x + t + y)) ==> called(
            w,
            p,
            "contains"@,
            seq![ValueV::Str(s), ValueV::Str(t)],
        ) == (w, OutV::Value(ValueV::Bool(false))),
{
    reveal(called);
    let all = front + t + back;
    lemma_lists(p, seq![ValueV::Str(all), ValueV::Str(t)]);
    lemma_lists(p, seq![ValueV::Str(s), ValueV::Str(t)]);
    assert(all.subrange(front.len() as int, front.len() as int + t.len()) =~= t);
    assert(has_sub(all, t));
    if (forall|x: Seq<char>, y: Seq<char>| s != #[trigger] (x + t + y)) && has_sub(s, t) {
        let i = choose|i: int| 0 <= i && i + t.len() <= s.len() && #[trigger] s.subrange(i, i + t.len()) == t;
        assert(s =~= s.take(i) + s.subrange(i, i + t.len()) + s.skip(i + t.len()));
        assert(s == s.take(i) + t + s.skip(i + t.len()));
    }
}

/// The name of a value's type.
pub proof fn law_types_are_named(w: WorldV, p: PlaceV, n: i64, b: u64, t: bool, s: Seq<char>, vs: Seq<ValueV>)
    ensures
        called(w, p, "type_of"@, seq![ValueV::Int(n)]) == (w, OutV::Value(ValueV::Str("int"@))),
        called(w, p, "type_of"@, seq![ValueV::Float(b)]) == (w, OutV::Value(ValueV::Str("float"@))),
        called(w, p, "type_of"@, seq![ValueV::Bool(t)]) == (w, OutV::Value(ValueV::Str("bool"@))),
        called(w, p, "type_of"@, seq![ValueV::Str(s)]) == (w, OutV::Value(ValueV::Str("str"@))),
        called(w, p, "type_of"@, seq![ValueV::List(vs)]) == (w, OutV::Value(ValueV::Str("list"@))),
        called(w, p, "type_of"@, seq![ValueV::Null]) == (w, OutV::Value(ValueV::Str("null"@))),
{
    reveal(called);
    lemma_checks(p, seq![ValueV::Int(n)]);
    lemma_checks(p, seq![ValueV::Float(b)]);
    lemma_checks(p, seq![ValueV::Bool(t)]);
    lemma_checks(p, seq![ValueV::Str(s)]);
    lemma_checks(p, seq![ValueV::List(vs)]);
    lemma_checks(p, seq![ValueV::Null]);
}

/// What is asserted holds, or the message is an error.
pub proof fn law_asserts(w: WorldV, p: PlaceV, msg: Seq<char>)
    ensures
        called(w, p, "assert"@, seq![ValueV::Bool(true), ValueV::Str(msg)]) == (w, OutV::Value(ValueV::Null)),
        ({
            let r = called(w, p, "assert"@, seq![ValueV::Bool(false), ValueV::Str(msg)]);
            r.0 == w && (r.1 matches OutV::Error(e) && e.msg == msg)
        }),
{
    reveal(called);
    lemma_checks(p, seq![ValueV::Bool(true), ValueV::Str(msg)]);
    lemma_checks(p, seq![ValueV::Bool(false), ValueV::Str(msg)]);
}

proof fn lemma_one_text(t: Seq<char>, print: bool)
    ensures
        showing(seq![PieceV::Text(t)], print) == written(t, print),
{
    let ps = seq![PieceV::Text(t)];
    assert(floats_of(ps, 1) == floats_of(ps, 0));
    assert(floats_of(ps, 0).len() == 0);
    assert(assembled(ps, Seq::empty(), 1) == assembled(ps, Seq::empty(), 0) + t);
    assert(assembled(ps, Seq::empty(), 0) + t =~= t);
}

/// An integer that is turned into text and back is the same.
pub proof fn law_integers_read_back(w: WorldV, p: PlaceV, n: i64)
    ensures
        ({
            let r = called(w, p, "to_str"@, seq![ValueV::Int(n)]);
            &&& r.0 == w
            &&& r.1 matches OutV::Value(ValueV::Str(t)) && called(w, p, "to_int"@, seq![ValueV::Str(t)]) == (
                w,
                OutV::Value(ValueV::Int(n)),
            )
        }),
{
    reveal(called);
    let t = idec(n as int);
    let m = if n < 0 { (-n) as nat } else { n as nat };
    let d = dec(m);
    lemma_dec(m);
    lemma_numbers(p, seq![ValueV::Int(n)]);
    lemma_numbers(p, seq![ValueV::Str(t)]);
    lemma_one_text(t, false);
    law_numerals_read_back(n);
    assert(is_digit(d[0]) && is_digit(d.last()));
    assert(t.last() == d.last());
    assert(!white(t[0]) && !white(t.last()));
    lemma_trimmed(t);
    if n < 0 {
        assert(t.skip(1) =~= d);
    } else {
        assert(t[0] != '-');
    }
}

/// Printing a text asks for that very text to be printed, and an integer for its digits.
pub proof fn law_printing(w: WorldV, p: PlaceV, s: Seq<char>, n: i64)
    ensures
        called(w, p, "print"@, seq![ValueV::Str(s)]) == (w, OutV::Ask(RequestV::Print(s), PendingV::Null)),
        called(w, p, "print"@, seq![ValueV::Int(n)]) == (w, OutV::Ask(RequestV::Print(idec(n as int)), PendingV::Null)),
{
    reveal(called);
    lemma_lists(p, seq![ValueV::Str(s)]);
    lemma_lists(p, seq![ValueV::Int(n)]);
    lemma_one_text(s, true);
    lemma_one_text(idec(n as int), true);
}

} // verus!
