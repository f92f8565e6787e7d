//! Built-in functions on values, texts, files and paths.

use vstd::prelude::*;
use vstd::utf8::encode_utf8;

use super::world::{
    fail, failed, FloatOp, Out, OutV, Pending, PendingV, Place, PlaceV, Request, RequestV,
};
use crate::error::codes;
use crate::text::{all_digits, cat3, cat5, cat7, chars, dec, dec_usize, eq, slice};
use crate::value::{
    same_value, assemble, assembled, dict_v, float_abs, floats_of, magnitude, piece_floats,
    pieces_v, shown, value_v, values_v, Piece, PieceV, Value, ValueV, INFINITE,
};
use crate::words::{contains, has_sub, int_of, parse_int, trim, trimmed};

verus! {

/// The error of a call with too few arguments.
pub open spec fn too_few(p: PlaceV, name: Seq<char>, want: nat, got: nat) -> OutV {
    failed(
        p,
        codes::ARG_COUNT@,
        "wrong number of arguments: `"@ + name + "` expects "@ + dec(want) + ", got "@ + dec(got),
        Some("check the function signature"@),
    )
}

/// The error of a call with too few arguments.
pub fn arg_err(p: &Place, name: &str, want: usize, got: usize) -> (r: Out)
    ensures
        r@ == too_few(p@, name@, want as nat, got as nat),
{
    let msg = crate::text::cat6(
        "wrong number of arguments: `",
        name,
        "` expects ",
        dec_usize(want).as_str(),
        ", got ",
        dec_usize(got).as_str(),
    );
    fail(p, codes::ARG_COUNT, msg.as_str(), Some("check the function signature"))
}

/// The error of an argument of the wrong type.
pub open spec fn wrong_arg(p: PlaceV, name: Seq<char>, what: Seq<char>, i: nat, v: ValueV, help: Seq<char>) -> OutV {
    failed(
        p,
        codes::TYPE_MISMATCH@,
        "`"@ + name + "` expects "@ + what + " for argument "@ + dec(i + 1) + ", got `"@ + v.type_text() + "`"@,
        Some(help),
    )
}

/// The error of an argument of the wrong type.
pub fn wrong(p: &Place, name: &str, what: &str, i: usize, v: &Value, help: &str) -> (r: Out)
    requires
        i < usize::MAX,
    ensures
        r@ == wrong_arg(p@, name@, what@, i as nat, v@, help@),
{
    let mut msg = cat5("`", name, "` expects ", what, " for argument ");
    msg.append(dec_usize(i + 1).as_str());
    msg.append(", got `");
    msg.append(v.kind_name());
    msg.append("`");
    fail(p, codes::TYPE_MISMATCH, msg.as_str(), Some(help))
}

/// The text at a place of the arguments, or the error that there is none.
pub open spec fn text_at(p: PlaceV, name: Seq<char>, a: Seq<ValueV>, i: int) -> Result<Seq<char>, OutV> {
    match a[i] {
        ValueV::Str(s) => Ok(s),
        v => Err(wrong_arg(p, name, "a string"@, i as nat, v, "pass a string value"@)),
    }
}

/// The text at a place of the arguments, or the error that there is none.
pub fn get_text<'a>(p: &Place, name: &str, a: &'a Vec<Value>, i: usize) -> (r: Result<&'a str, Out>)
    requires
        i < a.len(),
    ensures
        match r {
            Ok(s) => text_at(p@, name@, values_v(a@), i as int) == Ok::<Seq<char>, OutV>(s@),
            Err(o) => text_at(p@, name@, values_v(a@), i as int) == Err::<Seq<char>, OutV>(o@),
        },
{
    assert(values_v(a@)[i as int] == a@[i as int]@);
    match &a[i] {
        Value::Str(s) => Ok(s.as_str()),
        v => Err(wrong(p, name, "a string", i, v, "pass a string value")),
    }
}

/// The integer at a place of the arguments, or the error that there is none.
pub open spec fn int_at(p: PlaceV, name: Seq<char>, a: Seq<ValueV>, i: int) -> Result<i64, OutV> {
    match a[i] {
        ValueV::Int(n) => Ok(n),
        v => Err(wrong_arg(p, name, "an integer"@, i as nat, v, "pass an `int` value"@)),
    }
}

/// The integer at a place of the arguments, or the error that there is none.
pub fn get_int(p: &Place, name: &str, a: &Vec<Value>, i: usize) -> (r: Result<i64, Out>)
    requires
        i < a.len(),
    ensures
        match r {
            Ok(n) => int_at(p@, name@, values_v(a@), i as int) == Ok::<i64, OutV>(n),
            Err(o) => int_at(p@, name@, values_v(a@), i as int) == Err::<i64, OutV>(o@),
        },
{
    assert(values_v(a@)[i as int] == a@[i as int]@);
    match &a[i] {
        Value::Int(n) => Ok(*n),
        v => Err(wrong(p, name, "an integer", i, v, "pass an `int` value")),
    }
}

/// A finished text: printed, or given.
pub open spec fn written(t: Seq<char>, print: bool) -> OutV {
    if print {
        OutV::Ask(RequestV::Print(t), PendingV::Null)
    } else {
        OutV::Value(ValueV::Str(t))
    }
}

/// A value's text: printed, or given. Its floating-point numbers are asked for first.
pub open spec fn showing(ps: Seq<PieceV>, print: bool) -> OutV {
    let fl = floats_of(ps, ps.len() as int);
    if fl.len() == 0 {
        written(assembled(ps, Seq::empty(), ps.len() as int), print)
    } else {
        OutV::Ask(RequestV::FloatTexts(fl), PendingV::Show(ps, print))
    }
}

/// A finished text: printed, or given.
pub fn write_out(t: String, print: bool) -> (r: Out)
    ensures
        r@ == written(t@, print),
{
    if print {
        Out::Ask(Request::Print(t), Pending::Null)
    } else {
        Out::Value(Value::Str(t))
    }
}

/// The text that pieces make: printed, or given.
pub fn show_pieces(ps: Vec<Piece>, print: bool) -> (r: Out)
    ensures
        r@ == showing(pieces_v(ps@), print),
{
    let fl = piece_floats(&ps);
    if fl.len() == 0 {
        let none: Vec<String> = Vec::new();
        assert(crate::text::strs(none@) =~= Seq::empty());
        write_out(assemble(&ps, &none), print)
    } else {
        Out::Ask(Request::FloatTexts(fl), Pending::Show(ps, print))
    }
}

/// A value's text: printed, or given.
pub fn show(v: &Value, print: bool) -> (r: Out)
    ensures
        r@ == showing(shown(v@), print),
{
    let mut ps: Vec<Piece> = Vec::new();
    assert(pieces_v(ps@) =~= Seq::empty());
    v.pieces(&mut ps);
    assert(pieces_v(ps@) =~= shown(v@));
    show_pieces(ps, print)
}

/// The length of a text in bytes, of a list in items, of a dictionary in entries.
pub open spec fn len_of(p: PlaceV, a: Seq<ValueV>) -> OutV {
    match a[0] {
        ValueV::Str(s) => OutV::Value(ValueV::Int(encode_utf8(s).len() as i64)),
        ValueV::List(vs) => OutV::Value(ValueV::Int(vs.len() as i64)),
        ValueV::Dict(es) => OutV::Value(ValueV::Int(es.len() as i64)),
        v => failed(
            p,
            codes::TYPE_MISMATCH@,
            "`len` expects a string, list, or dict, got `"@ + v.type_text() + "`"@,
            Some("`len` returns the byte length of a string, or the element count of a list/dict"@),
        ),
    }
}

/// Calls `len`.
pub fn do_len(p: &Place, a: &Vec<Value>) -> (r: Out)
    requires
        a.len() >= 1,
    ensures
        r@ == len_of(p@, values_v(a@)),
{
    assert(values_v(a@)[0] == a@[0]@);
    match &a[0] {
        Value::Str(s) => Out::Value(Value::Int(s.as_str().as_bytes().len() as i64)),
        Value::List(vs) => Out::Value(Value::Int(vs.len() as i64)),
        Value::Dict(es) => Out::Value(Value::Int(es.len() as i64)),
        v => {
            let msg = cat3("`len` expects a string, list, or dict, got `", v.kind_name(), "`");
            fail(
                p,
                codes::TYPE_MISMATCH,
                msg.as_str(),
                Some("`len` returns the byte length of a string, or the element count of a list/dict"),
            )
        },
    }
}

/// A list with a value behind its items.
pub open spec fn append_of(p: PlaceV, a: Seq<ValueV>) -> OutV {
    match a[0] {
        ValueV::List(vs) => OutV::Value(ValueV::List(vs.push(a[1]))),
        v => failed(
            p,
            codes::TYPE_MISMATCH@,
            "`append` expects a list, got `"@ + v.type_text() + "`"@,
            Some("use `l = append(l, x)` to add `x` to the tail of list `l`"@),
        ),
    }
}

/// Calls `append`.
pub fn do_append(p: &Place, a: &Vec<Value>) -> (r: Out)
    requires
        a.len() >= 2,
    ensures
        r@ == append_of(p@, values_v(a@)),
{
    assert(values_v(a@)[0] == a@[0]@);
    assert(values_v(a@)[1] == a@[1]@);
    match &a[0] {
        Value::List(vs) => {
            let mut out = super::world::dup_all(vs);
            out.push(a[1].dup());
            assert(values_v(out@) =~= values_v(vs@).push(a@[1]@));
            Out::Value(Value::List(out))
        },
        v => {
            let msg = cat3("`append` expects a list, got `", v.kind_name(), "`");
            fail(
                p,
                codes::TYPE_MISMATCH,
                msg.as_str(),
                Some("use `l = append(l, x)` to add `x` to the tail of list `l`"),
            )
        },
    }
}

/// Whether two values are the same, down to their items and members.
pub fn values_eq(a: &Value, b: &Value) -> (r: bool)
    ensures
        r == same_value(a@, b@),
{
    a.same(b)
}

/// The first place from `i` on at which a list holds a value.
pub open spec fn place_of(vs: Seq<ValueV>, v: ValueV, i: int) -> Option<int>
    decreases vs.len() - i,
{
    if i < 0 || i >= vs.len() {
        None
    } else if same_value(vs[i], v) {
        Some(i)
    } else {
        place_of(vs, v, i + 1)
    }
}

fn find_value(vs: &Vec<Value>, v: &Value) -> (r: Option<usize>)
    ensures
        match r {
            Some(i) => place_of(values_v(vs@), v@, 0) == Some(i as int),
            None => place_of(values_v(vs@), v@, 0) is None,
        },
{
    let mut i: usize = 0;
    while i < vs.len()
        invariant
            i <= vs.len(),
            place_of(values_v(vs@), v@, 0) == place_of(values_v(vs@), v@, i as int),
        decreases vs.len() - i,
    {
        assert(values_v(vs@)[i as int] == vs@[i as int]@);
        if values_eq(&vs[i], v) {
            return Some(i);
        }
        i = i + 1;
    }
    None
}

/// Whether a list holds a value, or a text another text.
pub open spec fn contains_of(p: PlaceV, a: Seq<ValueV>) -> OutV {
    match a[0] {
        ValueV::List(vs) => OutV::Value(ValueV::Bool(place_of(vs, a[1], 0) is Some)),
        ValueV::Str(s) => match a[1] {
            ValueV::Str(t) => OutV::Value(ValueV::Bool(has_sub(s, t))),
            v => failed(
                p,
                codes::TYPE_MISMATCH@,
                "`contains` on a string expects a string, got `"@ + v.type_text() + "`"@,
                Some("pass a substring"@),
            ),
        },
        v => failed(
            p,
            codes::TYPE_MISMATCH@,
            "`contains` expects a list or string, got `"@ + v.type_text() + "`"@,
            Some("pass a list or string as the first argument"@),
        ),
    }
}

/// Calls `contains`.
pub fn do_contains(p: &Place, a: &Vec<Value>) -> (r: Out)
    requires
        a.len() >= 2,
    ensures
        r@ == contains_of(p@, values_v(a@)),
{
    assert(values_v(a@)[0] == a@[0]@);
    assert(values_v(a@)[1] == a@[1]@);
    match &a[0] {
        Value::List(vs) => Out::Value(Value::Bool(find_value(vs, &a[1]).is_some())),
        Value::Str(s) => match &a[1] {
            Value::Str(t) => Out::Value(Value::Bool(contains(s.as_str(), t.as_str()))),
            v => {
                let msg = cat3("`contains` on a string expects a string, got `", v.kind_name(), "`");
                fail(p, codes::TYPE_MISMATCH, msg.as_str(), Some("pass a substring"))
            },
        },
        v => {
            let msg = cat3("`contains` expects a list or string, got `", v.kind_name(), "`");
            fail(p, codes::TYPE_MISMATCH, msg.as_str(), Some("pass a list or string as the first argument"))
        },
    }
}

/// The first place of a value in a list, or minus one.
pub open spec fn index_of_of(p: PlaceV, a: Seq<ValueV>) -> OutV {
    match a[0] {
        ValueV::List(vs) => match place_of(vs, a[1], 0) {
            Some(i) => OutV::Value(ValueV::Int(i as i64)),
            None => OutV::Value(ValueV::Int((-1) as i64)),
        },
        v => failed(
            p,
            codes::TYPE_MISMATCH@,
            "`index_of` expects a list, got `"@ + v.type_text() + "`"@,
            Some("pass a list as the first argument"@),
        ),
    }
}

/// Calls `index_of`.
pub fn do_index_of(p: &Place, a: &Vec<Value>) -> (r: Out)
    requires
        a.len() >= 2,
    ensures
        r@ == index_of_of(p@, values_v(a@)),
{
    assert(values_v(a@)[0] == a@[0]@);
    assert(values_v(a@)[1] == a@[1]@);
    match &a[0] {
        Value::List(vs) => match find_value(vs, &a[1]) {
            Some(i) => Out::Value(Value::Int(i as i64)),
            None => Out::Value(Value::Int(-1)),
        },
        v => {
            let msg = cat3("`index_of` expects a list, got `", v.kind_name(), "`");
            fail(p, codes::TYPE_MISMATCH, msg.as_str(), Some("pass a list as the first argument"))
        },
    }
}

/// The keys of a dictionary, in order.
pub open spec fn keys_of(es: Seq<(Seq<char>, ValueV)>) -> Seq<ValueV> {
    Seq::new(es.len(), |i: int| ValueV::Str(es[i].0))
}

/// The values of a dictionary, in order.
pub open spec fn vals_of(es: Seq<(Seq<char>, ValueV)>) -> Seq<ValueV> {
    Seq::new(es.len(), |i: int| es[i].1)
}

/// The keys or the values of a dictionary.
pub open spec fn sides_of(p: PlaceV, name: Seq<char>, a: Seq<ValueV>) -> OutV {
    match a[0] {
        ValueV::Dict(es) => OutV::Value(ValueV::List(if name == "keys"@ { keys_of(es) } else { vals_of(es) })),
        v => failed(
            p,
            codes::TYPE_MISMATCH@,
            "`"@ + name + "` expects a dict, got `"@ + v.type_text() + "`"@,
            Some("pass a dict as the argument"@),
        ),
    }
}

/// Calls `keys` or `values`.
pub fn do_sides(p: &Place, name: &str, a: &Vec<Value>) -> (r: Out)
    requires
        a.len() >= 1,
    ensures
        r@ == sides_of(p@, name@, values_v(a@)),
{
    assert(values_v(a@)[0] == a@[0]@);
    match &a[0] {
        Value::Dict(es) => {
            let keys = eq(name, "keys");
            let mut out: Vec<Value> = Vec::new();
            let mut i: usize = 0;
            let ghost want = if keys { keys_of(dict_v(es@)) } else { vals_of(dict_v(es@)) };
            while i < es.len()
                invariant
                    i <= es.len(),
                    out.len() == i,
                    want == (if keys { keys_of(dict_v(es@)) } else { vals_of(dict_v(es@)) }),
                    forall|k: int| 0 <= k < i ==> value_v(#[trigger] out@[k]) == want[k],
                decreases es.len() - i,
            {
                assert(dict_v(es@)[i as int] == (es@[i as int].0@, es@[i as int].1@));
                if keys {
                    out.push(Value::Str(es[i].0.clone()));
                } else {
                    out.push(es[i].1.dup());
                }
                i = i + 1;
            }
            assert(values_v(out@) =~= want);
            Out::Value(Value::List(out))
        },
        v => {
            let msg = cat5("`", name, "` expects a dict, got `", v.kind_name(), "`");
            fail(p, codes::TYPE_MISMATCH, msg.as_str(), Some("pass a dict as the argument"))
        },
    }
}

/// The first place from `i` on at which a dictionary has a key.
pub open spec fn key_place(es: Seq<(Seq<char>, ValueV)>, k: Seq<char>, i: int) -> Option<int>
    decreases es.len() - i,
{
    if i < 0 || i >= es.len() {
        None
    } else if es[i].0 == k {
        Some(i)
    } else {
        key_place(es, k, i + 1)
    }
}

/// The first place at which a dictionary has a key.
pub fn find_key(es: &Vec<(String, Value)>, k: &str) -> (r: Option<usize>)
    ensures
        match r {
            Some(i) => key_place(dict_v(es@), k@, 0) == Some(i as int) && i < es.len(),
            None => key_place(dict_v(es@), k@, 0) is None,
        },
{
    let mut i: usize = 0;
    while i < es.len()
        invariant
            i <= es.len(),
            key_place(dict_v(es@), k@, 0) == key_place(dict_v(es@), k@, i as int),
        decreases es.len() - i,
    {
        assert(dict_v(es@)[i as int] == (es@[i as int].0@, es@[i as int].1@));
        if eq(es[i].0.as_str(), k) {
            return Some(i);
        }
        i = i + 1;
    }
    None
}

/// Whether a dictionary has a key.
pub open spec fn has_key_of(p: PlaceV, a: Seq<ValueV>) -> OutV {
    match text_at(p, "has_key"@, a, 1) {
        Err(o) => o,
        Ok(k) => match a[0] {
            ValueV::Dict(es) => OutV::Value(ValueV::Bool(key_place(es, k, 0) is Some)),
            v => failed(
                p,
                codes::TYPE_MISMATCH@,
                "`has_key` expects a dict, got `"@ + v.type_text() + "`"@,
                Some("pass a dict as the first argument and a key string as the second"@),
            ),
        },
    }
}

/// Calls `has_key`.
pub fn do_has_key(p: &Place, a: &Vec<Value>) -> (r: Out)
    requires
        a.len() >= 2,
    ensures
        r@ == has_key_of(p@, values_v(a@)),
{
    assert(values_v(a@)[0] == a@[0]@);
    match get_text(p, "has_key", a, 1) {
        Err(o) => o,
        Ok(k) => match &a[0] {
            Value::Dict(es) => Out::Value(Value::Bool(find_key(es, k).is_some())),
            v => {
                let msg = cat3("`has_key` expects a dict, got `", v.kind_name(), "`");
                fail(
                    p,
                    codes::TYPE_MISMATCH,
                    msg.as_str(),
                    Some("pass a dict as the first argument and a key string as the second"),
                )
            },
        },
    }
}

/// Nothing where a condition holds, else an error with the given message.
pub open spec fn assert_of(p: PlaceV, a: Seq<ValueV>) -> OutV {
    match a[0] {
        ValueV::Bool(b) => if b {
            OutV::Value(ValueV::Null)
        } else if a.len() > 1 && a[1] is Str {
            failed(p, codes::ASSERT@, a[1]->Str_0, None)
        } else {
            failed(p, codes::ASSERT@, "assertion failed"@, None)
        },
        v => failed(
            p,
            codes::TYPE_MISMATCH@,
            "`assert` expects a `bool` condition, got `"@ + v.type_text() + "`"@,
            Some("pass a boolean expression, e.g. `assert(x == 1)`"@),
        ),
    }
}

/// Calls `assert`.
pub fn do_assert(p: &Place, a: &Vec<Value>) -> (r: Out)
    requires
        a.len() >= 1,
    ensures
        r@ == assert_of(p@, values_v(a@)),
{
    assert(values_v(a@)[0] == a@[0]@);
    match &a[0] {
        Value::Bool(b) => {
            if *b {
                return Out::Value(Value::Null);
            }
            if a.len() > 1 {
                assert(values_v(a@)[1] == a@[1]@);
                if let Value::Str(s) = &a[1] {
                    return fail(p, codes::ASSERT, s.as_str(), None);
                }
            }
            fail(p, codes::ASSERT, "assertion failed", None)
        },
        v => {
            let msg = cat3("`assert` expects a `bool` condition, got `", v.kind_name(), "`");
            fail(
                p,
                codes::TYPE_MISMATCH,
                msg.as_str(),
                Some("pass a boolean expression, e.g. `assert(x == 1)`"),
            )
        },
    }
}

/// Whether a value is of the type that a function asks for.
pub open spec fn is_kind(name: Seq<char>, v: ValueV) -> bool {
    if name == "is_int"@ {
        v is Int
    } else if name == "is_float"@ {
        v is Float
    } else if name == "is_str"@ {
        v is Str
    } else if name == "is_bool"@ {
        v is Bool
    } else if name == "is_list"@ {
        v is List
    } else if name == "is_dict"@ {
        v is Dict
    } else {
        v is Null
    }
}

/// Whether a value is of the kind that a function asks for.
pub fn has_kind(name: &str, v: &Value) -> (r: bool)
    ensures
        r == is_kind(name@, v@),
{
    if eq(name, "is_int") {
        matches!(v, Value::Int(_))
    } else if eq(name, "is_float") {
        matches!(v, Value::Float(_))
    } else if eq(name, "is_str") {
        matches!(v, Value::Str(_))
    } else if eq(name, "is_bool") {
        matches!(v, Value::Bool(_))
    } else if eq(name, "is_list") {
        matches!(v, Value::List(_))
    } else if eq(name, "is_dict") {
        matches!(v, Value::Dict(_))
    } else {
        matches!(v, Value::Null)
    }
}

/// The integer of a text without the white space at its ends: an optional minus sign and
/// digits.
pub open spec fn text_int(p: PlaceV, s: Seq<char>, t: Seq<char>) -> OutV {
    let d = if t.len() > 0 && t[0] == '-' { t.skip(1) } else { t };
    if d.len() == 0 || !all_digits(d) {
        failed(
            p,
            codes::STR_TO_INT@,
            "cannot convert `"@ + s + "` to `int`: not a pure digit string"@,
            Some("`to_int` on a string requires digits only (optional leading `-`)"@),
        )
    } else {
        match int_of(t) {
            Some(n) => OutV::Value(ValueV::Int(n as i64)),
            None => failed(
                p,
                codes::STR_TO_INT@,
                "cannot convert `"@ + s + "` to `int`: out of range"@,
                Some("the value does not fit in a 64-bit signed integer"@),
            ),
        }
    }
}

/// The integer of a text `t` that is `s` without the white space at its ends.
pub fn to_int_text(p: &Place, s: &str, t: &str) -> (r: Out)
    ensures
        r@ == text_int(p@, s@, t@),
{
    let v = chars(t);
    let from: usize = if v.len() > 0 && v[0] == '-' { 1 } else { 0 };
    let n: usize = v.len();
    let d = slice(&v, from, n);
    assert(d@ =~= if t@.len() > 0 && t@[0] == '-' { t@.skip(1) } else { t@ });
    let dv = chars(d.as_str());
    let mut digits = true;
    let mut i: usize = 0;
    while i < dv.len()
        invariant
            i <= dv.len(),
            digits == (forall|k: int| 0 <= k < i ==> crate::text::is_digit(#[trigger] dv@[k])),
        decreases dv.len() - i,
    {
        if dv[i] < '0' || dv[i] > '9' {
            digits = false;
            assert(!crate::text::is_digit(dv@[i as int]));
        }
        i = i + 1;
    }
    if dv.len() == 0 || !digits {
        let msg = cat3("cannot convert `", s, "` to `int`: not a pure digit string");
        return fail(
            p,
            codes::STR_TO_INT,
            msg.as_str(),
            Some("`to_int` on a string requires digits only (optional leading `-`)"),
        );
    }
    match parse_int(t) {
        Some(n) => Out::Value(Value::Int(n)),
        None => {
            let msg = cat3("cannot convert `", s, "` to `int`: out of range");
            fail(
                p,
                codes::STR_TO_INT,
                msg.as_str(),
                Some("the value does not fit in a 64-bit signed integer"),
            )
        },
    }
}

/// Whether a floating-point number is neither infinite nor not a number.
pub open spec fn is_finite(bits: u64) -> bool {
    magnitude(bits) < INFINITE
}

/// Whether a floating-point number is finite.
pub fn finite(bits: u64) -> (r: bool)
    ensures
        r == is_finite(bits),
{
    float_abs(bits) < INFINITE
}

/// A value as an integer.
pub open spec fn to_int_of(p: PlaceV, a: Seq<ValueV>) -> OutV {
    match a[0] {
        ValueV::Int(n) => OutV::Value(ValueV::Int(n)),
        ValueV::Float(b) => if is_finite(b) {
            OutV::Ask(RequestV::FloatToInt(b), PendingV::Given)
        } else {
            failed(p, codes::TYPE_MISMATCH@, "cannot convert NaN/infinity to `int`"@, None)
        },
        ValueV::Str(s) => text_int(p, s, trimmed(s)),
        v => failed(
            p,
            codes::TYPE_MISMATCH@,
            "cannot convert `"@ + v.type_text() + "` to `int`"@,
            Some("`to_int` accepts `int`, `float` or a pure-digit `str`"@),
        ),
    }
}

/// Calls `to_int`.
pub fn do_to_int(p: &Place, a: &Vec<Value>) -> (r: Out)
    requires
        a.len() >= 1,
    ensures
        r@ == to_int_of(p@, values_v(a@)),
{
    assert(values_v(a@)[0] == a@[0]@);
    match &a[0] {
        Value::Int(n) => Out::Value(Value::Int(*n)),
        Value::Float(b) => {
            if finite(*b) {
                Out::Ask(Request::FloatToInt(*b), Pending::Given)
            } else {
                fail(p, codes::TYPE_MISMATCH, "cannot convert NaN/infinity to `int`", None)
            }
        },
        Value::Str(s) => {
            let t = trim(s.as_str());
            to_int_text(p, s.as_str(), t.as_str())
        },
        v => {
            let msg = cat3("cannot convert `", v.kind_name(), "` to `int`");
            fail(
                p,
                codes::TYPE_MISMATCH,
                msg.as_str(),
                Some("`to_int` accepts `int`, `float` or a pure-digit `str`"),
            )
        },
    }
}

/// A value as a floating-point number.
pub open spec fn to_float_of(p: PlaceV, a: Seq<ValueV>) -> OutV {
    match a[0] {
        ValueV::Int(n) => OutV::Ask(RequestV::FloatFromInt(n), PendingV::Given),
        ValueV::Float(b) => OutV::Value(ValueV::Float(b)),
        ValueV::Str(s) => OutV::Ask(RequestV::FloatFromText(trimmed(s)), PendingV::ToFloat(s)),
        v => failed(
            p,
            codes::TYPE_MISMATCH@,
            "cannot convert `"@ + v.type_text() + "` to `float`"@,
            Some("`to_float` accepts `int`, `float` or a numeric `str`"@),
        ),
    }
}

/// Calls `to_float`.
pub fn do_to_float(p: &Place, a: &Vec<Value>) -> (r: Out)
    requires
        a.len() >= 1,
    ensures
        r@ == to_float_of(p@, values_v(a@)),
{
    assert(values_v(a@)[0] == a@[0]@);
    match &a[0] {
        Value::Int(n) => Out::Ask(Request::FloatFromInt(*n), Pending::Given),
        Value::Float(b) => Out::Value(Value::Float(*b)),
        Value::Str(s) => Out::Ask(Request::FloatFromText(trim(s.as_str())), Pending::ToFloat(s.clone())),
        v => {
            let msg = cat3("cannot convert `", v.kind_name(), "` to `float`");
            fail(
                p,
                codes::TYPE_MISMATCH,
                msg.as_str(),
                Some("`to_float` accepts `int`, `float` or a numeric `str`"),
            )
        },
    }
}

/// The absolute value of a number.
pub open spec fn abs_of(p: PlaceV, a: Seq<ValueV>) -> OutV {
    match a[0] {
        ValueV::Int(n) => if n == i64::MIN {
            failed(p, codes::INTEGER_OVERFLOW@, "`abs` overflow on i64::MIN"@, None)
        } else {
            OutV::Value(ValueV::Int(if n < 0 { (-n) as i64 } else { n }))
        },
        ValueV::Float(b) => OutV::Value(ValueV::Float(magnitude(b))),
        v => failed(
            p,
            codes::TYPE_MISMATCH@,
            "`abs` expects a number, got `"@ + v.type_text() + "`"@,
            Some("pass an `int` or `float`"@),
        ),
    }
}

/// Calls `abs`.
pub fn do_abs(p: &Place, a: &Vec<Value>) -> (r: Out)
    requires
        a.len() >= 1,
    ensures
        r@ == abs_of(p@, values_v(a@)),
{
    assert(values_v(a@)[0] == a@[0]@);
    match &a[0] {
        Value::Int(n) => {
            if *n == i64::MIN {
                fail(p, codes::INTEGER_OVERFLOW, "`abs` overflow on i64::MIN", None)
            } else {
                Out::Value(Value::Int(if *n < 0 { -*n } else { *n }))
            }
        },
        Value::Float(b) => Out::Value(Value::Float(float_abs(*b))),
        v => {
            let msg = cat3("`abs` expects a number, got `", v.kind_name(), "`");
            fail(p, codes::TYPE_MISMATCH, msg.as_str(), Some("pass an `int` or `float`"))
        },
    }
}

/// The larger or the smaller of two numbers of the same type.
pub open spec fn extreme_of(p: PlaceV, name: Seq<char>, a: Seq<ValueV>) -> OutV {
    let max = name == "max"@;
    match (a[0], a[1]) {
        (ValueV::Int(x), ValueV::Int(y)) => OutV::Value(
            ValueV::Int(if (x < y) == max { y } else { x }),
        ),
        (ValueV::Float(x), ValueV::Float(y)) => OutV::Ask(
            RequestV::Float(if max { FloatOp::Max } else { FloatOp::Min }, x, y),
            PendingV::Given,
        ),
        (x, y) => failed(
            p,
            codes::TYPE_MISMATCH@,
            "`"@ + name + "` requires two operands of the same type, got `"@ + x.type_text() + "` and `"@
                + y.type_text() + "`"@,
            Some("Hone has no implicit type conversion"@),
        ),
    }
}

/// Calls `max` or `min`.
pub fn do_extreme(p: &Place, name: &str, a: &Vec<Value>) -> (r: Out)
    requires
        a.len() >= 2,
    ensures
        r@ == extreme_of(p@, name@, values_v(a@)),
{
    assert(values_v(a@)[0] == a@[0]@);
    assert(values_v(a@)[1] == a@[1]@);
    let max = eq(name, "max");
    match (&a[0], &a[1]) {
        (Value::Int(x), Value::Int(y)) => Out::Value(Value::Int(if (*x < *y) == max { *y } else { *x })),
        (Value::Float(x), Value::Float(y)) => Out::Ask(
            Request::Float(if max { FloatOp::Max } else { FloatOp::Min }, *x, *y),
            Pending::Given,
        ),
        (x, y) => {
            let msg = cat7(
                "`",
                name,
                "` requires two operands of the same type, got `",
                x.kind_name(),
                "` and `",
                y.kind_name(),
                "`",
            );
            fail(p, codes::TYPE_MISMATCH, msg.as_str(), Some("Hone has no implicit type conversion"))
        },
    }
}

proof fn lemma_place(vs: Seq<ValueV>, v: ValueV, i: int)
    requires
        0 <= i,
    ensures
        place_of(vs, v, i) matches Some(k) ==> i <= k < vs.len() && same_value(vs[k], v) && forall|j: int|
            i <= j < k ==> !same_value(#[trigger] vs[j], v),
        place_of(vs, v, i) is None ==> forall|j: int| i <= j < vs.len() ==> !same_value(#[trigger] vs[j], v),
    decreases vs.len() - i,
{
    if i < vs.len() && !same_value(vs[i], v) {
        lemma_place(vs, v, i + 1);
    }
}

/// `index_of` gives the first place that holds a value equal to the one asked for where
/// `contains` says that there is one, and minus one where it says that there is none.
pub proof fn law_index_of_agrees_with_contains(p: PlaceV, vs: Seq<ValueV>, v: ValueV)
    ensures
        ({
            let a = seq![ValueV::List(vs), v];
            match place_of(vs, v, 0) {
                Some(k) => {
                    &&& contains_of(p, a) == OutV::Value(ValueV::Bool(true))
                    &&& index_of_of(p, a) == OutV::Value(ValueV::Int(k as i64))
                    &&& 0 <= k < vs.len() && same_value(vs[k], v)
                    &&& vs.len() <= i64::MAX ==> k as i64 == k
                    &&& forall|j: int| 0 <= j < k ==> !same_value(#[trigger] vs[j], v)
                },
                None => {
                    &&& contains_of(p, a) == OutV::Value(ValueV::Bool(false))
                    &&& index_of_of(p, a) == OutV::Value(ValueV::Int(-1i64))
                    &&& forall|j: int| 0 <= j < vs.len() ==> !same_value(#[trigger] vs[j], v)
                },
            }
        }),
{
    lemma_place(vs, v, 0);
}

proof fn lemma_key(es: Seq<(Seq<char>, ValueV)>, k: Seq<char>, i: int)
    requires
        0 <= i,
    ensures
        key_place(es, k, i) is Some <==> exists|j: int| i <= j < es.len() && (#[trigger] es[j]).0 == k,
    decreases es.len() - i,
{
    if i < es.len() && es[i].0 != k {
        lemma_key(es, k, i + 1);
    }
}

/// A dictionary has the keys that `keys` lists, and no others.
pub proof fn law_has_key_agrees_with_keys(p: PlaceV, es: Seq<(Seq<char>, ValueV)>, k: Seq<char>)
    ensures
        has_key_of(p, seq![ValueV::Dict(es), ValueV::Str(k)]) == OutV::Value(
            ValueV::Bool(keys_of(es).contains(ValueV::Str(k))),
        ),
        sides_of(p, "keys"@, seq![ValueV::Dict(es)]) == OutV::Value(ValueV::List(keys_of(es))),
{
    lemma_key(es, k, 0);
    if keys_of(es).contains(ValueV::Str(k)) {
        let j = choose|j: int| 0 <= j < keys_of(es).len() && keys_of(es)[j] == ValueV::Str(k);
        assert(es[j].0 == k);
    }
    if key_place(es, k, 0) is Some {
        let j = choose|j: int| 0 <= j < es.len() && (#[trigger] es[j]).0 == k;
        assert(keys_of(es)[j] == ValueV::Str(k));
    }
}

} // verus!
