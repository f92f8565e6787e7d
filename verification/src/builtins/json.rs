//! Values as JSON texts, and back.

use vstd::prelude::*;

use super::basics::{finite, is_finite};
use super::digest::text_r;
use super::world::{fault, Place, PlaceV};
use crate::error::{codes, ErrV, ZError};
use crate::text::{cat2, dec_i64, idec, strs};
use crate::value::{dict_v, values_v, Value, ValueV};
use serde_json::Value as Tree;

verus! {

/// The outermost level of a JSON text: its items and members are JSON texts themselves.
pub enum Json {
    Null,
    Bool(bool),
    /// A number that is an integer of 64 bits with a sign.
    Int(i64),
    /// Another number, by the bits of the floating-point number nearest to it.
    Float(u64),
    /// A number that is neither.
    Odd,
    Str(String),
    Arr(Vec<String>),
    Obj(Vec<(String, String)>),
}

/// The outermost level of a JSON text, mathematically.
pub enum JsonV {
    Null,
    Bool(bool),
    Int(i64),
    Float(u64),
    Odd,
    Str(Seq<char>),
    Arr(Seq<Seq<char>>),
    Obj(Seq<(Seq<char>, Seq<char>)>),
}

/// The mathematical form of pairs of texts.
pub open spec fn pairs_v(s: Seq<(String, String)>) -> Seq<(Seq<char>, Seq<char>)> {
    s.map_values(|e: (String, String)| (e.0@, e.1@))
}

impl View for Json {
    type V = JsonV;

    open spec fn view(&self) -> JsonV {
        match *self {
            Json::Null => JsonV::Null,
            Json::Bool(b) => JsonV::Bool(b),
            Json::Int(n) => JsonV::Int(n),
            Json::Float(b) => JsonV::Float(b),
            Json::Odd => JsonV::Odd,
            Json::Str(s) => JsonV::Str(s@),
            Json::Arr(v) => JsonV::Arr(strs(v@)),
            Json::Obj(v) => JsonV::Obj(pairs_v(v@)),
        }
    }
}

/// The outermost level of a JSON text or a message, mathematically.
pub open spec fn json_r(r: Result<Json, String>) -> Result<JsonV, Seq<char>> {
    match r {
        Ok(j) => Ok(j@),
        Err(e) => Err(e@),
    }
}

/// The outermost level of a text as JSON, or why it is none.
pub uninterp spec fn json_top(s: Seq<char>) -> Result<JsonV, Seq<char>>;

/// Whether a JSON text was read as something.
pub open spec fn json_is(r: Result<Json, String>, j: JsonV) -> bool {
    json_r(r) == Ok::<JsonV, Seq<char>>(j)
}

/// Whether a text is the JSON text of something.
pub open spec fn json_reads(s: Seq<char>, j: JsonV) -> bool {
    json_top(s) == Ok::<JsonV, Seq<char>>(j)
}

/// The outermost level of a text as JSON (`serde_json::from_str` to a `serde_json::Value`,
/// its items and members written out again with `to_string`), or the text of the error: it
/// depends on the text alone. The members come in the order in which `serde_json::Map`
/// walks them. The words `null`, `true` and `false` and the numerals of integers of 64 bits
/// are read as what they say.
#[verifier::external_body]
pub(crate) fn json_read(s: &str) -> (r: Result<Json, String>)
    ensures
        json_r(r) == json_top(s@),
        s@ == "null"@ ==> json_is(r, JsonV::Null),
        s@ == "true"@ ==> json_is(r, JsonV::Bool(true)),
        s@ == "false"@ ==> json_is(r, JsonV::Bool(false)),
        forall|n: i64| s@ == #[trigger] idec(n as int) ==> json_is(r, JsonV::Int(n)),
{
    let v: Tree = serde_json::from_str(s).map_err(|e| e.to_string())?;
    Ok(match v {
        Tree::Null => Json::Null,
        Tree::Bool(b) => Json::Bool(b),
        Tree::Number(n) => match n.as_i64() {
            Some(i) => Json::Int(i),
            None => n.as_f64().map_or(Json::Odd, |x| Json::Float(x.to_bits())),
        },
        Tree::String(t) => Json::Str(t),
        Tree::Array(a) => Json::Arr(a.iter().map(Tree::to_string).collect()),
        Tree::Object(m) => Json::Obj(m.into_iter().map(|(k, x)| (k, x.to_string())).collect()),
    })
}

/// A text as a JSON text.
pub uninterp spec fn json_string(s: Seq<char>) -> Seq<char>;

/// A text as a JSON text (`to_string` of a `serde_json::Value::String`): it depends on the
/// text alone, and `serde_json::from_str` reads the text back from it.
#[verifier::external_body]
pub(crate) fn string_text(s: &str) -> (r: String)
    ensures
        r@ == json_string(s@),
        json_reads(r@, JsonV::Str(s@)),
{
    serde_json::Value::String(s.to_string()).to_string()
}

/// The JSON text of an array of JSON texts, or why one of them is none.
pub uninterp spec fn json_array(items: Seq<Seq<char>>) -> Result<Seq<char>, Seq<char>>;

/// Whether a JSON text is one of a text, of an integer, of a truth value or of nothing.
pub open spec fn plain(t: Seq<char>) -> bool {
    of_text(t) || t == "null"@ || t == "true"@ || t == "false"@ || exists|n: i64| t == #[trigger] idec(n as int)
}

/// Whether a JSON text is the array of JSON texts.
pub open spec fn of_items(t: Seq<char>, items: Seq<Seq<char>>) -> bool {
    json_array(items) == Ok::<Seq<char>, Seq<char>>(t)
}

/// Whether a JSON text is a plain one, or an array of such texts, of at most `d` levels.
pub open spec fn canon(t: Seq<char>, d: nat) -> bool
    decreases d,
{
    d > 0 && (plain(t) || exists|items: Seq<Seq<char>>| #[trigger]
        of_items(t, items) && forall|i: int| 0 <= i < items.len() ==> canon(#[trigger] items[i], (d - 1) as nat))
}

/// Whether all JSON texts are such.
pub open spec fn all_canon(items: Seq<Seq<char>>, d: nat) -> bool {
    forall|i: int| 0 <= i < items.len() ==> canon(#[trigger] items[i], d)
}

/// Whether an array gives its items back.
pub open spec fn array_back(r: Result<String, String>, items: Seq<Seq<char>>) -> bool {
    r matches Ok(t) && json_reads(t@, JsonV::Arr(items))
}

/// The JSON text of an array of JSON texts (`serde_json::from_str` of each and `to_string`
/// of the `serde_json::Value::Array`), or the text of the first error: it depends on the
/// texts alone. Of the JSON texts of texts, integers, truth values, nothing and arrays of
/// these, of fewer levels than the reader accepts, there is an array, and
/// `serde_json::from_str` reads them back from it.
#[verifier::external_body]
pub(crate) fn array_text(items: &Vec<String>) -> (r: Result<String, String>)
    ensures
        text_r(r) == json_array(strs(items@)),
        forall|d: nat| d <= DEEP && #[trigger] all_canon(strs(items@), d) ==> array_back(r, strs(items@)),
{
    let read: Result<Vec<serde_json::Value>, serde_json::Error> =
        items.iter().map(|t| serde_json::from_str(t)).collect();
    read.map(|a| serde_json::Value::Array(a).to_string()).map_err(|e| e.to_string())
}

/// The JSON text of an object of JSON texts, or why one of them is none.
pub uninterp spec fn json_object(members: Seq<(Seq<char>, Seq<char>)>) -> Result<Seq<char>, Seq<char>>;

/// Members with texts in place of JSON texts.
pub open spec fn quoted(ps: Seq<(Seq<char>, Seq<char>)>) -> Seq<(Seq<char>, Seq<char>)> {
    ps.map_values(|e: (Seq<char>, Seq<char>)| (e.0, json_string(e.1)))
}

/// Whether no two members have the same name.
pub open spec fn distinct(ps: Seq<(Seq<char>, Seq<char>)>) -> bool {
    forall|i: int, j: int| 0 <= i < j < ps.len() ==> (#[trigger] ps[i]).0 != (#[trigger] ps[j]).0
}

/// Whether a JSON text is one of a text.
pub open spec fn of_text(t: Seq<char>) -> bool {
    exists|s: Seq<char>| t == #[trigger] json_string(s)
}

/// Whether a JSON text is the object of members.
pub open spec fn of_members(t: Seq<char>, ps: Seq<(Seq<char>, Seq<char>)>) -> bool {
    json_object(ps) == Ok::<Seq<char>, Seq<char>>(t)
}

/// Whether a JSON text is one of a text or of an object of texts, written as here: reading it
/// and writing it out again changes nothing.
pub open spec fn settled(t: Seq<char>) -> bool {
    of_text(t) || exists|ps: Seq<(Seq<char>, Seq<char>)>| distinct(ps) && #[trigger] of_members(t, quoted(ps))
}

/// Whether members are read back from their object.
pub open spec fn whole(ps: Seq<(Seq<char>, Seq<char>)>) -> bool {
    distinct(ps) && forall|i: int| 0 <= i < ps.len() ==> settled((#[trigger] ps[i]).1)
}

/// Whether a JSON text gives back members, in some order.
pub open spec fn gives_back(t: Seq<char>, ps: Seq<(Seq<char>, Seq<char>)>) -> bool {
    json_top(t) matches Ok(JsonV::Obj(qs)) && qs.to_multiset() == ps.to_multiset()
}

/// The JSON text of an object of JSON texts (`serde_json::from_str` of each and `to_string`
/// of the `serde_json::Value::Object` of the `serde_json::Map` that they are collected
/// into), or the text of the first error: it depends on the names and the texts alone. Of
/// members with names of their own that are texts, or objects of texts, there is an object,
/// and `serde_json::from_str` reads these members back from it, in some order.
#[verifier::external_body]
pub(crate) fn object_text(members: &Vec<(String, String)>) -> (r: Result<String, String>)
    ensures
        text_r(r) == json_object(pairs_v(members@)),
        whole(pairs_v(members@)) ==> r is Ok,
        whole(pairs_v(members@)) ==> (r matches Ok(t) ==> gives_back(t@, pairs_v(members@))),
{
    let read: Result<serde_json::Map<String, serde_json::Value>, serde_json::Error> =
        members.iter().map(|(k, t)| serde_json::from_str(t).map(|v| (k.clone(), v))).collect();
    read.map(|m| serde_json::Value::Object(m).to_string()).map_err(|e| e.to_string())
}

/// How many levels a value may have so that what is written for it is surely read back.
pub const DEEP: usize = 120;

/// How many levels a JSON text may have: the reader accepts fewer.
pub const LEVELS: usize = 128;

/// The error of a text that is no JSON.
pub open spec fn bad_json(p: PlaceV, e: Seq<char>) -> ErrV {
    fault(p, codes::TYPE_MISMATCH@, "invalid JSON: "@ + e, Some("check the JSON syntax"@))
}

/// The value of a JSON text of at most so many levels.
pub open spec fn json_value(p: PlaceV, s: Seq<char>, levels: nat) -> Result<ValueV, ErrV>
    decreases levels, 0int,
{
    if levels == 0 {
        Err(bad_json(p, "recursion limit exceeded"@))
    } else {
        match json_top(s) {
            Err(e) => Err(bad_json(p, e)),
            Ok(JsonV::Null) => Ok(ValueV::Null),
            Ok(JsonV::Bool(b)) => Ok(ValueV::Bool(b)),
            Ok(JsonV::Int(n)) => Ok(ValueV::Int(n)),
            Ok(JsonV::Float(b)) => Ok(ValueV::Float(b)),
            Ok(JsonV::Odd) => Err(fault(p, codes::TYPE_MISMATCH@, "invalid JSON number"@, None)),
            Ok(JsonV::Str(t)) => Ok(ValueV::Str(t)),
            Ok(JsonV::Arr(items)) => match json_items(p, items, 0, Seq::empty(), (levels - 1) as nat) {
                Ok(vs) => Ok(ValueV::List(vs)),
                Err(e) => Err(e),
            },
            Ok(JsonV::Obj(members)) => match json_members(p, members, 0, Seq::empty(), (levels - 1) as nat) {
                Ok(es) => Ok(ValueV::Dict(es)),
                Err(e) => Err(e),
            },
        }
    }
}

/// The values of JSON texts from `i` on, behind those that are there.
pub open spec fn json_items(
    p: PlaceV,
    items: Seq<Seq<char>>,
    i: int,
    done: Seq<ValueV>,
    levels: nat,
) -> Result<Seq<ValueV>, ErrV>
    decreases levels, items.len() - i + 1,
{
    if i < 0 || i >= items.len() {
        Ok(done)
    } else {
        match json_value(p, items[i], levels) {
            Err(e) => Err(e),
            Ok(v) => json_items(p, items, i + 1, done.push(v), levels),
        }
    }
}

/// The members of JSON texts from `i` on, behind those that are there.
pub open spec fn json_members(
    p: PlaceV,
    members: Seq<(Seq<char>, Seq<char>)>,
    i: int,
    done: Seq<(Seq<char>, ValueV)>,
    levels: nat,
) -> Result<Seq<(Seq<char>, ValueV)>, ErrV>
    decreases levels, members.len() - i + 1,
{
    if i < 0 || i >= members.len() {
        Ok(done)
    } else {
        match json_value(p, members[i].1, levels) {
            Err(e) => Err(e),
            Ok(v) => json_members(p, members, i + 1, done.push((members[i].0, v)), levels),
        }
    }
}

/// The mathematical form of a value or an error.
pub open spec fn value_r(r: Result<Value, ZError>) -> Result<ValueV, ErrV> {
    match r {
        Ok(v) => Ok(v@),
        Err(e) => Err(e@),
    }
}

/// The word or the numeral that stands for a value in JSON.
pub open spec fn scalar_text(v: ValueV) -> Option<Seq<char>> {
    match v {
        ValueV::Null => Some("null"@),
        ValueV::Bool(b) => Some(if b { "true"@ } else { "false"@ }),
        ValueV::Int(n) => Some(idec(n as int)),
        _ => None,
    }
}

/// The value of a JSON text of at most so many levels. A word or a numeral gives the value
/// that it stands for.
pub fn json_to_value(p: &Place, s: &str, levels: usize) -> (r: Result<Value, ZError>)
    ensures
        value_r(r) == json_value(p@, s@, levels as nat),
        levels > 0 ==> forall|v: ValueV| #[trigger] scalar_text(v) == Some(s@) ==> value_r(r) == Ok::<ValueV, ErrV>(v),
    decreases levels, 0int,
{
    if levels == 0 {
        let msg = cat2("invalid JSON: ", "recursion limit exceeded");
        return Err(p.fault(codes::TYPE_MISMATCH, msg.as_str(), Some("check the JSON syntax")));
    }
    match json_read(s) {
        Err(e) => {
            let msg = cat2("invalid JSON: ", e.as_str());
            Err(p.fault(codes::TYPE_MISMATCH, msg.as_str(), Some("check the JSON syntax")))
        },
        Ok(j) => json_level(p, &j, levels - 1),
    }
}

/// The value of the outermost level of a JSON text.
pub open spec fn level_value(p: PlaceV, j: JsonV, levels: nat) -> Result<ValueV, ErrV> {
    match j {
        JsonV::Null => Ok(ValueV::Null),
        JsonV::Bool(b) => Ok(ValueV::Bool(b)),
        JsonV::Int(n) => Ok(ValueV::Int(n)),
        JsonV::Float(b) => Ok(ValueV::Float(b)),
        JsonV::Odd => Err(fault(p, codes::TYPE_MISMATCH@, "invalid JSON number"@, None)),
        JsonV::Str(t) => Ok(ValueV::Str(t)),
        JsonV::Arr(items) => match json_items(p, items, 0, Seq::empty(), levels) {
            Ok(vs) => Ok(ValueV::List(vs)),
            Err(e) => Err(e),
        },
        JsonV::Obj(members) => match json_members(p, members, 0, Seq::empty(), levels) {
            Ok(es) => Ok(ValueV::Dict(es)),
            Err(e) => Err(e),
        },
    }
}

/// The value of the outermost level of a JSON text whose parts have at most so many levels.
pub fn json_level(p: &Place, j: &Json, levels: usize) -> (r: Result<Value, ZError>)
    ensures
        value_r(r) == level_value(p@, j@, levels as nat),
    decreases levels, 1int,
{
    match j {
        Json::Null => Ok(Value::Null),
        Json::Bool(b) => Ok(Value::Bool(*b)),
        Json::Int(n) => Ok(Value::Int(*n)),
        Json::Float(b) => Ok(Value::Float(*b)),
        Json::Odd => Err(p.fault(codes::TYPE_MISMATCH, "invalid JSON number", None)),
        Json::Str(t) => Ok(Value::Str(t.clone())),
        Json::Arr(items) => {
            let mut out: Vec<Value> = Vec::new();
            let mut i: usize = 0;
            let ghost all = strs(items@);
            let ghost goal = json_items(p@, all, 0, Seq::empty(), levels as nat);
            assert(values_v(out@) =~= Seq::empty());
            while i < items.len()
                invariant
                    i <= items.len(),
                    all == strs(items@),
                    j@ == JsonV::Arr(all),
                    goal == json_items(p@, all, 0, Seq::empty(), levels as nat),
                    json_items(p@, all, i as int, values_v(out@), levels as nat) == goal,
                decreases items.len() - i,
            {
                assert(all[i as int] == items@[i as int]@);
                match json_to_value(p, items[i].as_str(), levels) {
                    Err(e) => return Err(e),
                    Ok(v) => {
                        let ghost was = out@;
                        out.push(v);
                        assert(values_v(out@) =~= values_v(was).push(v@));
                    },
                }
                i = i + 1;
            }
            Ok(Value::List(out))
        },
        Json::Obj(members) => {
            let mut out: Vec<(String, Value)> = Vec::new();
            let mut i: usize = 0;
            let ghost all = pairs_v(members@);
            let ghost goal = json_members(p@, all, 0, Seq::empty(), levels as nat);
            assert(dict_v(out@) =~= Seq::empty());
            while i < members.len()
                invariant
                    i <= members.len(),
                    all == pairs_v(members@),
                    j@ == JsonV::Obj(all),
                    goal == json_members(p@, all, 0, Seq::empty(), levels as nat),
                    json_members(p@, all, i as int, dict_v(out@), levels as nat) == goal,
                decreases members.len() - i,
            {
                assert(all[i as int] == (members@[i as int].0@, members@[i as int].1@));
                match json_to_value(p, members[i].1.as_str(), levels) {
                    Err(e) => return Err(e),
                    Ok(v) => {
                        let ghost was = out@;
                        out.push((members[i].0.clone(), v));
                        assert(dict_v(out@) =~= dict_v(was).push((members@[i as int].0@, v@)));
                    },
                }
                i = i + 1;
            }
            Ok(Value::Dict(out))
        },
    }
}

/// The error of a value that JSON cannot hold.
pub open spec fn no_json(p: PlaceV, msg: Seq<char>, help: Option<Seq<char>>) -> Result<(Seq<char>, int), ErrV> {
    Err(fault(p, codes::TYPE_MISMATCH@, msg, help))
}

/// The JSON text of a value, where `texts` are its finite floating-point numbers written out
/// and `k` is the first of them, and which number comes behind it.
pub open spec fn json_text(p: PlaceV, v: ValueV, texts: Seq<Seq<char>>, k: int) -> Result<(Seq<char>, int), ErrV>
    decreases v, 0int,
{
    match v {
        ValueV::Int(n) => Ok((idec(n as int), k)),
        ValueV::Float(b) => if !is_finite(b) {
            no_json(p, "cannot serialize NaN/infinity to JSON"@, None)
        } else if 0 <= k < texts.len() {
            Ok((texts[k], k + 1))
        } else {
            Ok((Seq::empty(), k + 1))
        },
        ValueV::Bool(b) => Ok((if b { "true"@ } else { "false"@ }, k)),
        ValueV::Str(s) => Ok((json_string(s), k)),
        ValueV::List(vs) => match list_texts(p, vs, vs.len() as int, texts, k) {
            Err(e) => Err(e),
            Ok((items, n)) => match json_array(items) {
                Ok(t) => Ok((t, n)),
                Err(e) => no_json(p, "cannot serialize list item: "@ + e, None),
            },
        },
        ValueV::Dict(es) => match dict_texts(p, es, es.len() as int, texts, k) {
            Err(e) => Err(e),
            Ok((members, n)) => match json_object(members) {
                Ok(t) => Ok((t, n)),
                Err(e) => no_json(p, "cannot serialize dict value: "@ + e, None),
            },
        },
        ValueV::Null => Ok(("null"@, k)),
        ValueV::Error(_) => no_json(
            p,
            "cannot serialize an `error` value to JSON"@,
            Some("convert the error to a string first, e.g. to_str(e)"@),
        ),
        ValueV::Ptr(_) => no_json(
            p,
            "cannot serialize a `ptr` value to JSON"@,
            Some("pointers are opaque handles; convert to a string first, e.g. to_str(p)"@),
        ),
    }
}

/// The JSON texts of the first `n` values of a list. Each is read back before the next is
/// written.
pub open spec fn list_texts(p: PlaceV, vs: Seq<ValueV>, n: int, texts: Seq<Seq<char>>, k: int) -> Result<
    (Seq<Seq<char>>, int),
    ErrV,
>
    decreases vs, n,
{
    if n <= 0 || n > vs.len() {
        Ok((Seq::empty(), k))
    } else {
        match list_texts(p, vs, n - 1, texts, k) {
            Err(e) => Err(e),
            Ok((front, m)) => match json_text(p, vs[n - 1], texts, m) {
                Err(e) => Err(e),
                Ok((t, m2)) => match json_top(t) {
                    Ok(_) => Ok((front.push(t), m2)),
                    Err(e) => Err(fault(p, codes::TYPE_MISMATCH@, "cannot serialize list item: "@ + e, None)),
                },
            },
        }
    }
}

/// The JSON texts of the first `n` members of a dictionary. Each is read back before the next
/// is written.
pub open spec fn dict_texts(
    p: PlaceV,
    es: Seq<(Seq<char>, ValueV)>,
    n: int,
    texts: Seq<Seq<char>>,
    k: int,
) -> Result<(Seq<(Seq<char>, Seq<char>)>, int), ErrV>
    decreases es, n,
{
    if n <= 0 || n > es.len() {
        Ok((Seq::empty(), k))
    } else {
        match dict_texts(p, es, n - 1, texts, k) {
            Err(e) => Err(e),
            Ok((front, m)) => match json_text(p, es[n - 1].1, texts, m) {
                Err(e) => Err(e),
                Ok((t, m2)) => match json_top(t) {
                    Ok(_) => Ok((front.push((es[n - 1].0, t)), m2)),
                    Err(e) => Err(fault(p, codes::TYPE_MISMATCH@, "cannot serialize dict value: "@ + e, None)),
                },
            },
        }
    }
}

/// An error stays the error of more values.
proof fn lemma_list_stops(p: PlaceV, vs: Seq<ValueV>, n: int, m: int, texts: Seq<Seq<char>>, k: int)
    requires
        0 <= n <= m <= vs.len(),
        list_texts(p, vs, n, texts, k) is Err,
    ensures
        list_texts(p, vs, m, texts, k) == list_texts(p, vs, n, texts, k),
    decreases m - n,
{
    if n < m {
        lemma_list_stops(p, vs, n, m - 1, texts, k);
    }
}

/// An error stays the error of more members.
proof fn lemma_dict_stops(
    p: PlaceV,
    es: Seq<(Seq<char>, ValueV)>,
    n: int,
    m: int,
    texts: Seq<Seq<char>>,
    k: int,
)
    requires
        0 <= n <= m <= es.len(),
        dict_texts(p, es, n, texts, k) is Err,
    ensures
        dict_texts(p, es, m, texts, k) == dict_texts(p, es, n, texts, k),
    decreases m - n,
{
    if n < m {
        lemma_dict_stops(p, es, n, m - 1, texts, k);
    }
}

/// The mathematical form of a JSON text in the making, or an error.
pub open spec fn step_r(r: Result<(String, usize), ZError>) -> Result<(Seq<char>, int), ErrV> {
    match r {
        Ok(t) => Ok((t.0@, t.1 as int)),
        Err(e) => Err(e@),
    }
}

/// Whether a value is a text, an integer, a truth value or nothing.
pub open spec fn flat(v: ValueV) -> bool {
    v is Str || v is Int || v is Bool || v is Null
}

/// Whether a value is made of such values and lists alone.
pub open spec fn listed(v: ValueV) -> bool
    decreases v,
{
    match v {
        ValueV::List(vs) => forall|i: int| 0 <= i < vs.len() ==> listed(#[trigger] vs[i]),
        _ => flat(v),
    }
}

/// How many levels a value has.
pub open spec fn depth(v: ValueV) -> nat
    decreases v, 0int,
{
    match v {
        ValueV::List(vs) => 1 + depths(vs, vs.len() as int),
        _ => 1,
    }
}

/// How many levels the first `n` values have.
pub open spec fn depths(vs: Seq<ValueV>, n: int) -> nat
    decreases vs, n,
{
    if n <= 0 || n > vs.len() {
        0
    } else if depth(vs[n - 1]) > depths(vs, n - 1) {
        depth(vs[n - 1])
    } else {
        depths(vs, n - 1)
    }
}

/// Whether a JSON text reads as a value, wherever enough levels are accepted.
pub open spec fn back(p: PlaceV, t: Seq<char>, v: ValueV) -> bool {
    forall|l: nat| l >= depth(v) ==> #[trigger] json_value(p, t, l) == Ok::<ValueV, ErrV>(v)
}

proof fn lemma_depths(vs: Seq<ValueV>, i: int, n: int)
    requires
        0 <= i < n <= vs.len(),
    ensures
        0 < depth(vs[i]) <= depths(vs, n),
    decreases n,
{
    if i < n - 1 {
        lemma_depths(vs, i, n - 1);
    }
}

proof fn lemma_canon(t: Seq<char>, d: nat, e: nat)
    requires
        canon(t, d),
        d <= e,
    ensures
        canon(t, e),
    decreases d,
{
    if !plain(t) {
        let items = choose|items: Seq<Seq<char>>| #[trigger]
            of_items(t, items) && forall|i: int| 0 <= i < items.len() ==> canon(#[trigger] items[i], (d - 1) as nat);
        assert forall|i: int| 0 <= i < items.len() implies canon(#[trigger] items[i], (e - 1) as nat) by {
            lemma_canon(items[i], (d - 1) as nat, (e - 1) as nat);
        }
        assert(of_items(t, items));
    }
}

/// JSON texts that each read as a value read as the list of them.
proof fn lemma_items_read(p: PlaceV, items: Seq<Seq<char>>, vs: Seq<ValueV>, i: int, l: nat)
    requires
        0 <= i <= items.len(),
        items.len() == vs.len(),
        forall|j: int|
            0 <= j < items.len() ==> json_value(p, #[trigger] items[j], l) == Ok::<ValueV, ErrV>(vs[j]),
    ensures
        json_items(p, items, i, vs.take(i), l) == Ok::<Seq<ValueV>, ErrV>(vs),
    decreases items.len() - i,
{
    if i < items.len() {
        lemma_items_read(p, items, vs, i + 1, l);
        assert(vs.take(i).push(vs[i]) =~= vs.take(i + 1));
        assert(json_value(p, items[i], l) == Ok::<ValueV, ErrV>(vs[i]));
    } else {
        assert(vs.take(i) =~= vs);
    }
}

/// The array of JSON texts that each read as a value reads as the list of them.
proof fn lemma_list_back(p: PlaceV, t: Seq<char>, items: Seq<Seq<char>>, vs: Seq<ValueV>)
    requires
        items.len() == vs.len(),
        of_items(t, items),
        json_reads(t, JsonV::Arr(items)),
        forall|j: int|
            0 <= j < items.len() ==> canon(#[trigger] items[j], depth(vs[j])) && back(p, items[j], vs[j]),
    ensures
        canon(t, depth(ValueV::List(vs))),
        back(p, t, ValueV::List(vs)),
{
    let v = ValueV::List(vs);
    let d = depths(vs, vs.len() as int);
    assert forall|i: int| 0 <= i < items.len() implies canon(#[trigger] items[i], d) by {
        lemma_depths(vs, i, vs.len() as int);
        lemma_canon(items[i], depth(vs[i]), d);
    }
    assert(depth(v) == 1 + d);
    assert forall|l: nat| l >= depth(v) implies #[trigger] json_value(p, t, l) == Ok::<ValueV, ErrV>(v) by {
        let m = (l - 1) as nat;
        assert forall|j: int| 0 <= j < items.len() implies json_value(p, #[trigger] items[j], m) == Ok::<ValueV, ErrV>(
            vs[j],
        ) by {
            lemma_depths(vs, j, vs.len() as int);
        }
        lemma_items_read(p, items, vs, 0, m);
        assert(vs.take(0) =~= Seq::empty());
    }
}

/// The JSON text of a value, where `texts` are its finite floating-point numbers written out
/// and `k` is the first of them, and which number comes behind it. A text, and a list
/// made of texts, integers, truth values, nothings and such lists, is read back from what is
/// written for it; nothing, a truth value and an integer are written as they are read.
pub fn value_to_json(p: &Place, v: &Value, texts: &Vec<String>, k: usize) -> (r: Result<(String, usize), ZError>)
    requires
        k + floats_in(v@).len() <= usize::MAX,
    ensures
        step_r(r) == json_text(p@, v@, strs(texts@), k as int),
        r is Ok ==> r->Ok_0.1 == k + floats_in(v@).len(),
        scalar_text(v@) matches Some(t) ==> r is Ok && r->Ok_0.0@ == t,
        v@ is Str ==> r is Ok && of_text(r->Ok_0.0@) && json_value(p@, r->Ok_0.0@, 1) == Ok::<ValueV, ErrV>(v@),
        listed(v@) && depth(v@) <= DEEP ==> r is Ok && canon(r->Ok_0.0@, depth(v@)),
        v@ is List && listed(v@) && depth(v@) <= DEEP ==> back(p@, r->Ok_0.0@, v@),
    decreases v,
{
    match v {
        Value::Int(n) => Ok((dec_i64(*n), k)),
        Value::Float(b) => {
            if !finite(*b) {
                return Err(p.fault(codes::TYPE_MISMATCH, "cannot serialize NaN/infinity to JSON", None));
            }
            if k < texts.len() {
                assert(strs(texts@)[k as int] == texts@[k as int]@);
                Ok((texts[k].clone(), k + 1))
            } else {
                let none = String::new();
                assert(none@ =~= Seq::empty());
                Ok((none, k + 1))
            }
        },
        Value::Bool(b) => Ok((if *b { "true".to_owned() } else { "false".to_owned() }, k)),
        Value::Str(s) => Ok((string_text(s.as_str()), k)),
        Value::List(vs) => {
            let mut items: Vec<String> = Vec::new();
            let mut n: usize = k;
            let mut i: usize = 0;
            let ghost t = strs(texts@);
            assert(strs(items@) =~= Seq::empty());
            while i < vs.len()
                invariant
                    i <= vs.len(),
                    t == strs(texts@),
                    v@ == ValueV::List(values_v(vs@)),
                    decreases_to!(v => vs),
                    k + floats_in(v@).len() <= usize::MAX,
                    n == k + list_floats(values_v(vs@), i as int).len(),
                    list_texts(p@, values_v(vs@), i as int, t, k as int) == Ok::<(Seq<Seq<char>>, int), ErrV>(
                        (strs(items@), n as int),
                    ),
                    items.len() == i,
                    listed(v@) && depth(v@) <= DEEP ==> forall|j: int|
                        0 <= j < i ==> canon(#[trigger] strs(items@)[j], depth(values_v(vs@)[j])) && back(
                            p@,
                            strs(items@)[j],
                            values_v(vs@)[j],
                        ),
                decreases vs.len() - i,
            {
                assert(decreases_to!(vs@ => vs@[i as int]));
                assert(values_v(vs@)[i as int] == vs@[i as int]@);
                proof {
                    lemma_list_floats(values_v(vs@), i + 1, vs.len() as int);
                    lemma_depths(values_v(vs@), i as int, vs.len() as int);
                }
                match value_to_json(p, &vs[i], texts, n) {
                    Err(e) => {
                        proof {
                            lemma_list_stops(p@, values_v(vs@), i + 1, vs.len() as int, t, k as int);
                        }
                        return Err(e);
                    },
                    Ok((s, m)) => {
                        assert(listed(v@) ==> listed(values_v(vs@)[i as int]));
                        proof {
                            let item = values_v(vs@)[i as int];
                            if listed(v@) && depth(v@) <= DEEP {
                                assert(listed(item) && depth(item) <= DEEP);
                                if item is List {
                                    assert(json_value(p@, s@, depth(item)) == Ok::<ValueV, ErrV>(item));
                                    assert(json_top(s@) is Ok);
                                }
                                if item is Str {
                                    assert(json_value(p@, s@, 1) == Ok::<ValueV, ErrV>(item));
                                    assert(json_top(s@) == Ok::<JsonV, Seq<char>>(JsonV::Str(item->Str_0)));
                                }
                            }
                        }
                        if let Err(e) = json_read(s.as_str()) {
                            let msg = cat2("cannot serialize list item: ", e.as_str());
                            proof {
                                lemma_list_stops(p@, values_v(vs@), i + 1, vs.len() as int, t, k as int);
                            }
                            return Err(p.fault(codes::TYPE_MISMATCH, msg.as_str(), None));
                        }
                        let ghost was = items@;
                        items.push(s);
                        n = m;
                        assert(strs(items@) =~= strs(was).push(s@));
                    },
                }
                i = i + 1;
            }
            proof {
                if listed(v@) && depth(v@) <= DEEP {
                    let d = depths(values_v(vs@), vs.len() as int);
                    assert forall|j: int| 0 <= j < strs(items@).len() implies canon(#[trigger] strs(items@)[j], d) by {
                        lemma_depths(values_v(vs@), j, vs.len() as int);
                        lemma_canon(strs(items@)[j], depth(values_v(vs@)[j]), d);
                    }
                    assert(all_canon(strs(items@), d));
                }
            }
            match array_text(&items) {
                Ok(s) => {
                    proof {
                        if listed(v@) && depth(v@) <= DEEP {
                            lemma_list_back(p@, s@, strs(items@), values_v(vs@));
                        }
                    }
                    Ok((s, n))
                },
                Err(e) => {
                    let msg = cat2("cannot serialize list item: ", e.as_str());
                    Err(p.fault(codes::TYPE_MISMATCH, msg.as_str(), None))
                },
            }
        },
        Value::Dict(es) => {
            let mut members: Vec<(String, String)> = Vec::new();
            let mut n: usize = k;
            let mut i: usize = 0;
            let ghost t = strs(texts@);
            assert(pairs_v(members@) =~= Seq::empty());
            while i < es.len()
                invariant
                    i <= es.len(),
                    t == strs(texts@),
                    v@ == ValueV::Dict(dict_v(es@)),
                    decreases_to!(v => es),
                    k + floats_in(v@).len() <= usize::MAX,
                    n == k + dict_floats(dict_v(es@), i as int).len(),
                    dict_texts(p@, dict_v(es@), i as int, t, k as int) == Ok::<
                        (Seq<(Seq<char>, Seq<char>)>, int),
                        ErrV,
                    >((pairs_v(members@), n as int)),
                decreases es.len() - i,
            {
                assert(decreases_to!(es@ => es@[i as int]));
                assert(decreases_to!(es@[i as int] => es@[i as int].1));
                assert(dict_v(es@)[i as int] == (es@[i as int].0@, es@[i as int].1@));
                proof {
                    lemma_dict_floats(dict_v(es@), i + 1, es.len() as int);
                }
                match value_to_json(p, &es[i].1, texts, n) {
                    Err(e) => {
                        proof {
                            lemma_dict_stops(p@, dict_v(es@), i + 1, es.len() as int, t, k as int);
                        }
                        return Err(e);
                    },
                    Ok((s, m)) => {
                        if let Err(e) = json_read(s.as_str()) {
                            let msg = cat2("cannot serialize dict value: ", e.as_str());
                            proof {
                                lemma_dict_stops(p@, dict_v(es@), i + 1, es.len() as int, t, k as int);
                            }
                            return Err(p.fault(codes::TYPE_MISMATCH, msg.as_str(), None));
                        }
                        let ghost was = members@;
                        members.push((es[i].0.clone(), s));
                        n = m;
                        assert(pairs_v(members@) =~= pairs_v(was).push((es@[i as int].0@, s@)));
                    },
                }
                i = i + 1;
            }
            match object_text(&members) {
                Ok(s) => Ok((s, n)),
                Err(e) => {
                    let msg = cat2("cannot serialize dict value: ", e.as_str());
                    Err(p.fault(codes::TYPE_MISMATCH, msg.as_str(), None))
                },
            }
        },
        Value::Null => Ok(("null".to_owned(), k)),
        Value::Error(_) => Err(
            p.fault(
                codes::TYPE_MISMATCH,
                "cannot serialize an `error` value to JSON",
                Some("convert the error to a string first, e.g. to_str(e)"),
            ),
        ),
        Value::Ptr(_) => Err(
            p.fault(
                codes::TYPE_MISMATCH,
                "cannot serialize a `ptr` value to JSON",
                Some("pointers are opaque handles; convert to a string first, e.g. to_str(p)"),
            ),
        ),
    }
}

/// The finite floating-point numbers of a value, in order.
pub open spec fn floats_in(v: ValueV) -> Seq<u64>
    decreases v, 0int,
{
    match v {
        ValueV::Float(b) => if is_finite(b) {
            seq![b]
        } else {
            Seq::empty()
        },
        ValueV::List(vs) => list_floats(vs, vs.len() as int),
        ValueV::Dict(es) => dict_floats(es, es.len() as int),
        _ => Seq::empty(),
    }
}

/// The finite floating-point numbers of the first `n` values of a list.
pub open spec fn list_floats(vs: Seq<ValueV>, n: int) -> Seq<u64>
    decreases vs, n,
{
    if n <= 0 || n > vs.len() {
        Seq::empty()
    } else {
        list_floats(vs, n - 1) + floats_in(vs[n - 1])
    }
}

/// The finite floating-point numbers of the first `n` members of a dictionary.
pub open spec fn dict_floats(es: Seq<(Seq<char>, ValueV)>, n: int) -> Seq<u64>
    decreases es, n,
{
    if n <= 0 || n > es.len() {
        Seq::empty()
    } else {
        dict_floats(es, n - 1) + floats_in(es[n - 1].1)
    }
}

proof fn lemma_list_floats(vs: Seq<ValueV>, n: int, m: int)
    requires
        0 <= n <= m <= vs.len(),
    ensures
        list_floats(vs, n).len() <= list_floats(vs, m).len(),
    decreases m - n,
{
    if n < m {
        lemma_list_floats(vs, n, m - 1);
    }
}

proof fn lemma_dict_floats(es: Seq<(Seq<char>, ValueV)>, n: int, m: int)
    requires
        0 <= n <= m <= es.len(),
    ensures
        dict_floats(es, n).len() <= dict_floats(es, m).len(),
    decreases m - n,
{
    if n < m {
        lemma_dict_floats(es, n, m - 1);
    }
}

/// Adds the finite floating-point numbers of a value.
pub fn collect_floats(v: &Value, out: &mut Vec<u64>)
    ensures
        final(out)@ == old(out)@ + floats_in(v@),
    decreases v,
{
    let ghost start = out@;
    match v {
        Value::Float(b) => {
            if finite(*b) {
                out.push(*b);
            }
            assert(out@ =~= start + floats_in(v@));
        },
        Value::List(vs) => {
            let mut i: usize = 0;
            assert(start + list_floats(values_v(vs@), 0) =~= start);
            while i < vs.len()
                invariant
                    i <= vs.len(),
                    v@ == ValueV::List(values_v(vs@)),
                    decreases_to!(v => vs),
                    out@ == start + list_floats(values_v(vs@), i as int),
                decreases vs.len() - i,
            {
                assert(decreases_to!(vs@ => vs@[i as int]));
                assert(values_v(vs@)[i as int] == vs@[i as int]@);
                collect_floats(&vs[i], out);
                i = i + 1;
                assert(out@ =~= start + list_floats(values_v(vs@), i as int));
            }
        },
        Value::Dict(es) => {
            let mut i: usize = 0;
            assert(start + dict_floats(dict_v(es@), 0) =~= start);
            while i < es.len()
                invariant
                    i <= es.len(),
                    v@ == ValueV::Dict(dict_v(es@)),
                    decreases_to!(v => es),
                    out@ == start + dict_floats(dict_v(es@), i as int),
                decreases es.len() - i,
            {
                assert(decreases_to!(es@ => es@[i as int]));
                assert(decreases_to!(es@[i as int] => es@[i as int].1));
                assert(dict_v(es@)[i as int] == (es@[i as int].0@, es@[i as int].1@));
                collect_floats(&es[i].1, out);
                i = i + 1;
                assert(out@ =~= start + dict_floats(dict_v(es@), i as int));
            }
        },
        _ => {
            assert(out@ =~= start + floats_in(v@));
        },
    }
}

} // verus!
