//! The arguments of the command line and the store of keys and texts.

use vstd::prelude::*;

use super::basics::{get_text, text_at};
use super::json::{
    distinct, gives_back, json_object, json_string, json_top, object_text, of_members, of_text, pairs_v, quoted,
    settled, string_text, whole, JsonV,
};
use super::world::{fail, failed, Out, OutV, Pending, PendingV, Place, PlaceV, Request, RequestV};
use crate::cli::resume::{member, saved, texts_from};
use crate::error::codes;
use crate::table::Table;
use crate::text::{cat3, cat4, cat5, chars, eq, slice, strs};
use crate::texts::{empty, get, no_texts, put, texts_v, TextsV};
use crate::value::{values_v, Value, ValueV};
use crate::words::{int_of, parse_int, trim, trimmed};

verus! {

/// A text without the pairs of dashes that it starts with.
pub open spec fn undashed(s: Seq<char>) -> Seq<char>
    decreases s.len(),
{
    if s.len() >= 2 && s[0] == '-' && s[1] == '-' {
        undashed(s.skip(2))
    } else {
        s
    }
}

/// The name that an argument of the command line gives: `--name` or `-n`.
pub open spec fn flag_name(a: Seq<char>) -> Option<Seq<char>> {
    if a.len() >= 2 && a[0] == '-' && a[1] == '-' {
        Some(undashed(a))
    } else if a.len() == 2 && a[0] == '-' && (a[1] as u32) < 128 {
        Some(a.skip(1))
    } else {
        None
    }
}

/// The names and values of arguments from `i` on: a name takes the next argument as its
/// value unless that starts with a dash, and is `true` otherwise.
pub open spec fn args_from(args: Seq<Seq<char>>, i: int, t: TextsV) -> TextsV
    decreases args.len() - i,
{
    if i < 0 || i >= args.len() {
        t
    } else {
        match flag_name(args[i]) {
            None => args_from(args, i + 1, t),
            Some(k) => if i + 1 < args.len() && !(args[i + 1].len() > 0 && args[i + 1][0] == '-') {
                args_from(args, i + 2, t.put(k, args[i + 1]))
            } else {
                args_from(args, i + 1, t.put(k, "true"@))
            },
        }
    }
}

fn flag(a: &str) -> (r: Option<String>)
    ensures
        crate::error::opt_text(r) == flag_name(a@),
{
    let v = chars(a);
    let n: usize = v.len();
    if n >= 2 && v[0] == '-' && v[1] == '-' {
        let mut i: usize = 0;
        assert(a@.skip(0) =~= a@);
        while n - i >= 2 && v[i] == '-' && v[i + 1] == '-'
            invariant
                i <= n,
                n == v.len(),
                v@ == a@,
                undashed(a@) == undashed(a@.skip(i as int)),
            decreases n - i,
        {
            assert(a@.skip(i as int).skip(2) =~= a@.skip(i + 2));
            i = i + 2;
        }
        let k = slice(&v, i, n);
        assert(k@ =~= a@.skip(i as int));
        Some(k)
    } else if n == 2 && v[0] == '-' && (v[1] as u32) < 128 {
        let k = slice(&v, 1, n);
        assert(k@ =~= a@.skip(1));
        Some(k)
    } else {
        None
    }
}

/// Reads the arguments of the command line into a table.
pub fn read_args(t: &mut Table<String>, args: &Vec<String>)
    requires
        old(t).wf(),
    ensures
        final(t).wf(),
        texts_v(*final(t)) == args_from(strs(args@), 0, texts_v(*old(t))),
{
    let ghost all = strs(args@);
    let ghost goal = args_from(all, 0, texts_v(*t));
    let mut i: usize = 0;
    while i < args.len()
        invariant
            i <= args.len(),
            t.wf(),
            all == strs(args@),
            args_from(all, i as int, texts_v(*t)) == goal,
        decreases args.len() - i,
    {
        assert(all[i as int] == args@[i as int]@);
        match flag(args[i].as_str()) {
            None => {
                i = i + 1;
            },
            Some(k) => {
                let mut valued = false;
                if args.len() - i > 1 {
                    assert(all[i + 1] == args@[i + 1]@);
                    let w = chars(args[i + 1].as_str());
                    valued = !(w.len() > 0 && w[0] == '-');
                }
                if valued {
                    put(t, k.as_str(), args[i + 1].as_str());
                    i = i + 2;
                } else {
                    put(t, k.as_str(), "true");
                    i = i + 1;
                }
            },
        }
    }
}

/// An argument of the command line as a value of a type.
pub open spec fn typed_arg(p: PlaceV, k: Seq<char>, v: Seq<char>, ty: Seq<char>) -> OutV {
    let t = trimmed(v);
    if ty == "int"@ {
        match int_of(t) {
            Some(n) => OutV::Value(ValueV::Int(n as i64)),
            None => failed(
                p,
                codes::STR_TO_INT@,
                "`args.get(\""@ + k + "\", int)` cannot parse `"@ + v + "` as an integer"@,
                Some("pass a valid integer on the command line"@),
            ),
        }
    } else if ty == "float"@ {
        OutV::Ask(RequestV::FloatFromText(t), PendingV::ArgFloat(k, v))
    } else if ty == "bool"@ {
        if t == "true"@ || t == "1"@ {
            OutV::Value(ValueV::Bool(true))
        } else if t == "false"@ || t == "0"@ {
            OutV::Value(ValueV::Bool(false))
        } else {
            failed(
                p,
                codes::TYPE_MISMATCH@,
                "`args.get(\""@ + k + "\", bool)` cannot parse `"@ + v + "` as a boolean"@,
                Some("use `true`/`false` or `1`/`0`"@),
            )
        }
    } else if ty == "str"@ {
        OutV::Value(ValueV::Str(v))
    } else {
        failed(
            p,
            codes::TYPE_MISMATCH@,
            "unknown type `"@ + ty + "` for `args.get`"@,
            Some("expected one of `int`, `float`, `bool`, `str`"@),
        )
    }
}

/// Functions of the arguments of the command line: `args.get` and `args.has`.
pub open spec fn args_fn(t: TextsV, p: PlaceV, name: Seq<char>, a: Seq<ValueV>) -> OutV {
    match text_at(p, name, a, 0) {
        Err(o) => o,
        Ok(k) => if name == "args.has"@ {
            OutV::Value(ValueV::Bool(t.get(k) is Some))
        } else {
            match t.get(k) {
                Some(v) => if a.len() >= 2 {
                    match text_at(p, name, a, 1) {
                        Err(o) => o,
                        Ok(ty) => typed_arg(p, k, v, ty),
                    }
                } else {
                    OutV::Value(ValueV::Str(v))
                },
                None => if a.len() >= 3 {
                    OutV::Value(a[2])
                } else {
                    OutV::Value(ValueV::Null)
                },
            }
        },
    }
}

fn arg_value(p: &Place, k: &str, v: &str, ty: &str) -> (r: Out)
    ensures
        r@ == typed_arg(p@, k@, v@, ty@),
{
    let t = trim(v);
    if eq(ty, "int") {
        match parse_int(t.as_str()) {
            Some(n) => Out::Value(Value::Int(n)),
            None => {
                let msg = cat5("`args.get(\"", k, "\", int)` cannot parse `", v, "` as an integer");
                fail(
                    p,
                    codes::STR_TO_INT,
                    msg.as_str(),
                    Some("pass a valid integer on the command line"),
                )
            },
        }
    } else if eq(ty, "float") {
        Out::Ask(Request::FloatFromText(t), Pending::ArgFloat(k.to_owned(), v.to_owned()))
    } else if eq(ty, "bool") {
        if eq(t.as_str(), "true") || eq(t.as_str(), "1") {
            Out::Value(Value::Bool(true))
        } else if eq(t.as_str(), "false") || eq(t.as_str(), "0") {
            Out::Value(Value::Bool(false))
        } else {
            let msg = cat5("`args.get(\"", k, "\", bool)` cannot parse `", v, "` as a boolean");
            fail(p, codes::TYPE_MISMATCH, msg.as_str(), Some("use `true`/`false` or `1`/`0`"))
        }
    } else if eq(ty, "str") {
        Out::Value(Value::Str(v.to_owned()))
    } else {
        let msg = cat3("unknown type `", ty, "` for `args.get`");
        fail(
            p,
            codes::TYPE_MISMATCH,
            msg.as_str(),
            Some("expected one of `int`, `float`, `bool`, `str`"),
        )
    }
}

/// Calls a function of the command line.
pub fn do_args(t: &Table<String>, p: &Place, name: &str, a: &Vec<Value>) -> (r: Out)
    requires
        t.wf(),
        a.len() >= 1,
    ensures
        r@ == args_fn(texts_v(*t), p@, name@, values_v(a@)),
{
    let k = match get_text(p, name, a, 0) {
        Err(o) => return o,
        Ok(s) => s,
    };
    if eq(name, "args.has") {
        return Out::Value(Value::Bool(get(t, k).is_some()));
    }
    match get(t, k) {
        Some(v) => {
            if a.len() >= 2 {
                match get_text(p, name, a, 1) {
                    Err(o) => o,
                    Ok(ty) => arg_value(p, k, v.as_str(), ty),
                }
            } else {
                Out::Value(Value::Str(v.clone()))
            }
        },
        None => {
            if a.len() >= 3 {
                assert(values_v(a@)[2] == a@[2]@);
                Out::Value(a[2].dup())
            } else {
                Out::Value(Value::Null)
            }
        },
    }
}

/// The text of the state file: the checksum of the script and the store.
pub open spec fn state_text(kv: TextsV, script: Seq<char>) -> Result<Seq<char>, Seq<char>> {
    match json_object(quoted(kv.pairs())) {
        Err(e) => Err(e),
        Ok(t) => json_object(seq![("script"@, json_string(script)), ("kv"@, t)]),
    }
}

/// Whether a state file gives back a store for a script.
pub open spec fn restores(text: Seq<char>, script: Seq<char>, vals: Map<Seq<char>, Seq<char>>) -> bool {
    filled(saved(text, script), saved(text, script).len() as int).vals == vals
}

/// Members that are given back are found by their names.
proof fn lemma_member(ps: Seq<(Seq<char>, Seq<char>)>, qs: Seq<(Seq<char>, Seq<char>)>, j: int, i: int)
    requires
        distinct(ps),
        qs.to_multiset() == ps.to_multiset(),
        0 <= j < ps.len(),
        0 <= i <= qs.len(),
        forall|m: int| 0 <= m < i ==> (#[trigger] qs[m]).0 != ps[j].0,
    ensures
        member(qs, ps[j].0, i) == Some(ps[j].1),
    decreases qs.len() - i,
{
    broadcast use vstd::seq_lib::group_to_multiset_ensures;

    if i < qs.len() {
        assert(ps.to_multiset().contains(qs[i]));
        let m = choose|m: int| 0 <= m < ps.len() && ps[m] == qs[i];
        if qs[i].0 == ps[j].0 {
            assert(m == j);
        } else {
            lemma_member(ps, qs, j, i + 1);
        }
    } else {
        assert(qs.to_multiset().contains(ps[j]));
        let m = choose|m: int| 0 <= m < qs.len() && qs[m] == ps[j];
        assert(qs[m].0 != ps[j].0);
    }
}

/// The texts behind JSON texts of texts, one for one.
proof fn lemma_texts(qs: Seq<(Seq<char>, Seq<char>)>, i: int, done: Seq<(Seq<char>, Seq<char>)>)
    requires
        0 <= i <= qs.len(),
        done.len() == i,
        forall|m: int| 0 <= m < qs.len() ==> json_top((#[trigger] qs[m]).1) matches Ok(JsonV::Str(_)),
        forall|m: int|
            0 <= m < i ==> (#[trigger] done[m]).0 == qs[m].0 && json_top(qs[m].1) == Ok::<JsonV, Seq<char>>(
                JsonV::Str(done[m].1),
            ),
    ensures
        texts_from(qs, i, done).len() == qs.len(),
        forall|m: int|
            0 <= m < qs.len() ==> (#[trigger] texts_from(qs, i, done)[m]).0 == qs[m].0 && json_top(qs[m].1) == Ok::<
                JsonV,
                Seq<char>,
            >(JsonV::Str(texts_from(qs, i, done)[m].1)),
    decreases qs.len() - i,
{
    if i < qs.len() {
        let s = json_top(qs[i].1)->Ok_0->Str_0;
        lemma_texts(qs, i + 1, done.push((qs[i].0, s)));
    }
}

/// A store of pairs of a table holds no other, and all of them.
proof fn lemma_filled(rs: Seq<(Seq<char>, Seq<char>)>, n: int, vals: Map<Seq<char>, Seq<char>>)
    requires
        0 <= n <= rs.len(),
        forall|m: int| 0 <= m < rs.len() ==> vals.dom().contains((#[trigger] rs[m]).0) && vals[rs[m].0] == rs[m].1,
    ensures
        forall|k: Seq<char>| #[trigger]
            filled(rs, n).vals.dom().contains(k) <==> exists|m: int| 0 <= m < n && (#[trigger] rs[m]).0 == k,
        forall|k: Seq<char>| #[trigger]
            filled(rs, n).vals.dom().contains(k) ==> vals.dom().contains(k) && filled(rs, n).vals[k] == vals[k],
    decreases n,
{
    if n > 0 {
        lemma_filled(rs, n - 1, vals);
        let before = filled(rs, n - 1);
        assert forall|k: Seq<char>| #[trigger]
            filled(rs, n).vals.dom().contains(k) <==> exists|m: int| 0 <= m < n && (#[trigger] rs[m]).0 == k by {
            if before.vals.dom().contains(k) {
                let m = choose|m: int| 0 <= m < n - 1 && (#[trigger] rs[m]).0 == k;
                assert(rs[m].0 == k);
            }
            assert(rs[n - 1].0 == rs[n - 1].0);
        }
    }
}

/// A state file gives back the store that it was written from.
proof fn lemma_restores(kv: TextsV, script: Seq<char>, inner: Seq<char>, text: Seq<char>)
    requires
        kv.order.no_duplicates(),
        forall|k: Seq<char>| kv.order.contains(k) <==> kv.vals.dom().contains(k),
        forall|i: int|
            0 <= i < kv.pairs().len() ==> json_top(json_string((#[trigger] kv.pairs()[i]).1)) == Ok::<JsonV, Seq<char>>(
                JsonV::Str(kv.pairs()[i].1),
            ),
        json_top(json_string(script)) == Ok::<JsonV, Seq<char>>(JsonV::Str(script)),
        gives_back(inner, quoted(kv.pairs())),
        gives_back(text, seq![("script"@, json_string(script)), ("kv"@, inner)]),
    ensures
        restores(text, script, kv.vals),
{
    broadcast use vstd::seq_lib::group_to_multiset_ensures;

    reveal_strlit("script");
    reveal_strlit("kv");
    let top = seq![("script"@, json_string(script)), ("kv"@, inner)];
    let ts = json_top(text)->Ok_0->Obj_0;
    assert("script"@.len() != "kv"@.len());
    assert(distinct(top));
    lemma_member(top, ts, 0, 0);
    lemma_member(top, ts, 1, 0);
    let ps = kv.pairs();
    let qs = json_top(inner)->Ok_0->Obj_0;
    assert forall|m: int| 0 <= m < qs.len() implies exists|i: int| 0 <= i < ps.len() && (#[trigger] ps[i]).0 == (
    #[trigger] qs[m]).0 && qs[m].1 == json_string(ps[i].1) by {
        assert(quoted(ps).to_multiset().contains(qs[m]));
        let i = choose|i: int| 0 <= i < quoted(ps).len() && quoted(ps)[i] == qs[m];
        assert(ps[i].0 == qs[m].0);
    }
    lemma_texts(qs, 0, Seq::empty());
    let rs = texts_from(qs, 0, Seq::empty());
    assert(saved(text, script) == rs);
    assert forall|m: int| 0 <= m < rs.len() implies kv.vals.dom().contains((#[trigger] rs[m]).0) && kv.vals[rs[m].0]
        == rs[m].1 by {
        let i = choose|i: int|
            0 <= i < ps.len() && (#[trigger] ps[i]).0 == qs[m].0 && qs[m].1 == json_string(ps[i].1);
        assert(kv.order.contains(kv.order[i]));
    }
    lemma_filled(rs, rs.len() as int, kv.vals);
    assert forall|k: Seq<char>| kv.vals.dom().contains(k) implies #[trigger] filled(
        rs,
        rs.len() as int,
    ).vals.dom().contains(k) by {
        assert(kv.order.contains(k));
        let i = choose|i: int| 0 <= i < kv.order.len() && kv.order[i] == k;
        assert(quoted(ps)[i] == (k, json_string(ps[i].1)));
        assert(quoted(ps).contains(quoted(ps)[i]));
        assert(qs.to_multiset().contains(quoted(ps)[i]));
        let m = choose|m: int| 0 <= m < qs.len() && qs[m] == quoted(ps)[i];
        assert(rs[m].0 == k);
    }
    assert(filled(rs, rs.len() as int).vals =~= kv.vals);
}

/// The text of the state file. The store is restored from it for the same script.
pub fn state_file(kv: &Table<String>, script: &str) -> (r: Result<String, String>)
    requires
        kv.wf(),
    ensures
        super::digest::text_r(r) == state_text(texts_v(*kv), script@),
        r matches Ok(t) && restores(t@, script@, texts_v(*kv).vals),
{
    let mut members: Vec<(String, String)> = Vec::new();
    let n: usize = kv.len();
    let ghost ps = texts_v(*kv).pairs();
    let ghost want = quoted(ps);
    let mut i: usize = 0;
    while i < n
        invariant
            i <= n,
            n == kv.order().len(),
            kv.wf(),
            ps == texts_v(*kv).pairs(),
            want == quoted(ps),
            members.len() == i,
            forall|j: int| 0 <= j < i ==> ((#[trigger] members@[j]).0@, members@[j].1@) == want[j],
            forall|j: int|
                0 <= j < i ==> json_top(json_string((#[trigger] ps[j]).1)) == Ok::<JsonV, Seq<char>>(
                    JsonV::Str(ps[j].1),
                ),
        decreases n - i,
    {
        let k = kv.key_at(i);
        let v = kv.val_at(i);
        assert(ps[i as int] == (k@, v@));
        members.push((k.clone(), string_text(v.as_str())));
        i = i + 1;
    }
    assert(pairs_v(members@) =~= want);
    proof {
        kv.lemma_order();
        assert(distinct(want)) by {
            assert forall|i: int, j: int| 0 <= i < j < want.len() implies (#[trigger] want[i]).0 != (
            #[trigger] want[j]).0 by {
                assert(texts_v(*kv).order[i] != texts_v(*kv).order[j]);
            }
        }
        assert forall|i: int| 0 <= i < want.len() implies settled((#[trigger] want[i]).1) by {
            assert(want[i].1 == json_string(ps[i].1));
            assert(of_text(want[i].1));
        }
        assert(distinct(ps)) by {
            assert forall|i: int, j: int| 0 <= i < j < ps.len() implies (#[trigger] ps[i]).0 != (#[trigger] ps[j]).0 by {
                assert(want[i].0 != want[j].0);
            }
        }
    }
    match object_text(&members) {
        Err(e) => Err(e),
        Ok(t) => {
            let head = string_text(script);
            let top: Vec<(String, String)> = vec![("script".to_owned(), head), ("kv".to_owned(), t)];
            let ghost tops = seq![("script"@, json_string(script@)), ("kv"@, t@)];
            assert(pairs_v(top@) =~= tops);
            proof {
                reveal_strlit("script");
                reveal_strlit("kv");
                assert("script"@.len() != "kv"@.len());
                assert(of_text(json_string(script@)));
                assert(of_members(t@, quoted(ps)));
                assert(settled(t@));
                assert(whole(tops));
            }
            let r = object_text(&top);
            proof {
                lemma_restores(texts_v(*kv), script@, t@, r->Ok_0@);
            }
            r
        },
    }
}

/// The error of a state file that cannot be written.
pub open spec fn not_saved(p: PlaceV, path: Seq<char>, e: Seq<char>) -> OutV {
    failed(
        p,
        codes::FILE_PERMISSION@,
        "cannot persist db state to `"@ + path + "`: "@ + e,
        Some("check disk space or file permissions"@),
    )
}

/// The error of a state file that cannot be written.
pub fn save_err(p: &Place, path: &str, e: &str) -> (r: Out)
    ensures
        r@ == not_saved(p@, path@, e@),
{
    let msg = cat4("cannot persist db state to `", path, "`: ", e);
    fail(p, codes::FILE_PERMISSION, msg.as_str(), Some("check disk space or file permissions"))
}

/// Where and for which script the store is kept in a file, mathematically.
pub open spec fn persist_v(o: Option<(String, String)>) -> Option<(Seq<char>, Seq<char>)> {
    match o {
        Some(t) => Some((t.0@, t.1@)),
        None => None,
    }
}

/// Functions of the store, `db.set` and `db.get`: the store behind the call, and the
/// outcome. A store that is kept in a file is written out at once.
pub open spec fn db_fn(
    kv: TextsV,
    persist: Option<(Seq<char>, Seq<char>)>,
    p: PlaceV,
    name: Seq<char>,
    a: Seq<ValueV>,
) -> (TextsV, OutV) {
    match text_at(p, name, a, 0) {
        Err(o) => (kv, o),
        Ok(k) => if name == "db.get"@ {
            (
                kv,
                OutV::Value(
                    match kv.get(k) {
                        Some(v) => ValueV::Str(v),
                        None => ValueV::Null,
                    },
                ),
            )
        } else {
            match text_at(p, name, a, 1) {
                Err(o) => (kv, o),
                Ok(v) => {
                    let kv2 = kv.put(k, v);
                    match persist {
                        None => (kv2, OutV::Value(ValueV::Null)),
                        Some((path, script)) => match state_text(kv2, script) {
                            Ok(t) => (kv2, OutV::Ask(RequestV::SaveState(path, t), PendingV::SaveState(path))),
                            Err(e) => (kv2, not_saved(p, path, e)),
                        },
                    }
                },
            }
        },
    }
}

/// Calls a function of the store. What is written to the state file restores the store.
pub fn do_db(
    kv: &mut Table<String>,
    persist: &Option<(String, String)>,
    p: &Place,
    name: &str,
    a: &Vec<Value>,
) -> (r: Out)
    requires
        old(kv).wf(),
        a.len() >= 1,
        name@ != "db.get"@ ==> a.len() >= 2,
    ensures
        final(kv).wf(),
        (texts_v(*final(kv)), r@) == db_fn(texts_v(*old(kv)), persist_v(*persist), p@, name@, values_v(a@)),
        r@ matches OutV::Ask(RequestV::SaveState(_, t), _) ==> restores(
            t,
            (persist_v(*persist)->Some_0).1,
            texts_v(*final(kv)).vals,
        ),
{
    let k = match get_text(p, name, a, 0) {
        Err(o) => return o,
        Ok(s) => s,
    };
    if eq(name, "db.get") {
        return match get(kv, k) {
            Some(v) => Out::Value(Value::Str(v.clone())),
            None => Out::Value(Value::Null),
        };
    }
    let v = match get_text(p, name, a, 1) {
        Err(o) => return o,
        Ok(s) => s,
    };
    put(kv, k, v);
    match persist {
        None => Out::Value(Value::Null),
        Some(t) => match state_file(kv, t.1.as_str()) {
            Ok(text) => Out::Ask(Request::SaveState(t.0.clone(), text), Pending::SaveState(t.0.clone())),
            Err(e) => save_err(p, t.0.as_str(), e.as_str()),
        },
    }
}

/// Fills a store with pairs, the later of two with the same key.
pub open spec fn filled(pairs: Seq<(Seq<char>, Seq<char>)>, n: int) -> TextsV
    decreases n,
{
    if n <= 0 || n > pairs.len() {
        no_texts()
    } else {
        filled(pairs, n - 1).put(pairs[n - 1].0, pairs[n - 1].1)
    }
}

/// A store of pairs.
pub fn fill(pairs: &Vec<(String, String)>) -> (r: Table<String>)
    ensures
        r.wf(),
        texts_v(r) == filled(pairs_v(pairs@), pairs.len() as int),
{
    let mut t = empty();
    let mut i: usize = 0;
    while i < pairs.len()
        invariant
            i <= pairs.len(),
            t.wf(),
            texts_v(t) == filled(pairs_v(pairs@), i as int),
        decreases pairs.len() - i,
    {
        assert(pairs_v(pairs@)[i as int] == (pairs@[i as int].0@, pairs@[i as int].1@));
        put(&mut t, pairs[i].0.as_str(), pairs[i].1.as_str());
        i = i + 1;
    }
    t
}

} // verus!
