//! Libraries that are registered by name while a program runs.

use vstd::prelude::*;

use crate::builtins::world::{fail, failed, Out, OutV, Pending, PendingV, Place, PlaceV, Request, RequestV};
use crate::error::codes;
use crate::table::Table;
use crate::text::{cat3, cat4, dec, dec_usize, eq};
use crate::texts::{get, put, take, texts_v, TextsV};
use crate::value::{dict_v, value_v, values_v, Value, ValueV};

verus! {

/// Registers a library at a path under a name.
pub fn register(t: &mut Table<String>, name: &str, path: &str)
    requires
        old(t).wf(),
    ensures
        final(t).wf(),
        texts_v(*final(t)) == texts_v(*old(t)).put(name@, path@),
{
    put(t, name, path);
}

/// The path of a registered library.
pub fn lookup(t: &Table<String>, name: &str) -> (r: Option<String>)
    requires
        t.wf(),
    ensures
        crate::error::opt_text(r) == texts_v(*t).get(name@),
{
    match get(t, name) {
        Some(s) => Some(s.clone()),
        None => None,
    }
}

/// Takes a registration back, and says whether there was one.
pub fn unregister(t: &mut Table<String>, name: &str) -> (r: bool)
    requires
        old(t).wf(),
    ensures
        final(t).wf(),
        texts_v(*final(t)) == texts_v(*old(t)).without(name@),
        r == (texts_v(*old(t)).get(name@) is Some),
{
    take(t, name)
}

/// The text at a place of the arguments.
pub open spec fn text_at(p: PlaceV, a: Seq<ValueV>, i: int) -> Result<Seq<char>, OutV> {
    match a[i] {
        ValueV::Str(s) => Ok(s),
        v => Err(
            failed(
                p,
                codes::TYPE_MISMATCH@,
                "`plugin.*` expects a string for argument "@ + dec((i + 1) as nat) + ", got `"@ + v.type_text() + "`"@,
                None,
            ),
        ),
    }
}

fn as_str<'a>(p: &Place, a: &'a Vec<Value>, i: usize) -> (r: Result<&'a str, Out>)
    requires
        i < a.len(),
    ensures
        match r {
            Ok(s) => text_at(p@, values_v(a@), i as int) == Ok::<Seq<char>, OutV>(s@),
            Err(o) => text_at(p@, values_v(a@), i as int) == Err::<Seq<char>, OutV>(o@),
        },
{
    assert(values_v(a@)[i as int] == a@[i as int]@);
    match &a[i] {
        Value::Str(s) => Ok(s.as_str()),
        v => {
            let mut msg = cat3(
                "`plugin.*` expects a string for argument ",
                dec_usize(i + 1).as_str(),
                ", got `",
            );
            msg.append(v.kind_name());
            msg.append("`");
            Err(fail(p, codes::TYPE_MISMATCH, msg.as_str(), None))
        },
    }
}

/// The registered libraries as values: a name and a path each.
pub open spec fn listed(t: TextsV) -> Seq<ValueV> {
    t.pairs().map_values(
        |e: (Seq<char>, Seq<char>)|
            ValueV::Dict(seq![("name"@, ValueV::Str(e.0)), ("path"@, ValueV::Str(e.1))]),
    )
}

fn list(t: &Table<String>) -> (r: Vec<Value>)
    requires
        t.wf(),
    ensures
        values_v(r@) == listed(texts_v(*t)),
{
    let mut out: Vec<Value> = Vec::new();
    let n: usize = t.len();
    let mut i: usize = 0;
    while i < n
        invariant
            i <= n,
            n == t.order().len(),
            t.wf(),
            out.len() == i,
            forall|j: int| 0 <= j < i ==> value_v(#[trigger] out@[j]) == listed(texts_v(*t))[j],
        decreases n - i,
    {
        let k = t.key_at(i);
        let v = t.val_at(i);
        assert(texts_v(*t).pairs()[i as int] == (k@, v@));
        let es: Vec<(String, Value)> = vec![
            ("name".to_owned(), Value::Str(k.clone())),
            ("path".to_owned(), Value::Str(v.clone())),
        ];
        assert(dict_v(es@) =~= seq![("name"@, ValueV::Str(k@)), ("path"@, ValueV::Str(v@))]);
        out.push(Value::Dict(es));
        i = i + 1;
    }
    assert(values_v(out@) =~= listed(texts_v(*t)));
    out
}

/// How many arguments a function takes at least.
pub open spec fn plugin_least(name: Seq<char>) -> int {
    if name == "plugin.load"@ {
        2
    } else if name == "plugin.has"@ || name == "plugin.unload"@ {
        1
    } else {
        0
    }
}

/// The functions of registered libraries: the registrations behind the call, and the
/// outcome.
pub open spec fn plugin_fn(t: TextsV, p: PlaceV, name: Seq<char>, a: Seq<ValueV>) -> (TextsV, OutV) {
    if name == "plugin.load"@ {
        match text_at(p, a, 0) {
            Err(o) => (t, o),
            Ok(path) => match text_at(p, a, 1) {
                Err(o) => (t, o),
                Ok(alias) => (t, OutV::Ask(RequestV::LoadLib(path), PendingV::LoadLib(path, alias))),
            },
        }
    } else if name == "plugin.has"@ {
        match text_at(p, a, 0) {
            Err(o) => (t, o),
            Ok(k) => (t, OutV::Value(ValueV::Bool(t.get(k) is Some))),
        }
    } else if name == "plugin.list"@ {
        (t, OutV::Value(ValueV::List(listed(t))))
    } else if name == "plugin.unload"@ {
        match text_at(p, a, 0) {
            Err(o) => (t, o),
            Ok(k) => (t.without(k), OutV::Value(ValueV::Bool(t.get(k) is Some))),
        }
    } else {
        (t, failed(p, codes::NOT_IMPLEMENTED@, "unknown plugin function `"@ + name + "`"@, None))
    }
}

/// Calls a function of registered libraries.
pub fn call(t: &mut Table<String>, p: &Place, name: &str, a: &Vec<Value>) -> (r: Out)
    requires
        old(t).wf(),
        a.len() >= plugin_least(name@),
    ensures
        final(t).wf(),
        (texts_v(*final(t)), r@) == plugin_fn(texts_v(*old(t)), p@, name@, values_v(a@)),
{
    if eq(name, "plugin.load") {
        let path = match as_str(p, a, 0) {
            Err(o) => return o,
            Ok(s) => s,
        };
        match as_str(p, a, 1) {
            Err(o) => o,
            Ok(alias) => Out::Ask(
                Request::LoadLib(path.to_owned()),
                Pending::LoadLib(path.to_owned(), alias.to_owned()),
            ),
        }
    } else if eq(name, "plugin.has") {
        match as_str(p, a, 0) {
            Err(o) => o,
            Ok(k) => Out::Value(Value::Bool(get(t, k).is_some())),
        }
    } else if eq(name, "plugin.list") {
        Out::Value(Value::List(list(t)))
    } else if eq(name, "plugin.unload") {
        match as_str(p, a, 0) {
            Err(o) => o,
            Ok(k) => Out::Value(Value::Bool(unregister(t, k))),
        }
    } else {
        let msg = cat3("unknown plugin function `", name, "`");
        fail(p, codes::NOT_IMPLEMENTED, msg.as_str(), None)
    }
}

/// The error of a library that cannot be loaded.
pub open spec fn not_loaded(p: PlaceV, path: Seq<char>, e: Seq<char>) -> OutV {
    failed(
        p,
        codes::DLL_LOAD@,
        "cannot load plugin `"@ + path + "`: "@ + e,
        Some("check the plugin path and architecture (x64)"@),
    )
}

/// The error of a library that cannot be loaded.
pub fn load_err(p: &Place, path: &str, e: &str) -> (r: Out)
    ensures
        r@ == not_loaded(p@, path@, e@),
{
    let msg = cat4("cannot load plugin `", path, "`: ", e);
    fail(p, codes::DLL_LOAD, msg.as_str(), Some("check the plugin path and architecture (x64)"))
}

} // verus!
