//! The built-in functions: calling one, and finishing a call when the world outside has
//! answered.

use std::collections::HashMap;

use vstd::prelude::*;

pub mod basics;
pub mod digest;
pub mod http;
pub mod http_laws;
pub mod json;
pub mod names;
pub mod path;
pub mod rng;
pub mod store;
pub mod system;
pub mod text_laws;
pub mod time;
pub mod value_laws;
pub mod world;

use self::basics::{
    abs_of, append_of, arg_err, assert_of, contains_of, do_abs, do_append, do_assert, do_contains, do_extreme,
    do_has_key, do_index_of, do_len, do_sides, do_to_float, do_to_int, extreme_of, get_text, has_key_of, has_kind,
    index_of_of, is_kind, len_of, show, showing, sides_of, text_at, to_float_of, to_int_of, too_few, write_out,
    written,
};
use self::digest::{base64_fn, digest_fn, do_base64, do_digest, do_pattern, pattern_fn};
use self::http::{do_http, host_of, http_fn, http_request, net_err, net_fault, response_text};
use self::json::{
    collect_floats, floats_in, json_text, json_to_value, json_value, value_to_json, LEVELS,
};
pub use self::names::is_builtin;
use self::rng::{stepped, uuid_text, Rng};
use self::store::{
    args_fn, args_from, db_fn, do_args, do_db, fill, filled, not_saved, persist_v, read_args, save_err,
};
use self::system::{
    do_env, do_file, do_log, do_path, do_path_join, do_random, do_text, do_time, env_fn, file_codes, file_fn,
    file_trouble, log_fn, path_fn, path_join_from, random_of, text_fn, time_fn,
};
use self::world::{
    dup_all, fail, failed, IoKind, Out, OutV, Pending, PendingV, Place, PlaceV, Reply, ReplyV,
    Request, RequestV,
};
use crate::archmod;
use crate::archmod::{
    arch_fn, no_entries, not_opened, after_packing, open_err, tgz_listed, tgz_text, tgz_unpacked,
    zip_entry_of, zip_from, zip_listed, zip_names_of, zip_text, zip_unpacked,
};
use crate::bytes::{read_text, text_of};
use crate::error::codes;
use crate::pluginmod;
use crate::pluginmod::{load_err, not_loaded, plugin_fn, plugin_least};
use crate::ptrmod;
use crate::ptrmod::{note, noted, ptr_fn, ptr_least};
use crate::srvmod;
use crate::srvmod::{respond_fn, server_fn, Server, ServerV};
use crate::table::Table;
use crate::text::{cat3, cat4, cat5, dec_i64, eq, idec, strs};
use crate::texts::{empty, no_texts, texts_v, TextsV};
use crate::value::{assemble, assembled, shown, values_v, Value, ValueV};

verus! {

/// What the built-in functions keep between calls: the store and where it is kept, the
/// arguments of the command line, the noted blocks of memory, the registered libraries, the
/// server and the generator of random numbers.
pub struct World {
    pub kv: Table<String>,
    pub persist: Option<(String, String)>,
    pub args: Table<String>,
    pub blocks: HashMap<usize, usize>,
    pub plugins: Table<String>,
    pub server: Server,
    pub rng: Rng,
}

/// What the built-in functions keep, mathematically.
#[verifier::ext_equal]
pub struct WorldV {
    pub kv: TextsV,
    pub persist: Option<(Seq<char>, Seq<char>)>,
    pub args: TextsV,
    pub blocks: Map<usize, usize>,
    pub plugins: TextsV,
    pub server: ServerV,
    pub rng: u64,
}

impl View for World {
    type V = WorldV;

    open spec fn view(&self) -> WorldV {
        WorldV {
            kv: texts_v(self.kv),
            persist: persist_v(self.persist),
            args: texts_v(self.args),
            blocks: self.blocks@,
            plugins: texts_v(self.plugins),
            server: self.server@,
            rng: self.rng.state,
        }
    }
}

impl World {
    /// Whether the tables are sound and no more requests wait than may.
    pub open spec fn wf(self) -> bool {
        self.kv.wf() && self.args.wf() && self.plugins.wf() && self.server@.wf()
    }

    /// A world in which nothing has happened, with a seed for random numbers.
    pub fn new(seed: u64) -> (r: World)
        ensures
            r.wf(),
            r@ == (WorldV {
                kv: no_texts(),
                persist: None,
                args: no_texts(),
                blocks: Map::empty(),
                plugins: no_texts(),
                server: ServerV { queue: Seq::empty(), open: Set::empty(), next: 1 },
                rng: self::rng::seeded(seed),
            }),
    {
        World {
            kv: empty(),
            persist: None,
            args: empty(),
            blocks: HashMap::new(),
            plugins: empty(),
            server: Server::new(),
            rng: Rng::seed(seed),
        }
    }
}

/// Keeps the store in a file from now on, together with the checksum of the script.
pub fn enable_persist(w: &mut World, path: String, script_hash: String)
    requires
        old(w).wf(),
    ensures
        final(w).wf(),
        final(w)@ == (WorldV { persist: Some((path@, script_hash@)), ..old(w)@ }),
{
    w.persist = Some((path, script_hash));
}

/// Fills the store with what a file kept, in place of what it holds.
pub fn load_state(w: &mut World, kv: &Vec<(String, String)>)
    requires
        old(w).wf(),
    ensures
        final(w).wf(),
        final(w)@ == (WorldV { kv: filled(self::json::pairs_v(kv@), kv.len() as int), ..old(w)@ }),
{
    w.kv = fill(kv);
}

/// Reads the arguments of the command line.
pub fn init_args(w: &mut World, args: &Vec<String>)
    requires
        old(w).wf(),
    ensures
        final(w).wf(),
        final(w)@ == (WorldV { args: args_from(strs(args@), 0, old(w)@.args), ..old(w)@ }),
{
    read_args(&mut w.args, args);
}

/// The outcome where there are enough arguments.
pub open spec fn need(p: PlaceV, name: Seq<char>, a: Seq<ValueV>, n: nat, o: OutV) -> OutV {
    if a.len() < n {
        too_few(p, name, n, a.len())
    } else {
        o
    }
}

/// The outcome of JSON text.
pub open spec fn parsed(p: PlaceV, a: Seq<ValueV>) -> OutV {
    match text_at(p, "json_parse"@, a, 0) {
        Err(o) => o,
        Ok(s) => match json_value(p, s, LEVELS as nat) {
            Ok(v) => OutV::Value(v),
            Err(e) => OutV::Error(e),
        },
    }
}

/// The JSON text of a value whose floating-point numbers are written out.
pub open spec fn stringified(p: PlaceV, v: ValueV, texts: Seq<Seq<char>>) -> OutV {
    match json_text(p, v, texts, 0) {
        Ok((t, _)) => OutV::Value(ValueV::Str(t)),
        Err(e) => OutV::Error(e),
    }
}

/// The JSON text of a value: its floating-point numbers are asked for first.
pub open spec fn json_of(p: PlaceV, v: ValueV) -> OutV {
    let fl = floats_in(v);
    if fl.len() == 0 {
        stringified(p, v, Seq::empty())
    } else {
        OutV::Ask(RequestV::JsonFloats(fl), PendingV::Json(v))
    }
}

fn stringify(p: &Place, v: &Value, texts: &Vec<String>) -> (r: Out)
    requires
        floats_in(v@).len() <= usize::MAX,
    ensures
        r@ == stringified(p@, v@, strs(texts@)),
{
    match value_to_json(p, v, texts, 0) {
        Ok((t, _)) => Out::Value(Value::Str(t)),
        Err(e) => Out::Error(e),
    }
}

fn do_stringify(p: &Place, v: &Value) -> (r: Out)
    ensures
        r@ == json_of(p@, v@),
{
    let mut fl: Vec<u64> = Vec::new();
    collect_floats(v, &mut fl);
    assert(fl@ =~= floats_in(v@));
    if fl.len() == 0 {
        let none: Vec<String> = Vec::new();
        assert(strs(none@) =~= Seq::empty());
        stringify(p, v, &none)
    } else {
        Out::Ask(Request::JsonFloats(fl), Pending::Json(v.dup()))
    }
}

fn do_parse(p: &Place, a: &Vec<Value>) -> (r: Out)
    requires
        a.len() >= 1,
    ensures
        r@ == parsed(p@, values_v(a@)),
{
    match get_text(p, "json_parse", a, 0) {
        Err(o) => o,
        Ok(s) => match json_to_value(p, s, LEVELS) {
            Ok(v) => Out::Value(v),
            Err(e) => Out::Error(e),
        },
    }
}

/// Functions of values: what they come to.
pub open spec fn value_fn(p: PlaceV, name: Seq<char>, a: Seq<ValueV>) -> Option<OutV> {
    if name == "print"@ {
        Some(need(p, name, a, 1, showing(shown(a[0]), true)))
    } else if name == "len"@ {
        Some(need(p, name, a, 1, len_of(p, a)))
    } else if name == "append"@ {
        Some(need(p, name, a, 2, append_of(p, a)))
    } else if name == "clone"@ || name == "copy"@ {
        Some(need(p, name, a, 1, OutV::Value(a[0])))
    } else if name == "contains"@ {
        Some(need(p, name, a, 2, contains_of(p, a)))
    } else if name == "index_of"@ {
        Some(need(p, name, a, 2, index_of_of(p, a)))
    } else if name == "keys"@ || name == "values"@ {
        Some(need(p, name, a, 1, sides_of(p, name, a)))
    } else if name == "has_key"@ {
        Some(need(p, name, a, 2, has_key_of(p, a)))
    } else if name == "type_of"@ {
        Some(need(p, name, a, 1, OutV::Value(ValueV::Str(a[0].type_text()))))
    } else if name == "assert"@ {
        Some(need(p, name, a, 1, assert_of(p, a)))
    } else if name == "is_int"@ || name == "is_float"@ || name == "is_str"@ || name == "is_bool"@ || name
        == "is_list"@ || name == "is_dict"@ || name == "is_null"@ {
        Some(need(p, name, a, 1, OutV::Value(ValueV::Bool(is_kind(name, a[0])))))
    } else if name == "to_str"@ {
        Some(need(p, name, a, 1, showing(shown(a[0]), false)))
    } else if name == "to_int"@ {
        Some(need(p, name, a, 1, to_int_of(p, a)))
    } else if name == "to_float"@ {
        Some(need(p, name, a, 1, to_float_of(p, a)))
    } else if name == "abs"@ {
        Some(need(p, name, a, 1, abs_of(p, a)))
    } else if name == "max"@ || name == "min"@ {
        Some(need(p, name, a, 2, extreme_of(p, name, a)))
    } else if name == "json_parse"@ {
        Some(need(p, name, a, 1, parsed(p, a)))
    } else if name == "json_stringify"@ {
        Some(need(p, name, a, 1, json_of(p, a[0])))
    } else {
        None
    }
}

fn call_value(p: &Place, name: &str, a: &Vec<Value>) -> (r: Option<Out>)
    ensures
        match r {
            Some(o) => value_fn(p@, name@, values_v(a@)) == Some(o@),
            None => value_fn(p@, name@, values_v(a@)) is None,
        },
{
    let n: usize = a.len();
    assert(values_v(a@).len() == n);
    assert(n > 0 ==> values_v(a@)[0] == a@[0]@);
    if eq(name, "print") {
        Some(if n < 1 { arg_err(p, name, 1, n) } else { show(&a[0], true) })
    } else if eq(name, "len") {
        Some(if n < 1 { arg_err(p, name, 1, n) } else { do_len(p, a) })
    } else if eq(name, "append") {
        Some(if n < 2 { arg_err(p, name, 2, n) } else { do_append(p, a) })
    } else if eq(name, "clone") || eq(name, "copy") {
        Some(if n < 1 { arg_err(p, name, 1, n) } else { Out::Value(a[0].dup()) })
    } else if eq(name, "contains") {
        Some(if n < 2 { arg_err(p, name, 2, n) } else { do_contains(p, a) })
    } else if eq(name, "index_of") {
        Some(if n < 2 { arg_err(p, name, 2, n) } else { do_index_of(p, a) })
    } else if eq(name, "keys") || eq(name, "values") {
        Some(if n < 1 { arg_err(p, name, 1, n) } else { do_sides(p, name, a) })
    } else if eq(name, "has_key") {
        Some(if n < 2 { arg_err(p, name, 2, n) } else { do_has_key(p, a) })
    } else if eq(name, "type_of") {
        Some(
            if n < 1 {
                arg_err(p, name, 1, n)
            } else {
                Out::Value(Value::Str(a[0].kind_name().to_owned()))
            },
        )
    } else if eq(name, "assert") {
        Some(if n < 1 { arg_err(p, name, 1, n) } else { do_assert(p, a) })
    } else if eq(name, "is_int") || eq(name, "is_float") || eq(name, "is_str") || eq(name, "is_bool") || eq(
        name,
        "is_list",
    ) || eq(name, "is_dict") || eq(name, "is_null") {
        Some(
            if n < 1 {
                arg_err(p, name, 1, n)
            } else {
                Out::Value(Value::Bool(has_kind(name, &a[0])))
            },
        )
    } else if eq(name, "to_str") {
        Some(if n < 1 { arg_err(p, name, 1, n) } else { show(&a[0], false) })
    } else if eq(name, "to_int") {
        Some(if n < 1 { arg_err(p, name, 1, n) } else { do_to_int(p, a) })
    } else if eq(name, "to_float") {
        Some(if n < 1 { arg_err(p, name, 1, n) } else { do_to_float(p, a) })
    } else if eq(name, "abs") {
        Some(if n < 1 { arg_err(p, name, 1, n) } else { do_abs(p, a) })
    } else if eq(name, "max") || eq(name, "min") {
        Some(if n < 2 { arg_err(p, name, 2, n) } else { do_extreme(p, name, a) })
    } else if eq(name, "json_parse") {
        Some(if n < 1 { arg_err(p, name, 1, n) } else { do_parse(p, a) })
    } else if eq(name, "json_stringify") {
        Some(if n < 1 { arg_err(p, name, 1, n) } else { do_stringify(p, &a[0]) })
    } else {
        None
    }
}

/// Functions of texts, files, the clock, the network and the system: what they come to.
pub open spec fn system_fn(p: PlaceV, name: Seq<char>, a: Seq<ValueV>) -> Option<OutV> {
    if name == "read_file"@ || name == "file_exists"@ {
        Some(need(p, name, a, 1, file_fn(p, name, a)))
    } else if name == "write_file"@ {
        Some(need(p, name, a, 2, file_fn(p, name, a)))
    } else if name == "str_trim"@ {
        Some(need(p, name, a, 1, text_fn(p, name, a)))
    } else if name == "str_contains"@ {
        Some(need(p, name, a, 2, text_fn(p, name, a)))
    } else if name == "str_replace"@ {
        Some(need(p, name, a, 3, text_fn(p, name, a)))
    } else if name == "time.now"@ {
        Some(OutV::Ask(RequestV::Now, PendingV::Given))
    } else if name == "time.format"@ {
        Some(need(p, name, a, 2, time_fn(p, name, a)))
    } else if name == "time.sleep"@ || name == "time.parse"@ {
        Some(need(p, name, a, 1, time_fn(p, name, a)))
    } else if name == "http_get"@ {
        Some(need(p, name, a, 1, http_fn(p, name, a)))
    } else if name == "http_post"@ {
        Some(need(p, name, a, 2, http_fn(p, name, a)))
    } else if name == "env.set"@ {
        Some(need(p, name, a, 2, env_fn(p, name, a)))
    } else if name == "sys.run"@ || name == "sys.get_env"@ || name == "env.get"@ {
        Some(need(p, name, a, 1, env_fn(p, name, a)))
    } else if name == "sys.msgbox"@ || name == "sys.beep"@ || name == "sys.clipboard_set"@ || name
        == "sys.get_screen_size"@ || name == "sys.reg_read"@ || name == "sys.reg_write"@ {
        Some(OutV::Ask(RequestV::Sys(name, a), PendingV::Given))
    } else if name == "log.info"@ || name == "log.warn"@ || name == "log.error"@ || name == "log.debug"@ {
        Some(need(p, name, a, 1, log_fn(p, name, a)))
    } else if name == "path.join"@ {
        Some(path_join_from(p, a, 0, Seq::empty()))
    } else if name == "path.dirname"@ || name == "path.basename"@ {
        Some(need(p, name, a, 1, path_fn(p, name, a)))
    } else if name == "regex.match"@ {
        Some(need(p, name, a, 2, pattern_fn(p, name, a)))
    } else if name == "regex.replace"@ {
        Some(need(p, name, a, 3, pattern_fn(p, name, a)))
    } else if name == "crypto.md5"@ || name == "crypto.sha1"@ || name == "crypto.sha256"@ {
        Some(need(p, name, a, 1, digest_fn(p, name, a)))
    } else if name == "crypto.hmac_sha256"@ {
        Some(need(p, name, a, 2, digest_fn(p, name, a)))
    } else if name == "crypto.base64_encode"@ || name == "crypto.base64_decode"@ {
        Some(need(p, name, a, 1, base64_fn(p, name, a)))
    } else if name == "archive.zip_list"@ || name == "archive.tgz_list"@ {
        Some(need(p, name, a, 1, arch_fn(p, name, a)))
    } else if name == "archive.zip_read"@ || name == "archive.zip_extract"@ || name == "archive.zip_create"@
        || name == "archive.tgz_read"@ || name == "archive.tgz_extract"@ || name == "archive.tgz_create"@ {
        Some(need(p, name, a, 2, arch_fn(p, name, a)))
    } else {
        None
    }
}

fn call_system(p: &Place, name: &str, a: &Vec<Value>) -> (r: Option<Out>)
    ensures
        match r {
            Some(o) => system_fn(p@, name@, values_v(a@)) == Some(o@),
            None => system_fn(p@, name@, values_v(a@)) is None,
        },
{
    let n: usize = a.len();
    assert(values_v(a@).len() == n);
    if eq(name, "read_file") || eq(name, "file_exists") {
        Some(if n < 1 { arg_err(p, name, 1, n) } else { do_file(p, name, a) })
    } else if eq(name, "write_file") {
        Some(if n < 2 { arg_err(p, name, 2, n) } else { do_file(p, name, a) })
    } else if eq(name, "str_trim") {
        Some(if n < 1 { arg_err(p, name, 1, n) } else { do_text(p, name, a) })
    } else if eq(name, "str_contains") {
        Some(if n < 2 { arg_err(p, name, 2, n) } else { do_text(p, name, a) })
    } else if eq(name, "str_replace") {
        Some(if n < 3 { arg_err(p, name, 3, n) } else { do_text(p, name, a) })
    } else if eq(name, "time.now") {
        Some(Out::Ask(Request::Now, Pending::Given))
    } else if eq(name, "time.format") {
        Some(if n < 2 { arg_err(p, name, 2, n) } else { do_time(p, name, a) })
    } else if eq(name, "time.sleep") || eq(name, "time.parse") {
        Some(if n < 1 { arg_err(p, name, 1, n) } else { do_time(p, name, a) })
    } else if eq(name, "http_get") {
        Some(if n < 1 { arg_err(p, name, 1, n) } else { do_http(p, name, a) })
    } else if eq(name, "http_post") {
        Some(if n < 2 { arg_err(p, name, 2, n) } else { do_http(p, name, a) })
    } else if eq(name, "env.set") {
        Some(if n < 2 { arg_err(p, name, 2, n) } else { do_env(p, name, a) })
    } else if eq(name, "sys.run") || eq(name, "sys.get_env") || eq(name, "env.get") {
        Some(if n < 1 { arg_err(p, name, 1, n) } else { do_env(p, name, a) })
    } else if eq(name, "sys.msgbox") || eq(name, "sys.beep") || eq(name, "sys.clipboard_set") || eq(
        name,
        "sys.get_screen_size",
    ) || eq(name, "sys.reg_read") || eq(name, "sys.reg_write") {
        Some(Out::Ask(Request::Sys(name.to_owned(), dup_all(a)), Pending::Given))
    } else if eq(name, "log.info") || eq(name, "log.warn") || eq(name, "log.error") || eq(name, "log.debug") {
        Some(if n < 1 { arg_err(p, name, 1, n) } else { do_log(p, name, a) })
    } else if eq(name, "path.join") {
        Some(do_path_join(p, a))
    } else if eq(name, "path.dirname") || eq(name, "path.basename") {
        Some(if n < 1 { arg_err(p, name, 1, n) } else { do_path(p, name, a) })
    } else if eq(name, "regex.match") {
        Some(if n < 2 { arg_err(p, name, 2, n) } else { do_pattern(p, name, a) })
    } else if eq(name, "regex.replace") {
        Some(if n < 3 { arg_err(p, name, 3, n) } else { do_pattern(p, name, a) })
    } else if eq(name, "crypto.md5") || eq(name, "crypto.sha1") || eq(name, "crypto.sha256") {
        Some(if n < 1 { arg_err(p, name, 1, n) } else { do_digest(p, name, a) })
    } else if eq(name, "crypto.hmac_sha256") {
        Some(if n < 2 { arg_err(p, name, 2, n) } else { do_digest(p, name, a) })
    } else if eq(name, "crypto.base64_encode") || eq(name, "crypto.base64_decode") {
        Some(if n < 1 { arg_err(p, name, 1, n) } else { do_base64(p, name, a) })
    } else if eq(name, "archive.zip_list") || eq(name, "archive.tgz_list") {
        Some(if n < 1 { arg_err(p, name, 1, n) } else { archmod::call(p, name, a) })
    } else if eq(name, "archive.zip_read") || eq(name, "archive.zip_extract") || eq(name, "archive.zip_create")
        || eq(name, "archive.tgz_read") || eq(name, "archive.tgz_extract") || eq(name, "archive.tgz_create") {
        Some(if n < 2 { arg_err(p, name, 2, n) } else { archmod::call(p, name, a) })
    } else {
        None
    }
}

/// Functions that keep something between calls: what is kept behind the call, and what they
/// come to.
pub open spec fn kept_fn(w: WorldV, p: PlaceV, name: Seq<char>, a: Seq<ValueV>) -> Option<(WorldV, OutV)> {
    if name == "random.int"@ {
        if a.len() < 2 {
            Some((w, too_few(p, name, 2, a.len())))
        } else {
            let (s, o) = random_of(w.rng, p, a);
            Some((WorldV { rng: s, ..w }, o))
        }
    } else if name == "random.float"@ {
        let s = stepped(w.rng);
        Some((WorldV { rng: s, ..w }, OutV::Ask(RequestV::FloatUnit(s >> 11), PendingV::Given)))
    } else if name == "uuid.new"@ {
        let hi = stepped(w.rng);
        let lo = stepped(hi);
        Some((WorldV { rng: lo, ..w }, OutV::Value(ValueV::Str(uuid_text(hi, lo)))))
    } else if name == "server.listen"@ || name == "server.poll"@ || name == "server.respond"@ {
        let (s, o) = server_fn(w.server, p, name, a);
        Some((WorldV { server: s, ..w }, o))
    } else if ptr_least(name) > 0 {
        if a.len() < ptr_least(name) {
            Some((w, too_few(p, name, ptr_least(name) as nat, a.len())))
        } else {
            let (b, o) = ptr_fn(w.blocks, p, name, a);
            Some((WorldV { blocks: b, ..w }, o))
        }
    } else if name == "plugin.load"@ || name == "plugin.has"@ || name == "plugin.list"@ || name
        == "plugin.unload"@ {
        if a.len() < plugin_least(name) {
            Some((w, too_few(p, name, plugin_least(name) as nat, a.len())))
        } else {
            let (t, o) = plugin_fn(w.plugins, p, name, a);
            Some((WorldV { plugins: t, ..w }, o))
        }
    } else if name == "args.get"@ || name == "args.has"@ {
        Some((w, need(p, name, a, 1, args_fn(w.args, p, name, a))))
    } else if name == "db.get"@ || name == "db.set"@ {
        let k: nat = if name == "db.get"@ { 1 } else { 2 };
        if a.len() < k {
            Some((w, too_few(p, name, k, a.len())))
        } else {
            let (t, o) = db_fn(w.kv, w.persist, p, name, a);
            Some((WorldV { kv: t, ..w }, o))
        }
    } else {
        None
    }
}

fn ptr_count(name: &str) -> (r: usize)
    ensures
        r == ptr_least(name@),
{
    if eq(name, "ptr.alloc") || eq(name, "ptr.free") || eq(name, "ptr.is_null") || eq(name, "ptr.is_valid") || eq(
        name,
        "ptr.size",
    ) {
        1
    } else if eq(name, "ptr.read_int") || eq(name, "ptr.read_float") || eq(name, "ptr.read_byte") {
        2
    } else if eq(name, "ptr.write_int") || eq(name, "ptr.write_float") || eq(name, "ptr.write_byte") {
        3
    } else {
        0
    }
}

fn plugin_count(name: &str) -> (r: usize)
    ensures
        r == plugin_least(name@),
{
    if eq(name, "plugin.load") {
        2
    } else if eq(name, "plugin.has") || eq(name, "plugin.unload") {
        1
    } else {
        0
    }
}

fn call_kept(w: &mut World, p: &Place, name: &str, a: &Vec<Value>) -> (r: Option<Out>)
    requires
        old(w).wf(),
    ensures
        final(w).wf(),
        match r {
            Some(o) => kept_fn(old(w)@, p@, name@, values_v(a@)) == Some((final(w)@, o@)),
            None => kept_fn(old(w)@, p@, name@, values_v(a@)) is None && final(w)@ == old(w)@,
        },
{
    let n: usize = a.len();
    assert(values_v(a@).len() == n);
    if eq(name, "random.int") {
        Some(if n < 2 { arg_err(p, name, 2, n) } else { do_random(&mut w.rng, p, a) })
    } else if eq(name, "random.float") {
        let k: u64 = w.rng.random_unit();
        Some(Out::Ask(Request::FloatUnit(k), Pending::Given))
    } else if eq(name, "uuid.new") {
        Some(Out::Value(Value::Str(w.rng.uuid())))
    } else if eq(name, "server.listen") || eq(name, "server.poll") || eq(name, "server.respond") {
        Some(srvmod::call(&mut w.server, p, name, a))
    } else if ptr_count(name) > 0 {
        let k: usize = ptr_count(name);
        Some(if n < k { arg_err(p, name, k, n) } else { ptrmod::call(&mut w.blocks, p, name, a) })
    } else if eq(name, "plugin.load") || eq(name, "plugin.has") || eq(name, "plugin.list") || eq(
        name,
        "plugin.unload",
    ) {
        let k: usize = plugin_count(name);
        Some(if n < k { arg_err(p, name, k, n) } else { pluginmod::call(&mut w.plugins, p, name, a) })
    } else if eq(name, "args.get") || eq(name, "args.has") {
        Some(if n < 1 { arg_err(p, name, 1, n) } else { do_args(&w.args, p, name, a) })
    } else if eq(name, "db.get") || eq(name, "db.set") {
        let k: usize = if eq(name, "db.get") { 1 } else { 2 };
        Some(if n < k { arg_err(p, name, k, n) } else { do_db(&mut w.kv, &w.persist, p, name, a) })
    } else {
        None
    }
}

/// Calling a function by name: what is kept behind the call, and what it comes to. A name
/// that is none of a built-in function is an error.
#[verifier::opaque]
pub open spec fn called(w: WorldV, p: PlaceV, name: Seq<char>, a: Seq<ValueV>) -> (WorldV, OutV) {
    match value_fn(p, name, a) {
        Some(o) => (w, o),
        None => match system_fn(p, name, a) {
            Some(o) => (w, o),
            None => match kept_fn(w, p, name, a) {
                Some((w2, o)) => (w2, o),
                None => (
                    w,
                    failed(
                        p,
                        codes::UNDEFINED@,
                        "undefined function `"@ + name + "`"@,
                        Some("check the spelling"@),
                    ),
                ),
            },
        },
    }
}

/// Calls a function by name.
pub fn call(w: &mut World, p: &Place, name: &str, a: &Vec<Value>) -> (r: Out)
    requires
        old(w).wf(),
    ensures
        final(w).wf(),
        (final(w)@, r@) == called(old(w)@, p@, name@, values_v(a@)),
{
    proof {
        reveal(called);
    }
    if let Some(o) = call_value(p, name, a) {
        return o;
    }
    if let Some(o) = call_system(p, name, a) {
        return o;
    }
    if let Some(o) = call_kept(w, p, name, a) {
        return o;
    }
    let msg = cat3("undefined function `", name, "`");
    fail(p, codes::UNDEFINED, msg.as_str(), Some("check the spelling"))
}

/// Whether a reply is one that a call can be finished with.
pub open spec fn fits(pending: PendingV, reply: ReplyV) -> bool {
    match pending {
        PendingV::Null | PendingV::True => reply is Done,
        PendingV::Given => reply is Float || reply is Int || reply is Flag || reply is Value || reply is Error,
        PendingV::Show(..) => reply is Texts,
        PendingV::ReadFile(_) => reply is Text || reply is Trouble,
        PendingV::WriteFile(_) | PendingV::Sleep | PendingV::SaveState(_) | PendingV::LoadLib(..)
        | PendingV::ZipCreate(..) | PendingV::TgzCreate(..) | PendingV::Packed(_) => reply is Done
            || reply is Trouble,
        PendingV::ToFloat(_) | PendingV::ArgFloat(..) => reply is MaybeFloat,
        PendingV::Http(_) => reply is Bytes || reply is NetTrouble,
        PendingV::Run(_) => reply is Output || reply is Trouble,
        PendingV::EnvGet => reply is MaybeText,
        PendingV::Listen(_) => reply is Int || reply is Trouble || reply is NetTrouble,
        PendingV::Alloc(_) => reply is Addr,
        PendingV::PeekInt | PendingV::PeekFloat | PendingV::PeekByte => reply is Bits,
        PendingV::PokeFloat(..) => reply is Float,
        PendingV::ZipList(_) | PendingV::ZipRead(..) | PendingV::ZipExtract(..) | PendingV::TgzList(_)
        | PendingV::TgzRead(..) | PendingV::TgzExtract(..) => reply is Bytes || reply is Trouble,
        PendingV::TgzPacked(_) => reply is Bytes || reply is PackTrouble,
        PendingV::Unpacked(..) => reply is Done || reply is UnpackTrouble,
        PendingV::Json(v) => reply is Texts && floats_in(v).len() <= usize::MAX,
    }
}

/// What was answered, as a value.
pub open spec fn given(reply: ReplyV) -> OutV {
    match reply {
        ReplyV::Float(b) => OutV::Value(ValueV::Float(b)),
        ReplyV::Int(n) => OutV::Value(ValueV::Int(n)),
        ReplyV::Flag(b) => OutV::Value(ValueV::Bool(b)),
        ReplyV::Value(v) => OutV::Value(v),
        ReplyV::Error(e) => OutV::Error(e),
        _ => OutV::Value(ValueV::Null),
    }
}

/// The error of a file that cannot be read or written.
pub open spec fn file_fault(p: PlaceV, act: Seq<char>, path: Seq<char>, k: IoKind, e: Seq<char>) -> OutV {
    let (code, hint) = file_trouble(k);
    failed(p, code, "cannot "@ + act + " file `"@ + path + "`: "@ + e, Some(hint))
}

fn file_err(p: &Place, act: &str, path: &str, k: IoKind, e: &str) -> (r: Out)
    ensures
        r@ == file_fault(p@, act@, path@, k, e@),
{
    let (code, hint) = file_codes(k);
    let mut msg = cat4("cannot ", act, " file `", path);
    msg.append("`: ");
    msg.append(e);
    fail(p, code, msg.as_str(), Some(hint))
}

/// An error of the system at a path.
pub open spec fn path_fault(p: PlaceV, act: Seq<char>, path: Seq<char>, e: Seq<char>) -> OutV {
    failed(p, codes::SYSCALL@, "cannot "@ + act + " `"@ + path + "`: "@ + e, None)
}

fn path_err(p: &Place, act: &str, path: &str, e: &str) -> (r: Out)
    ensures
        r@ == path_fault(p@, act@, path@, e@),
{
    let mut msg = cat4("cannot ", act, " `", path);
    msg.append("`: ");
    msg.append(e);
    fail(p, codes::SYSCALL, msg.as_str(), None)
}

/// Finishing a call of a file, the clock, the network or the system.
pub open spec fn finished_system(p: PlaceV, pending: PendingV, reply: ReplyV) -> OutV {
    match (pending, reply) {
        (PendingV::ReadFile(_), ReplyV::Text(t)) => OutV::Value(ValueV::Str(t)),
        (PendingV::ReadFile(path), ReplyV::Trouble(k, e)) => file_fault(p, "read"@, path, k, e),
        (PendingV::WriteFile(path), ReplyV::Trouble(k, e)) => file_fault(p, "write"@, path, k, e),
        (PendingV::ToFloat(s), ReplyV::MaybeFloat(o)) => match o {
            Some(b) => OutV::Value(ValueV::Float(b)),
            None => failed(
                p,
                codes::STR_TO_FLOAT@,
                "cannot convert `"@ + s + "` to `float`: invalid format"@,
                Some("`to_float` on a string requires a number format like `2.718`"@),
            ),
        },
        (PendingV::ArgFloat(k, v), ReplyV::MaybeFloat(o)) => match o {
            Some(b) => OutV::Value(ValueV::Float(b)),
            None => failed(
                p,
                codes::STR_TO_FLOAT@,
                "`args.get(\""@ + k + "\", float)` cannot parse `"@ + v + "` as a float"@,
                Some("pass a valid number on the command line"@),
            ),
        },
        (PendingV::Sleep, ReplyV::Trouble(..)) => failed(
            p,
            codes::TYPE_MISMATCH@,
            "`time.sleep` duration must be a non-negative number"@,
            None,
        ),
        (PendingV::Http(url), ReplyV::Bytes(b)) => match response_text(p, url, b) {
            Ok(t) => OutV::Value(ValueV::Str(t)),
            Err(e) => OutV::Error(e),
        },
        (PendingV::Http(url), ReplyV::NetTrouble(step, k, e)) => OutV::Error(
            net_fault(p, url, host_of(url), step, k, e),
        ),
        (PendingV::Run(_), ReplyV::Output(a, b)) => OutV::Value(ValueV::Str(text_of(a) + text_of(b))),
        (PendingV::Run(cmd), ReplyV::Trouble(_, e)) => failed(
            p,
            codes::SYSCALL@,
            "cannot run command `"@ + cmd + "`: "@ + e,
            Some("check the command"@),
        ),
        (PendingV::EnvGet, ReplyV::MaybeText(o)) => OutV::Value(
            ValueV::Str(
                match o {
                    Some(t) => t,
                    None => Seq::empty(),
                },
            ),
        ),
        (PendingV::SaveState(path), ReplyV::Trouble(_, e)) => not_saved(p, path, e),
        (PendingV::Listen(_), ReplyV::Int(n)) => OutV::Value(ValueV::Int(n)),
        (PendingV::Listen(port), ReplyV::Trouble(_, e)) => failed(
            p,
            codes::SYSCALL@,
            "cannot bind 127.0.0.1:"@ + idec(port as int) + ": "@ + e,
            Some("check the port is not already in use"@),
        ),
        (PendingV::Listen(_), ReplyV::NetTrouble(_, _, e)) => failed(
            p,
            codes::SYSCALL@,
            "cannot resolve bound address: "@ + e,
            None,
        ),
        _ => OutV::Value(ValueV::Null),
    }
}

/// Finishing a call of an archive.
pub open spec fn finished_archive(p: PlaceV, pending: PendingV, reply: ReplyV) -> OutV {
    match (pending, reply) {
        (PendingV::ZipList(path), ReplyV::Bytes(b)) => zip_listed(p, path, zip_names_of(b)),
        (PendingV::ZipRead(path, e), ReplyV::Bytes(b)) => zip_text(p, path, e, zip_entry_of(b, e)),
        (PendingV::ZipExtract(path, d), ReplyV::Bytes(b)) => zip_unpacked(p, path, d, b),
        (PendingV::TgzList(path), ReplyV::Bytes(b)) => tgz_listed(p, path, b),
        (PendingV::TgzRead(path, e), ReplyV::Bytes(b)) => tgz_text(p, path, e, b),
        (PendingV::TgzExtract(path, d), ReplyV::Bytes(b)) => tgz_unpacked(p, path, d, b),
        (PendingV::ZipList(path), ReplyV::Trouble(_, e)) => not_opened(p, path, e),
        (PendingV::ZipRead(path, _), ReplyV::Trouble(_, e)) => not_opened(p, path, e),
        (PendingV::ZipExtract(path, _), ReplyV::Trouble(_, e)) => not_opened(p, path, e),
        (PendingV::TgzList(path), ReplyV::Trouble(_, e)) => not_opened(p, path, e),
        (PendingV::TgzRead(path, _), ReplyV::Trouble(_, e)) => not_opened(p, path, e),
        (PendingV::TgzExtract(path, _), ReplyV::Trouble(_, e)) => not_opened(p, path, e),
        (PendingV::ZipCreate(path, es), ReplyV::Done) => zip_from(p, path, es, 0, no_entries()),
        (PendingV::TgzCreate(path, es), ReplyV::Done) => OutV::Ask(RequestV::PackTgz(es), PendingV::TgzPacked(path)),
        (PendingV::TgzPacked(path), _) => after_packing(p, path, reply),
        (PendingV::ZipCreate(path, _), ReplyV::Trouble(_, e)) => path_fault(p, "create"@, path, e),
        (PendingV::TgzCreate(path, _), ReplyV::Trouble(_, e)) => path_fault(p, "create"@, path, e),
        (PendingV::Packed(_), ReplyV::Done) => OutV::Value(ValueV::Bool(true)),
        (PendingV::Packed(path), ReplyV::Trouble(_, e)) => path_fault(p, "write"@, path, e),
        (PendingV::Unpacked(n, fault), ReplyV::Done) => match fault {
            Some(e) => OutV::Error(e),
            None => OutV::Value(ValueV::Int(n)),
        },
        (PendingV::Unpacked(..), ReplyV::UnpackTrouble(dir, path, e)) => path_fault(
            p,
            if dir { "create dir"@ } else { "write"@ },
            path,
            e,
        ),
        _ => OutV::Value(ValueV::Null),
    }
}

/// Finishing a call: what is kept behind it, and what it comes to.
#[verifier::opaque]
pub open spec fn finished(w: WorldV, p: PlaceV, pending: PendingV, reply: ReplyV) -> (WorldV, OutV) {
    match (pending, reply) {
        (PendingV::Null, _) => (w, OutV::Value(ValueV::Null)),
        (PendingV::True, _) => (w, OutV::Value(ValueV::Bool(true))),
        (PendingV::Given, _) => (w, given(reply)),
        (PendingV::Show(ps, print), ReplyV::Texts(ts)) => (w, written(assembled(ps, ts, ps.len() as int), print)),
        (PendingV::Json(v), ReplyV::Texts(ts)) => (w, stringified(p, v, ts)),
        (PendingV::Alloc(size), ReplyV::Addr(a)) => (
            WorldV { blocks: noted(w.blocks, a, size), ..w },
            OutV::Value(ValueV::Ptr(a)),
        ),
        (PendingV::PeekInt, ReplyV::Bits(b)) => (w, OutV::Value(ValueV::Int(b as i64))),
        (PendingV::PeekFloat, ReplyV::Bits(b)) => (w, OutV::Value(ValueV::Float(b))),
        (PendingV::PeekByte, ReplyV::Bits(b)) => (w, OutV::Value(ValueV::Int((b % 256) as i64))),
        (PendingV::PokeFloat(a, o), ReplyV::Float(b)) => (
            w,
            OutV::Ask(RequestV::Poke(a, o, 8, b), PendingV::Null),
        ),
        (PendingV::LoadLib(path, alias), ReplyV::Done) => (
            WorldV { plugins: w.plugins.put(alias, path), ..w },
            OutV::Value(ValueV::Bool(true)),
        ),
        (PendingV::LoadLib(path, _), ReplyV::Trouble(_, e)) => (w, not_loaded(p, path, e)),
        _ => if is_archive(pending) {
            (w, finished_archive(p, pending, reply))
        } else {
            (w, finished_system(p, pending, reply))
        },
    }
}

/// Whether a call is one of an archive.
pub open spec fn is_archive(pending: PendingV) -> bool {
    pending is ZipList || pending is ZipRead || pending is ZipExtract || pending is ZipCreate || pending is TgzList
        || pending is TgzRead || pending is TgzExtract || pending is TgzCreate || pending is TgzPacked
        || pending is Packed
        || pending is Unpacked
}

fn finish_system(p: &Place, pending: &Pending, reply: Reply) -> (r: Out)
    ensures
        r@ == finished_system(p@, pending@, reply@),
{
    match (pending, reply) {
        (Pending::ReadFile(_), Reply::Text(t)) => Out::Value(Value::Str(t)),
        (Pending::ReadFile(path), Reply::Trouble(k, e)) => file_err(p, "read", path.as_str(), k, e.as_str()),
        (Pending::WriteFile(path), Reply::Trouble(k, e)) => file_err(p, "write", path.as_str(), k, e.as_str()),
        (Pending::ToFloat(s), Reply::MaybeFloat(o)) => match o {
            Some(b) => Out::Value(Value::Float(b)),
            None => {
                let msg = cat3("cannot convert `", s.as_str(), "` to `float`: invalid format");
                fail(
                    p,
                    codes::STR_TO_FLOAT,
                    msg.as_str(),
                    Some("`to_float` on a string requires a number format like `2.718`"),
                )
            },
        },
        (Pending::ArgFloat(k, v), Reply::MaybeFloat(o)) => match o {
            Some(b) => Out::Value(Value::Float(b)),
            None => {
                let msg = cat5(
                    "`args.get(\"",
                    k.as_str(),
                    "\", float)` cannot parse `",
                    v.as_str(),
                    "` as a float",
                );
                fail(
                    p,
                    codes::STR_TO_FLOAT,
                    msg.as_str(),
                    Some("pass a valid number on the command line"),
                )
            },
        },
        (Pending::Sleep, Reply::Trouble(_, _)) => fail(
            p,
            codes::TYPE_MISMATCH,
            "`time.sleep` duration must be a non-negative number",
            None,
        ),
        (Pending::Http(url), Reply::Bytes(b)) => match http_request(p, url.as_str(), b.as_slice()) {
            Ok(t) => Out::Value(Value::Str(t)),
            Err(e) => Out::Error(e),
        },
        (Pending::Http(url), Reply::NetTrouble(step, k, e)) => Out::Error(
            net_err(p, url.as_str(), step, k, e.as_str()),
        ),
        (Pending::Run(_), Reply::Output(a, b)) => {
            let mut t = read_text(a.as_slice());
            t.append(read_text(b.as_slice()).as_str());
            Out::Value(Value::Str(t))
        },
        (Pending::Run(cmd), Reply::Trouble(_, e)) => {
            let msg = cat4("cannot run command `", cmd.as_str(), "`: ", e.as_str());
            fail(p, codes::SYSCALL, msg.as_str(), Some("check the command"))
        },
        (Pending::EnvGet, Reply::MaybeText(o)) => match o {
            Some(t) => Out::Value(Value::Str(t)),
            None => {
                let t = String::new();
                assert(t@ =~= Seq::empty());
                Out::Value(Value::Str(t))
            },
        },
        (Pending::SaveState(path), Reply::Trouble(_, e)) => save_err(p, path.as_str(), e.as_str()),
        (Pending::Listen(_), Reply::Int(n)) => Out::Value(Value::Int(n)),
        (Pending::Listen(port), Reply::Trouble(_, e)) => {
            let msg = cat4("cannot bind 127.0.0.1:", dec_i64(*port).as_str(), ": ", e.as_str());
            fail(p, codes::SYSCALL, msg.as_str(), Some("check the port is not already in use"))
        },
        (Pending::Listen(_), Reply::NetTrouble(_, _, e)) => {
            let msg = crate::text::cat2("cannot resolve bound address: ", e.as_str());
            fail(p, codes::SYSCALL, msg.as_str(), None)
        },
        _ => Out::Value(Value::Null),
    }
}

fn finish_archive(p: &Place, pending: Pending, reply: Reply) -> (r: Out)
    ensures
        r@ == finished_archive(p@, pending@, reply@),
{
    match (pending, reply) {
        (Pending::ZipList(path), Reply::Bytes(b)) => archmod::zip_list(p, path.as_str(), b.as_slice()),
        (Pending::ZipRead(path, e), Reply::Bytes(b)) => archmod::zip_read(
            p,
            path.as_str(),
            e.as_str(),
            b.as_slice(),
        ),
        (Pending::ZipExtract(path, d), Reply::Bytes(b)) => archmod::zip_extract(
            p,
            path.as_str(),
            d.as_str(),
            b.as_slice(),
        ),
        (Pending::TgzList(path), Reply::Bytes(b)) => archmod::tgz_list(p, path.as_str(), b.as_slice()),
        (Pending::TgzRead(path, e), Reply::Bytes(b)) => archmod::tgz_read(
            p,
            path.as_str(),
            e.as_str(),
            b.as_slice(),
        ),
        (Pending::TgzExtract(path, d), Reply::Bytes(b)) => archmod::tgz_extract(
            p,
            path.as_str(),
            d.as_str(),
            b.as_slice(),
        ),
        (Pending::ZipList(path), Reply::Trouble(_, e)) => open_err(p, path.as_str(), e.as_str()),
        (Pending::ZipRead(path, _), Reply::Trouble(_, e)) => open_err(p, path.as_str(), e.as_str()),
        (Pending::ZipExtract(path, _), Reply::Trouble(_, e)) => open_err(p, path.as_str(), e.as_str()),
        (Pending::TgzList(path), Reply::Trouble(_, e)) => open_err(p, path.as_str(), e.as_str()),
        (Pending::TgzRead(path, _), Reply::Trouble(_, e)) => open_err(p, path.as_str(), e.as_str()),
        (Pending::TgzExtract(path, _), Reply::Trouble(_, e)) => open_err(p, path.as_str(), e.as_str()),
        (Pending::ZipCreate(path, es), Reply::Done) => archmod::zip_create(p, path.as_str(), &es),
        (Pending::TgzCreate(path, es), Reply::Done) => Out::Ask(Request::PackTgz(es), Pending::TgzPacked(path)),
        (Pending::TgzPacked(path), reply) => archmod::tgz_create(p, path.as_str(), reply),
        (Pending::ZipCreate(path, _), Reply::Trouble(_, e)) => path_err(p, "create", path.as_str(), e.as_str()),
        (Pending::TgzCreate(path, _), Reply::Trouble(_, e)) => path_err(p, "create", path.as_str(), e.as_str()),
        (Pending::Packed(_), Reply::Done) => Out::Value(Value::Bool(true)),
        (Pending::Packed(path), Reply::Trouble(_, e)) => path_err(p, "write", path.as_str(), e.as_str()),
        (Pending::Unpacked(n, fault), Reply::Done) => match fault {
            Some(e) => Out::Error(e),
            None => Out::Value(Value::Int(n)),
        },
        (Pending::Unpacked(_, _), Reply::UnpackTrouble(dir, path, e)) => path_err(
            p,
            if dir { "create dir" } else { "write" },
            path.as_str(),
            e.as_str(),
        ),
        _ => Out::Value(Value::Null),
    }
}

fn archive_pending(pending: &Pending) -> (r: bool)
    ensures
        r == is_archive(pending@),
{
    match pending {
        Pending::ZipList(_) | Pending::ZipRead(_, _) | Pending::ZipExtract(_, _) | Pending::ZipCreate(_, _) => true,
        Pending::TgzList(_) | Pending::TgzRead(_, _) | Pending::TgzExtract(_, _) | Pending::TgzCreate(_, _) => true,
        Pending::TgzPacked(_) | Pending::Packed(_) | Pending::Unpacked(_, _) => true,
        _ => false,
    }
}

fn give(reply: Reply) -> (r: Out)
    ensures
        r@ == given(reply@),
{
    match reply {
        Reply::Float(b) => Out::Value(Value::Float(b)),
        Reply::Int(n) => Out::Value(Value::Int(n)),
        Reply::Flag(b) => Out::Value(Value::Bool(b)),
        Reply::Value(v) => Out::Value(v),
        Reply::Error(e) => Out::Error(e),
        _ => Out::Value(Value::Null),
    }
}

/// Finishes a call with the answer that it asked for.
pub fn finish(w: &mut World, p: &Place, pending: Pending, reply: Reply) -> (r: Out)
    requires
        old(w).wf(),
        fits(pending@, reply@),
    ensures
        final(w).wf(),
        (final(w)@, r@) == finished(old(w)@, p@, pending@, reply@),
{
    proof {
        reveal(finished);
    }
    match (pending, reply) {
        (Pending::Null, _) => Out::Value(Value::Null),
        (Pending::True, _) => Out::Value(Value::Bool(true)),
        (Pending::Given, reply) => give(reply),
        (Pending::Show(ps, print), Reply::Texts(ts)) => write_out(assemble(&ps, &ts), print),
        (Pending::Json(v), Reply::Texts(ts)) => stringify(p, &v, &ts),
        (Pending::Alloc(size), Reply::Addr(a)) => {
            note(&mut w.blocks, a, size);
            Out::Value(Value::Ptr(a))
        },
        (Pending::PeekInt, Reply::Bits(b)) => Out::Value(Value::Int(b as i64)),
        (Pending::PeekFloat, Reply::Bits(b)) => Out::Value(Value::Float(b)),
        (Pending::PeekByte, Reply::Bits(b)) => Out::Value(Value::Int((b % 256) as i64)),
        (Pending::PokeFloat(a, o), Reply::Float(b)) => Out::Ask(Request::Poke(a, o, 8, b), Pending::Null),
        (Pending::LoadLib(path, alias), Reply::Done) => {
            pluginmod::register(&mut w.plugins, alias.as_str(), path.as_str());
            Out::Value(Value::Bool(true))
        },
        (Pending::LoadLib(path, _), Reply::Trouble(_, e)) => load_err(p, path.as_str(), e.as_str()),
        (pending, reply) => {
            if archive_pending(&pending) {
                finish_archive(p, pending, reply)
            } else {
                finish_system(p, &pending, reply)
            }
        },
    }
}

/// A name is one of a built-in function exactly where a call of it is one: what has a
/// signature can be called, and nothing else can.
#[verifier::rlimit(60)]
pub proof fn law_every_builtin_can_be_called(w: WorldV, p: PlaceV, name: Seq<char>, a: Seq<ValueV>)
    ensures
        self::names::names().contains(name) <==> (value_fn(p, name, a) is Some || system_fn(p, name, a) is Some || kept_fn(
            w,
            p,
            name,
            a,
        ) is Some),
{
    crate::checker::sigs::law_every_builtin_has_a_signature(name);
}

/// Finishing a read of memory.
pub proof fn lemma_peeked(w: WorldV, p: PlaceV, bits: u64)
    ensures
        finished(w, p, PendingV::PeekInt, ReplyV::Bits(bits)) == (w, OutV::Value(ValueV::Int(bits as i64))),
        finished(w, p, PendingV::PeekFloat, ReplyV::Bits(bits)) == (w, OutV::Value(ValueV::Float(bits))),
        finished(w, p, PendingV::PeekByte, ReplyV::Bits(bits)) == (w, OutV::Value(ValueV::Int((bits % 256) as i64))),
{
    reveal(finished);
}

/// What was put into the store under a key is what is read of it, until another value is
/// put there; no other key is touched.
pub proof fn law_store_reads_back(
    w: WorldV,
    p: PlaceV,
    q: PlaceV,
    key: Seq<char>,
    val: Seq<char>,
    other: Seq<char>,
)
    requires
        other != key,
    ensures
        ({
            let w2 = called(w, p, "db.set"@, seq![ValueV::Str(key), ValueV::Str(val)]).0;
            &&& called(w2, q, "db.get"@, seq![ValueV::Str(key)]) == (w2, OutV::Value(ValueV::Str(val)))
            &&& called(w2, q, "db.get"@, seq![ValueV::Str(other)]).1 == called(
                w,
                q,
                "db.get"@,
                seq![ValueV::Str(other)],
            ).1
        }),
{
    let kv = seq![ValueV::Str(key), ValueV::Str(val)];
    let k = seq![ValueV::Str(key)];
    let o = seq![ValueV::Str(other)];
    let w2 = called(w, p, "db.set"@, kv).0;
    lemma_db_called(w, p, "db.set"@, kv);
    lemma_db_called(w2, q, "db.get"@, k);
    lemma_db_called(w2, q, "db.get"@, o);
    lemma_db_called(w, q, "db.get"@, o);
    lemma_db_set(w.kv, w.persist, p, key, val);
    lemma_db_get(w2.kv, w2.persist, q, key);
    lemma_db_get(w2.kv, w2.persist, q, other);
    lemma_db_get(w.kv, w.persist, q, other);
    crate::texts::law_put_get(w.kv, key, val, other);
}

/// A call of the store.
proof fn lemma_db_called(w: WorldV, p: PlaceV, name: Seq<char>, a: Seq<ValueV>)
    requires
        name == "db.set"@ || name == "db.get"@,
        a.len() >= 2 || (a.len() == 1 && name == "db.get"@),
    ensures
        called(w, p, name, a) == (
            WorldV { kv: db_fn(w.kv, w.persist, p, name, a).0, ..w },
            db_fn(w.kv, w.persist, p, name, a).1,
        ),
{
    reveal(called);
    lemma_db_names(w, p, name, a);
}

proof fn lemma_db_set(kv: TextsV, persist: Option<(Seq<char>, Seq<char>)>, p: PlaceV, key: Seq<char>, val: Seq<char>)
    ensures
        db_fn(kv, persist, p, "db.set"@, seq![ValueV::Str(key), ValueV::Str(val)]).0 == kv.put(key, val),
{
    reveal_strlit("db.set");
    reveal_strlit("db.get");
    assert("db.set"@[3] != "db.get"@[3]);
}

proof fn lemma_db_get(kv: TextsV, persist: Option<(Seq<char>, Seq<char>)>, p: PlaceV, key: Seq<char>)
    ensures
        db_fn(kv, persist, p, "db.get"@, seq![ValueV::Str(key)]) == (
            kv,
            OutV::Value(
                match kv.get(key) {
                    Some(v) => ValueV::Str(v),
                    None => ValueV::Null,
                },
            ),
        ),
{
}

/// The two functions of the store are no others.
proof fn lemma_db_names(w: WorldV, p: PlaceV, name: Seq<char>, a: Seq<ValueV>)
    requires
        name == "db.set"@ || name == "db.get"@,
    ensures
        value_fn(p, name, a) is None,
        system_fn(p, name, a) is None,
        a.len() >= 2 || (a.len() == 1 && name == "db.get"@) ==> kept_fn(w, p, name, a) == Some(
            {
                let (t, o) = db_fn(w.kv, w.persist, p, name, a);
                (WorldV { kv: t, ..w }, o)
            },
        ),
        "db.set"@ != "db.get"@,
{
    reveal_strlit("print");
    reveal_strlit("len");
    reveal_strlit("append");
    reveal_strlit("clone");
    reveal_strlit("copy");
    reveal_strlit("contains");
    reveal_strlit("index_of");
    reveal_strlit("keys");
    reveal_strlit("values");
    reveal_strlit("has_key");
    reveal_strlit("type_of");
    reveal_strlit("assert");
    reveal_strlit("is_int");
    reveal_strlit("is_float");
    reveal_strlit("is_str");
    reveal_strlit("is_bool");
    reveal_strlit("is_list");
    reveal_strlit("is_dict");
    reveal_strlit("is_null");
    reveal_strlit("to_str");
    reveal_strlit("to_int");
    reveal_strlit("to_float");
    reveal_strlit("abs");
    reveal_strlit("max");
    reveal_strlit("min");
    reveal_strlit("json_parse");
    reveal_strlit("json_stringify");
    reveal_strlit("read_file");
    reveal_strlit("file_exists");
    reveal_strlit("write_file");
    reveal_strlit("str_trim");
    reveal_strlit("str_contains");
    reveal_strlit("str_replace");
    reveal_strlit("time.now");
    reveal_strlit("time.format");
    reveal_strlit("time.sleep");
    reveal_strlit("time.parse");
    reveal_strlit("http_get");
    reveal_strlit("http_post");
    reveal_strlit("env.set");
    reveal_strlit("sys.run");
    reveal_strlit("sys.get_env");
    reveal_strlit("env.get");
    reveal_strlit("sys.msgbox");
    reveal_strlit("sys.beep");
    reveal_strlit("sys.clipboard_set");
    reveal_strlit("sys.get_screen_size");
    reveal_strlit("sys.reg_read");
    reveal_strlit("sys.reg_write");
    reveal_strlit("log.info");
    reveal_strlit("log.warn");
    reveal_strlit("log.error");
    reveal_strlit("log.debug");
    reveal_strlit("path.join");
    reveal_strlit("path.dirname");
    reveal_strlit("path.basename");
    reveal_strlit("regex.match");
    reveal_strlit("regex.replace");
    reveal_strlit("crypto.md5");
    reveal_strlit("crypto.sha1");
    reveal_strlit("crypto.sha256");
    reveal_strlit("crypto.hmac_sha256");
    reveal_strlit("crypto.base64_encode");
    reveal_strlit("crypto.base64_decode");
    reveal_strlit("archive.zip_list");
    reveal_strlit("archive.tgz_list");
    reveal_strlit("archive.zip_read");
    reveal_strlit("archive.zip_extract");
    reveal_strlit("archive.zip_create");
    reveal_strlit("archive.tgz_read");
    reveal_strlit("archive.tgz_extract");
    reveal_strlit("archive.tgz_create");
    reveal_strlit("random.int");
    reveal_strlit("random.float");
    reveal_strlit("uuid.new");
    reveal_strlit("server.listen");
    reveal_strlit("server.poll");
    reveal_strlit("server.respond");
    reveal_strlit("plugin.load");
    reveal_strlit("plugin.has");
    reveal_strlit("plugin.list");
    reveal_strlit("plugin.unload");
    reveal_strlit("args.get");
    reveal_strlit("args.has");
    reveal_strlit("db.get");
    reveal_strlit("db.set");
    reveal_strlit("ptr.alloc");
    reveal_strlit("ptr.free");
    reveal_strlit("ptr.is_null");
    reveal_strlit("ptr.is_valid");
    reveal_strlit("ptr.size");
    reveal_strlit("ptr.read_int");
    reveal_strlit("ptr.read_float");
    reveal_strlit("ptr.read_byte");
    reveal_strlit("ptr.write_int");
    reveal_strlit("ptr.write_float");
    reveal_strlit("ptr.write_byte");
    assert(name.len() == 6 && name[0] == 'd' && name[1] == 'b');
    assert("db.set"@[3] != "db.get"@[3]);
}

/// A call of a function of memory is no other, and keeps all but the noted blocks.
#[verifier::rlimit(60)]
pub proof fn lemma_ptr_called(w: WorldV, p: PlaceV, name: Seq<char>, a: Seq<ValueV>)
    requires
        0 < ptr_least(name) <= a.len(),
    ensures
        called(w, p, name, a) == (
            WorldV { blocks: ptr_fn(w.blocks, p, name, a).0, ..w },
            ptr_fn(w.blocks, p, name, a).1,
        ),
{
    reveal(called);
    reveal_strlit("print");
    reveal_strlit("len");
    reveal_strlit("append");
    reveal_strlit("clone");
    reveal_strlit("copy");
    reveal_strlit("contains");
    reveal_strlit("index_of");
    reveal_strlit("keys");
    reveal_strlit("values");
    reveal_strlit("has_key");
    reveal_strlit("type_of");
    reveal_strlit("assert");
    reveal_strlit("is_int");
    reveal_strlit("is_float");
    reveal_strlit("is_str");
    reveal_strlit("is_bool");
    reveal_strlit("is_list");
    reveal_strlit("is_dict");
    reveal_strlit("is_null");
    reveal_strlit("to_str");
    reveal_strlit("to_int");
    reveal_strlit("to_float");
    reveal_strlit("abs");
    reveal_strlit("max");
    reveal_strlit("min");
    reveal_strlit("json_parse");
    reveal_strlit("json_stringify");
    reveal_strlit("read_file");
    reveal_strlit("file_exists");
    reveal_strlit("write_file");
    reveal_strlit("str_trim");
    reveal_strlit("str_contains");
    reveal_strlit("str_replace");
    reveal_strlit("time.now");
    reveal_strlit("time.format");
    reveal_strlit("time.sleep");
    reveal_strlit("time.parse");
    reveal_strlit("http_get");
    reveal_strlit("http_post");
    reveal_strlit("env.set");
    reveal_strlit("sys.run");
    reveal_strlit("sys.get_env");
    reveal_strlit("env.get");
    reveal_strlit("sys.msgbox");
    reveal_strlit("sys.beep");
    reveal_strlit("sys.clipboard_set");
    reveal_strlit("sys.get_screen_size");
    reveal_strlit("sys.reg_read");
    reveal_strlit("sys.reg_write");
    reveal_strlit("log.info");
    reveal_strlit("log.warn");
    reveal_strlit("log.error");
    reveal_strlit("log.debug");
    reveal_strlit("path.join");
    reveal_strlit("path.dirname");
    reveal_strlit("path.basename");
    reveal_strlit("regex.match");
    reveal_strlit("regex.replace");
    reveal_strlit("crypto.md5");
    reveal_strlit("crypto.sha1");
    reveal_strlit("crypto.sha256");
    reveal_strlit("crypto.hmac_sha256");
    reveal_strlit("crypto.base64_encode");
    reveal_strlit("crypto.base64_decode");
    reveal_strlit("archive.zip_list");
    reveal_strlit("archive.tgz_list");
    reveal_strlit("archive.zip_read");
    reveal_strlit("archive.zip_extract");
    reveal_strlit("archive.zip_create");
    reveal_strlit("archive.tgz_read");
    reveal_strlit("archive.tgz_extract");
    reveal_strlit("archive.tgz_create");
    reveal_strlit("random.int");
    reveal_strlit("random.float");
    reveal_strlit("uuid.new");
    reveal_strlit("server.listen");
    reveal_strlit("server.poll");
    reveal_strlit("server.respond");
    reveal_strlit("plugin.load");
    reveal_strlit("plugin.has");
    reveal_strlit("plugin.list");
    reveal_strlit("plugin.unload");
    reveal_strlit("args.get");
    reveal_strlit("args.has");
    reveal_strlit("db.get");
    reveal_strlit("db.set");
    reveal_strlit("ptr.alloc");
    reveal_strlit("ptr.free");
    reveal_strlit("ptr.is_null");
    reveal_strlit("ptr.is_valid");
    reveal_strlit("ptr.size");
    reveal_strlit("ptr.read_int");
    reveal_strlit("ptr.read_float");
    reveal_strlit("ptr.read_byte");
    reveal_strlit("ptr.write_int");
    reveal_strlit("ptr.write_float");
    reveal_strlit("ptr.write_byte");
    assert(name.len() >= 8 && name[0] == 'p' && name[1] == 't');
    assert(value_fn(p, name, a) is None);
    assert(system_fn(p, name, a) is None);
}

/// A call of `server.respond` is no other, and keeps all but the server.
#[verifier::rlimit(60)]
proof fn lemma_respond_called(w: WorldV, p: PlaceV, a: Seq<ValueV>)
    ensures
        called(w, p, "server.respond"@, a) == (
            WorldV { server: respond_fn(w.server, p, a).0, ..w },
            respond_fn(w.server, p, a).1,
        ),
{
    reveal(called);
    let name = "server.respond"@;
    reveal_strlit("print");
    reveal_strlit("len");
    reveal_strlit("append");
    reveal_strlit("clone");
    reveal_strlit("copy");
    reveal_strlit("contains");
    reveal_strlit("index_of");
    reveal_strlit("keys");
    reveal_strlit("values");
    reveal_strlit("has_key");
    reveal_strlit("type_of");
    reveal_strlit("assert");
    reveal_strlit("is_int");
    reveal_strlit("is_float");
    reveal_strlit("is_str");
    reveal_strlit("is_bool");
    reveal_strlit("is_list");
    reveal_strlit("is_dict");
    reveal_strlit("is_null");
    reveal_strlit("to_str");
    reveal_strlit("to_int");
    reveal_strlit("to_float");
    reveal_strlit("abs");
    reveal_strlit("max");
    reveal_strlit("min");
    reveal_strlit("json_parse");
    reveal_strlit("json_stringify");
    reveal_strlit("read_file");
    reveal_strlit("file_exists");
    reveal_strlit("write_file");
    reveal_strlit("str_trim");
    reveal_strlit("str_contains");
    reveal_strlit("str_replace");
    reveal_strlit("time.now");
    reveal_strlit("time.format");
    reveal_strlit("time.sleep");
    reveal_strlit("time.parse");
    reveal_strlit("http_get");
    reveal_strlit("http_post");
    reveal_strlit("env.set");
    reveal_strlit("sys.run");
    reveal_strlit("sys.get_env");
    reveal_strlit("env.get");
    reveal_strlit("sys.msgbox");
    reveal_strlit("sys.beep");
    reveal_strlit("sys.clipboard_set");
    reveal_strlit("sys.get_screen_size");
    reveal_strlit("sys.reg_read");
    reveal_strlit("sys.reg_write");
    reveal_strlit("log.info");
    reveal_strlit("log.warn");
    reveal_strlit("log.error");
    reveal_strlit("log.debug");
    reveal_strlit("path.join");
    reveal_strlit("path.dirname");
    reveal_strlit("path.basename");
    reveal_strlit("regex.match");
    reveal_strlit("regex.replace");
    reveal_strlit("crypto.md5");
    reveal_strlit("crypto.sha1");
    reveal_strlit("crypto.sha256");
    reveal_strlit("crypto.hmac_sha256");
    reveal_strlit("crypto.base64_encode");
    reveal_strlit("crypto.base64_decode");
    reveal_strlit("archive.zip_list");
    reveal_strlit("archive.tgz_list");
    reveal_strlit("archive.zip_read");
    reveal_strlit("archive.zip_extract");
    reveal_strlit("archive.zip_create");
    reveal_strlit("archive.tgz_read");
    reveal_strlit("archive.tgz_extract");
    reveal_strlit("archive.tgz_create");
    reveal_strlit("random.int");
    reveal_strlit("random.float");
    reveal_strlit("uuid.new");
    reveal_strlit("server.listen");
    reveal_strlit("server.poll");
    reveal_strlit("server.respond");
    reveal_strlit("plugin.load");
    reveal_strlit("plugin.has");
    reveal_strlit("plugin.list");
    reveal_strlit("plugin.unload");
    reveal_strlit("args.get");
    reveal_strlit("args.has");
    reveal_strlit("db.get");
    reveal_strlit("db.set");
    reveal_strlit("ptr.alloc");
    reveal_strlit("ptr.free");
    reveal_strlit("ptr.is_null");
    reveal_strlit("ptr.is_valid");
    reveal_strlit("ptr.size");
    reveal_strlit("ptr.read_int");
    reveal_strlit("ptr.read_float");
    reveal_strlit("ptr.read_byte");
    reveal_strlit("ptr.write_int");
    reveal_strlit("ptr.write_float");
    reveal_strlit("ptr.write_byte");
    assert(name.len() == 14 && name[0] == 's' && name[1] == 'e');
    assert("server.listen"@.len() == 13 && "server.poll"@.len() == 11);
    assert(value_fn(p, name, a) is None);
    assert(system_fn(p, name, a) is None);
}

/// `server.respond` sends exactly the status and the body to a request that is without an
/// answer and then says `true`; to any other it sends nothing, says `false` and changes nothing.
/// A second answer to the same request says `false`. All other requests stay as they were.
pub proof fn law_respond(
    w: WorldV,
    p: PlaceV,
    q: PlaceV,
    id: i64,
    status: i64,
    body: Seq<char>,
    status2: i64,
    body2: Seq<char>,
    other: u64,
)
    requires
        100 <= status <= 599,
        100 <= status2 <= 599,
        other != id as u64,
    ensures
        ({
            let k = id as u64;
            let (w2, o) = called(
                w,
                p,
                "server.respond"@,
                seq![ValueV::Int(id), ValueV::Str(body), ValueV::Int(status)],
            );
            &&& if w.server.open.contains(k) {
                &&& o == OutV::Ask(RequestV::Deliver(k, status as u16, body), PendingV::True)
                &&& finished(w2, p, PendingV::True, ReplyV::Done) == (w2, OutV::Value(ValueV::Bool(true)))
            } else {
                o == OutV::Value(ValueV::Bool(false)) && w2 == w
            }
            &&& !w2.server.open.contains(k)
            &&& called(
                w2,
                q,
                "server.respond"@,
                seq![ValueV::Int(id), ValueV::Str(body2), ValueV::Int(status2)],
            ) == (w2, OutV::Value(ValueV::Bool(false)))
            &&& w2.server.open.contains(other) == w.server.open.contains(other)
            &&& w2.server.queue == w.server.queue
            &&& w2.server.next == w.server.next
            &&& w2 == WorldV { server: w2.server, ..w }
        }),
{
    reveal(finished);
    let a = seq![ValueV::Int(id), ValueV::Str(body), ValueV::Int(status)];
    let b = seq![ValueV::Int(id), ValueV::Str(body2), ValueV::Int(status2)];
    lemma_respond_called(w, p, a);
    let w2 = called(w, p, "server.respond"@, a).0;
    lemma_respond_called(w2, q, b);
    crate::srvmod::law_answered_once(w.server, id, status as u16, body, status2 as u16, body2);
    crate::srvmod::law_answer_leaves_others(w.server, id, status as u16, body, other);
}

} // verus!
