//! Built-in functions on texts, files, paths, the clock, chance, the log and the
//! environment.

use vstd::prelude::*;

use super::basics::{get_int, get_text, int_at, text_at, wrong, wrong_arg};
use super::path::{basename, dirname, last_part, parent_path, push_part};
use super::rng::{in_range, stepped, Rng};
use super::time::{format_timestamp, parse_timestamp, time_of, time_text};
use super::world::{fail, failed, IoKind, Num, Out, OutV, Pending, PendingV, Place, PlaceV, Request, RequestV};
use crate::error::codes;
use crate::text::{cat2, cat3, cat5, dec_i64, eq, idec, replace, replaced};
use crate::value::{values_v, Value, ValueV};
use crate::words::{contains, has_sub, trim, trimmed};

verus! {

/// Functions of texts: `str_contains`, `str_replace` and `str_trim`.
pub open spec fn text_fn(p: PlaceV, name: Seq<char>, a: Seq<ValueV>) -> OutV {
    match text_at(p, name, a, 0) {
        Err(o) => o,
        Ok(s) => if name == "str_trim"@ {
            OutV::Value(ValueV::Str(trimmed(s)))
        } else {
            match text_at(p, name, a, 1) {
                Err(o) => o,
                Ok(t) => if name == "str_contains"@ {
                    OutV::Value(ValueV::Bool(has_sub(s, t)))
                } else {
                    match text_at(p, name, a, 2) {
                        Err(o) => o,
                        Ok(u) => OutV::Value(ValueV::Str(replaced(s, t, u))),
                    }
                },
            }
        },
    }
}

/// Calls a function of texts.
pub fn do_text(p: &Place, name: &str, a: &Vec<Value>) -> (r: Out)
    requires
        a.len() >= 1,
        name@ != "str_trim"@ ==> a.len() >= 2,
        name@ != "str_trim"@ && name@ != "str_contains"@ ==> a.len() >= 3,
    ensures
        r@ == text_fn(p@, name@, values_v(a@)),
{
    let s = match get_text(p, name, a, 0) {
        Err(o) => return o,
        Ok(s) => s,
    };
    if eq(name, "str_trim") {
        return Out::Value(Value::Str(trim(s)));
    }
    let t = match get_text(p, name, a, 1) {
        Err(o) => return o,
        Ok(t) => t,
    };
    if eq(name, "str_contains") {
        return Out::Value(Value::Bool(contains(s, t)));
    }
    let u = match get_text(p, name, a, 2) {
        Err(o) => return o,
        Ok(u) => u,
    };
    Out::Value(Value::Str(replace(s, t, u)))
}

/// The code and the advice for a file that cannot be read or written.
pub open spec fn file_trouble(k: IoKind) -> (Seq<char>, Seq<char>) {
    match k {
        IoKind::NotFound => (codes::FILE_NOT_FOUND@, "the file does not exist"@),
        IoKind::PermissionDenied => (codes::FILE_PERMISSION@, "check file permissions"@),
        IoKind::WouldBlock | IoKind::ResourceBusy | IoKind::Interrupted => (
            codes::FILE_LOCKED@,
            "the file is locked by another process"@,
        ),
        _ => (codes::NOT_FOUND@, "check the path and file permissions"@),
    }
}

/// The code and the advice for a file that cannot be read or written.
pub fn file_codes(k: IoKind) -> (r: (&'static str, &'static str))
    ensures
        (r.0@, r.1@) == file_trouble(k),
{
    match k {
        IoKind::NotFound => (codes::FILE_NOT_FOUND, "the file does not exist"),
        IoKind::PermissionDenied => (codes::FILE_PERMISSION, "check file permissions"),
        IoKind::WouldBlock | IoKind::ResourceBusy | IoKind::Interrupted => (
            codes::FILE_LOCKED,
            "the file is locked by another process",
        ),
        _ => (codes::NOT_FOUND, "check the path and file permissions"),
    }
}

/// Functions of files: `read_file`, `write_file` and `file_exists`.
pub open spec fn file_fn(p: PlaceV, name: Seq<char>, a: Seq<ValueV>) -> OutV {
    match text_at(p, name, a, 0) {
        Err(o) => o,
        Ok(f) => if name == "read_file"@ {
            OutV::Ask(RequestV::ReadFile(f), PendingV::ReadFile(f))
        } else if name == "file_exists"@ {
            OutV::Ask(RequestV::FileExists(f), PendingV::Given)
        } else {
            match text_at(p, name, a, 1) {
                Err(o) => o,
                Ok(c) => OutV::Ask(RequestV::WriteFile(f, c), PendingV::WriteFile(f)),
            }
        },
    }
}

/// Calls a function of files.
pub fn do_file(p: &Place, name: &str, a: &Vec<Value>) -> (r: Out)
    requires
        a.len() >= 1,
        name@ != "read_file"@ && name@ != "file_exists"@ ==> a.len() >= 2,
    ensures
        r@ == file_fn(p@, name@, values_v(a@)),
{
    let f = match get_text(p, name, a, 0) {
        Err(o) => return o,
        Ok(s) => s,
    };
    if eq(name, "read_file") {
        Out::Ask(Request::ReadFile(f.to_owned()), Pending::ReadFile(f.to_owned()))
    } else if eq(name, "file_exists") {
        Out::Ask(Request::FileExists(f.to_owned()), Pending::Given)
    } else {
        match get_text(p, name, a, 1) {
            Err(o) => o,
            Ok(c) => Out::Ask(Request::WriteFile(f.to_owned(), c.to_owned()), Pending::WriteFile(f.to_owned())),
        }
    }
}

/// The path made of the arguments from `i` on behind a path, or the error of the first
/// argument that is no text.
pub open spec fn path_join_from(p: PlaceV, a: Seq<ValueV>, i: int, path: Seq<char>) -> OutV
    decreases a.len() - i,
{
    if i < 0 || i >= a.len() {
        OutV::Value(ValueV::Str(path))
    } else {
        match text_at(p, "path.join"@, a, i) {
            Err(o) => o,
            Ok(s) => path_join_from(p, a, i + 1, super::path::with_part(p.windows, path, s)),
        }
    }
}

/// Calls `path.join`.
pub fn do_path_join(p: &Place, a: &Vec<Value>) -> (r: Out)
    ensures
        r@ == path_join_from(p@, values_v(a@), 0, Seq::empty()),
{
    let mut path = String::new();
    let mut i: usize = 0;
    assert(path@ =~= Seq::empty());
    while i < a.len()
        invariant
            i <= a.len(),
            path_join_from(p@, values_v(a@), 0, Seq::empty()) == path_join_from(p@, values_v(a@), i as int, path@),
        decreases a.len() - i,
    {
        match get_text(p, "path.join", a, i) {
            Err(o) => return o,
            Ok(s) => {
                path = push_part(p.windows, path, s);
            },
        }
        i = i + 1;
    }
    Out::Value(Value::Str(path))
}

/// Functions of one path: `path.dirname` and `path.basename`.
pub open spec fn path_fn(p: PlaceV, name: Seq<char>, a: Seq<ValueV>) -> OutV {
    match text_at(p, name, a, 0) {
        Err(o) => o,
        Ok(s) => OutV::Value(ValueV::Str(if name == "path.dirname"@ { parent_path(p.windows, s) } else { last_part(p.windows, s) })),
    }
}

/// Calls a function of paths.
pub fn do_path(p: &Place, name: &str, a: &Vec<Value>) -> (r: Out)
    requires
        a.len() >= 1,
    ensures
        r@ == path_fn(p@, name@, values_v(a@)),
{
    match get_text(p, name, a, 0) {
        Err(o) => o,
        Ok(s) => Out::Value(Value::Str(if eq(name, "path.dirname") { dirname(p.windows, s) } else { basename(p.windows, s) })),
    }
}

/// A number at the start of the arguments.
pub open spec fn number_at(p: PlaceV, name: Seq<char>, a: Seq<ValueV>) -> Result<Num, OutV> {
    match a[0] {
        ValueV::Int(n) => Ok(Num::Int(n)),
        ValueV::Float(b) => Ok(Num::Float(b)),
        v => Err(wrong_arg(p, name, "a number"@, 0, v, "pass an `int` or `float` value"@)),
    }
}

/// Functions of the clock: `time.sleep`, `time.format` and `time.parse`.
pub open spec fn time_fn(p: PlaceV, name: Seq<char>, a: Seq<ValueV>) -> OutV {
    if name == "time.sleep"@ {
        match number_at(p, name, a) {
            Err(o) => o,
            Ok(n) => OutV::Ask(RequestV::Sleep(n), PendingV::Sleep),
        }
    } else if name == "time.format"@ {
        match int_at(p, name, a, 0) {
            Err(o) => o,
            Ok(t) => match text_at(p, name, a, 1) {
                Err(o) => o,
                Ok(f) => OutV::Value(ValueV::Str(time_text(t as int, f))),
            },
        }
    } else {
        match text_at(p, name, a, 0) {
            Err(o) => o,
            Ok(s) => match time_of(s) {
                Some(t) => OutV::Value(ValueV::Int(t as i64)),
                None => failed(
                    p,
                    codes::TYPE_MISMATCH@,
                    "cannot parse `"@ + s + "` as a timestamp"@,
                    Some(
                        "supported formats: `YYYY-MM-DDTHH:MM:SSZ`, `YYYY-MM-DD HH:MM:SS`, optional `+08:00` offset"@,
                    ),
                ),
            },
        }
    }
}

/// Calls a function of the clock.
pub fn do_time(p: &Place, name: &str, a: &Vec<Value>) -> (r: Out)
    requires
        a.len() >= 1,
        name@ == "time.format"@ ==> a.len() >= 2,
    ensures
        r@ == time_fn(p@, name@, values_v(a@)),
{
    if eq(name, "time.sleep") {
        assert(values_v(a@)[0] == a@[0]@);
        match &a[0] {
            Value::Int(n) => Out::Ask(Request::Sleep(Num::Int(*n)), Pending::Sleep),
            Value::Float(b) => Out::Ask(Request::Sleep(Num::Float(*b)), Pending::Sleep),
            v => wrong(p, name, "a number", 0, v, "pass an `int` or `float` value"),
        }
    } else if eq(name, "time.format") {
        let t: i64 = match get_int(p, name, a, 0) {
            Err(o) => return o,
            Ok(t) => t,
        };
        match get_text(p, name, a, 1) {
            Err(o) => o,
            Ok(f) => Out::Value(Value::Str(format_timestamp(t, f))),
        }
    } else {
        match get_text(p, name, a, 0) {
            Err(o) => o,
            Ok(s) => match parse_timestamp(s) {
                Some(t) => Out::Value(Value::Int(t)),
                None => {
                    let msg = cat3("cannot parse `", s, "` as a timestamp");
                    fail(
                        p,
                        codes::TYPE_MISMATCH,
                        msg.as_str(),
                        Some(
                            "supported formats: `YYYY-MM-DDTHH:MM:SSZ`, `YYYY-MM-DD HH:MM:SS`, optional `+08:00` offset",
                        ),
                    )
                },
            },
        }
    }
}

/// A random integer between two integers: the state behind the draw, and the outcome.
pub open spec fn random_of(state: u64, p: PlaceV, a: Seq<ValueV>) -> (u64, OutV) {
    match int_at(p, "random.int"@, a, 0) {
        Err(o) => (state, o),
        Ok(min) => match int_at(p, "random.int"@, a, 1) {
            Err(o) => (state, o),
            Ok(max) => if min > max {
                (
                    state,
                    failed(
                        p,
                        codes::TYPE_MISMATCH@,
                        "`random.int` range is invalid: min ("@ + idec(min as int) + ") > max ("@ + idec(max as int)
                            + ")"@,
                        Some("swap the two arguments"@),
                    ),
                )
            } else {
                let draw = stepped(state);
                (draw, OutV::Value(ValueV::Int(in_range(draw, min as int, max as int) as i64)))
            },
        },
    }
}

/// Calls `random.int`.
pub fn do_random(rng: &mut Rng, p: &Place, a: &Vec<Value>) -> (r: Out)
    requires
        a.len() >= 2,
    ensures
        (final(rng).state, r@) == random_of(old(rng).state, p@, values_v(a@)),
{
    let min: i64 = match get_int(p, "random.int", a, 0) {
        Err(o) => return o,
        Ok(n) => n,
    };
    let max: i64 = match get_int(p, "random.int", a, 1) {
        Err(o) => return o,
        Ok(n) => n,
    };
    if min > max {
        let msg = cat5(
            "`random.int` range is invalid: min (",
            dec_i64(min).as_str(),
            ") > max (",
            dec_i64(max).as_str(),
            ")",
        );
        return fail(p, codes::TYPE_MISMATCH, msg.as_str(), Some("swap the two arguments"));
    }
    Out::Value(Value::Int(rng.random_int(min, max)))
}

/// The mark of a log line.
pub open spec fn log_mark(name: Seq<char>) -> Seq<char> {
    if name == "log.info"@ {
        "\x1b[34m[INFO]\x1b[0m "@
    } else if name == "log.warn"@ {
        "\x1b[33m[WARN]\x1b[0m "@
    } else if name == "log.error"@ {
        "\x1b[31m[ERROR]\x1b[0m "@
    } else {
        "\x1b[32m[DEBUG]\x1b[0m "@
    }
}

/// Functions of the log.
pub open spec fn log_fn(p: PlaceV, name: Seq<char>, a: Seq<ValueV>) -> OutV {
    match text_at(p, name, a, 0) {
        Err(o) => o,
        Ok(s) => OutV::Ask(RequestV::Log(log_mark(name) + s), PendingV::Null),
    }
}

/// Calls a function of the log.
pub fn do_log(p: &Place, name: &str, a: &Vec<Value>) -> (r: Out)
    requires
        a.len() >= 1,
    ensures
        r@ == log_fn(p@, name@, values_v(a@)),
{
    let s = match get_text(p, name, a, 0) {
        Err(o) => return o,
        Ok(s) => s,
    };
    let mark = if eq(name, "log.info") {
        "\x1b[34m[INFO]\x1b[0m "
    } else if eq(name, "log.warn") {
        "\x1b[33m[WARN]\x1b[0m "
    } else if eq(name, "log.error") {
        "\x1b[31m[ERROR]\x1b[0m "
    } else {
        "\x1b[32m[DEBUG]\x1b[0m "
    };
    Out::Ask(Request::Log(cat2(mark, s)), Pending::Null)
}

/// Functions of the environment and the shell: `sys.get_env`, `env.get`, `env.set` and
/// `sys.run`.
pub open spec fn env_fn(p: PlaceV, name: Seq<char>, a: Seq<ValueV>) -> OutV {
    match text_at(p, name, a, 0) {
        Err(o) => o,
        Ok(s) => if name == "sys.run"@ {
            OutV::Ask(RequestV::Run(s), PendingV::Run(s))
        } else if name == "env.set"@ {
            match text_at(p, name, a, 1) {
                Err(o) => o,
                Ok(t) => OutV::Ask(RequestV::EnvSet(s, t), PendingV::Null),
            }
        } else {
            OutV::Ask(RequestV::EnvGet(s), PendingV::EnvGet)
        },
    }
}

/// Calls a function of the environment.
pub fn do_env(p: &Place, name: &str, a: &Vec<Value>) -> (r: Out)
    requires
        a.len() >= 1,
        name@ == "env.set"@ ==> a.len() >= 2,
    ensures
        r@ == env_fn(p@, name@, values_v(a@)),
{
    let s = match get_text(p, name, a, 0) {
        Err(o) => return o,
        Ok(s) => s,
    };
    if eq(name, "sys.run") {
        Out::Ask(Request::Run(s.to_owned()), Pending::Run(s.to_owned()))
    } else if eq(name, "env.set") {
        match get_text(p, name, a, 1) {
            Err(o) => o,
            Ok(t) => Out::Ask(Request::EnvSet(s.to_owned(), t.to_owned()), Pending::Null),
        }
    } else {
        Out::Ask(Request::EnvGet(s.to_owned()), Pending::EnvGet)
    }
}

} // verus!
