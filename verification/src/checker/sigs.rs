//! The signatures of the built-in functions.

use vstd::prelude::*;

use super::Ty;
use crate::builtins::names::names;
use crate::text::eq;

verus! {

/// What an argument must be.
#[derive(Debug, Clone, Copy, PartialEq, Eq, Structural)]
pub enum Kind {
    Str,
    Int,
    /// An `int` or a `float`.
    Num,
    /// A condition.
    Cond,
}

/// What an argument must be, and what it is called in errors.
#[derive(Clone, Copy)]
pub struct Want {
    pub kind: Kind,
    pub what: &'static str,
}

/// How many arguments a function takes.
#[derive(Clone, Copy)]
pub enum Arity {
    Exact(usize),
    /// From the first to the second number of arguments; how that is written, and
    /// advice.
    Range(usize, usize, &'static str, &'static str),
    AtLeastOne,
}

/// What a call gives.
#[derive(Clone, Copy)]
pub enum Ret {
    /// A value of a fixed type.
    Is(Ty),
    /// What the first argument is.
    First,
    /// A text with one argument, else a value of an unknown type.
    ByCount,
    /// A number of the type of the first argument.
    Abs,
    /// A number of the type of both arguments.
    Pair,
    /// Nothing, of a number.
    Sleep,
}

/// The signature of a built-in function: how many arguments it takes, what the first
/// three must be where they are given, what all of them must be, and what it gives.
#[derive(Clone, Copy)]
pub struct Sig {
    pub arity: Arity,
    pub w0: Option<Want>,
    pub w1: Option<Want>,
    pub w2: Option<Want>,
    pub all: Option<&'static str>,
    pub ret: Ret,
}

/// The signature of a built-in function.
pub open spec fn sig_of(name: Seq<char>) -> Option<Sig> {
    if name == "print"@ {
        Some(
            Sig {
                arity: Arity::Exact(1),
                w0: None,
                w1: None,
                w2: None,
                all: None,
                ret: Ret::Is(Ty::Void),
            },
        )
    } else if name == "len"@ {
        Some(
            Sig {
                arity: Arity::Exact(1),
                w0: None,
                w1: None,
                w2: None,
                all: None,
                ret: Ret::Is(Ty::Int),
            },
        )
    } else if name == "append"@ {
        Some(
            Sig {
                arity: Arity::Exact(2),
                w0: None,
                w1: None,
                w2: None,
                all: None,
                ret: Ret::Is(Ty::Unknown),
            },
        )
    } else if name == "clone"@ || name == "copy"@ {
        Some(
            Sig {
                arity: Arity::Exact(1),
                w0: None,
                w1: None,
                w2: None,
                all: None,
                ret: Ret::First,
            },
        )
    } else if name == "contains"@ {
        Some(
            Sig {
                arity: Arity::Exact(2),
                w0: None,
                w1: None,
                w2: None,
                all: None,
                ret: Ret::Is(Ty::Bool),
            },
        )
    } else if name == "index_of"@ {
        Some(
            Sig {
                arity: Arity::Exact(2),
                w0: None,
                w1: None,
                w2: None,
                all: None,
                ret: Ret::Is(Ty::Int),
            },
        )
    } else if name == "keys"@ || name == "values"@ {
        Some(
            Sig {
                arity: Arity::Exact(1),
                w0: None,
                w1: None,
                w2: None,
                all: None,
                ret: Ret::Is(Ty::Unknown),
            },
        )
    } else if name == "has_key"@ {
        Some(
            Sig {
                arity: Arity::Exact(2),
                w0: None,
                w1: Some(Want { kind: Kind::Str, what: "the key" }),
                w2: None,
                all: None,
                ret: Ret::Is(Ty::Bool),
            },
        )
    } else if name == "is_int"@ || name == "is_float"@ || name == "is_str"@ || name == "is_bool"@ || name == "is_list"@ || name == "is_dict"@ || name == "is_null"@ {
        Some(
            Sig {
                arity: Arity::Exact(1),
                w0: None,
                w1: None,
                w2: None,
                all: None,
                ret: Ret::Is(Ty::Bool),
            },
        )
    } else if name == "type_of"@ || name == "to_str"@ || name == "json_stringify"@ {
        Some(
            Sig {
                arity: Arity::Exact(1),
                w0: None,
                w1: None,
                w2: None,
                all: None,
                ret: Ret::Is(Ty::Str),
            },
        )
    } else if name == "assert"@ {
        Some(
            Sig {
                arity: Arity::Range(
                    1,
                    2,
                    "1-2 (condition[, message])",
                    "form: assert(condition) or assert(condition, \"message\")",
                ),
                w0: Some(Want { kind: Kind::Cond, what: "" }),
                w1: Some(Want { kind: Kind::Str, what: "the assertion message" }),
                w2: None,
                all: None,
                ret: Ret::Is(Ty::Void),
            },
        )
    } else if name == "to_int"@ {
        Some(
            Sig {
                arity: Arity::Exact(1),
                w0: None,
                w1: None,
                w2: None,
                all: None,
                ret: Ret::Is(Ty::Int),
            },
        )
    } else if name == "to_float"@ {
        Some(
            Sig {
                arity: Arity::Exact(1),
                w0: None,
                w1: None,
                w2: None,
                all: None,
                ret: Ret::Is(Ty::Float),
            },
        )
    } else if name == "read_file"@ || name == "http_get"@ {
        Some(
            Sig {
                arity: Arity::Exact(1),
                w0: Some(Want { kind: Kind::Str, what: "the URL/path" }),
                w1: None,
                w2: None,
                all: None,
                ret: Ret::Is(Ty::Str),
            },
        )
    } else if name == "write_file"@ {
        Some(
            Sig {
                arity: Arity::Exact(2),
                w0: Some(Want { kind: Kind::Str, what: "the first argument" }),
                w1: Some(Want { kind: Kind::Str, what: "the second argument" }),
                w2: None,
                all: None,
                ret: Ret::Is(Ty::Void),
            },
        )
    } else if name == "http_post"@ {
        Some(
            Sig {
                arity: Arity::Exact(2),
                w0: Some(Want { kind: Kind::Str, what: "the URL" }),
                w1: Some(Want { kind: Kind::Str, what: "the request body" }),
                w2: None,
                all: None,
                ret: Ret::Is(Ty::Str),
            },
        )
    } else if name == "sys.run"@ {
        Some(
            Sig {
                arity: Arity::Exact(1),
                w0: Some(Want { kind: Kind::Str, what: "the command" }),
                w1: None,
                w2: None,
                all: None,
                ret: Ret::Is(Ty::Str),
            },
        )
    } else if name == "server.listen"@ {
        Some(
            Sig {
                arity: Arity::Exact(1),
                w0: Some(Want { kind: Kind::Int, what: "the port number (0 = auto-assign)" }),
                w1: None,
                w2: None,
                all: None,
                ret: Ret::Is(Ty::Int),
            },
        )
    } else if name == "server.poll"@ {
        Some(
            Sig {
                arity: Arity::Exact(0),
                w0: None,
                w1: None,
                w2: None,
                all: None,
                ret: Ret::Is(Ty::Str),
            },
        )
    } else if name == "server.respond"@ {
        Some(
            Sig {
                arity: Arity::Range(
                    2,
                    3,
                    "2-3 (id, body[, status])",
                    "form: server.respond(id, body[, status])",
                ),
                w0: Some(Want { kind: Kind::Int, what: "the request id from `server.poll`" }),
                w1: Some(Want { kind: Kind::Str, what: "the response body" }),
                w2: Some(Want { kind: Kind::Int, what: "the HTTP status code (e.g. 404, 500)" }),
                all: None,
                ret: Ret::Is(Ty::Bool),
            },
        )
    } else if name == "ptr.alloc"@ {
        Some(
            Sig {
                arity: Arity::Exact(1),
                w0: Some(Want { kind: Kind::Int, what: "the allocation size in bytes" }),
                w1: None,
                w2: None,
                all: None,
                ret: Ret::Is(Ty::Unknown),
            },
        )
    } else if name == "ptr.free"@ || name == "ptr.is_null"@ || name == "ptr.is_valid"@ {
        Some(
            Sig {
                arity: Arity::Exact(1),
                w0: None,
                w1: None,
                w2: None,
                all: None,
                ret: Ret::Is(Ty::Bool),
            },
        )
    } else if name == "ptr.size"@ {
        Some(
            Sig {
                arity: Arity::Exact(1),
                w0: None,
                w1: None,
                w2: None,
                all: None,
                ret: Ret::Is(Ty::Int),
            },
        )
    } else if name == "ptr.read_int"@ || name == "ptr.read_byte"@ {
        Some(
            Sig {
                arity: Arity::Exact(2),
                w0: None,
                w1: Some(Want { kind: Kind::Int, what: "the byte offset" }),
                w2: None,
                all: None,
                ret: Ret::Is(Ty::Int),
            },
        )
    } else if name == "ptr.read_float"@ {
        Some(
            Sig {
                arity: Arity::Exact(2),
                w0: None,
                w1: Some(Want { kind: Kind::Int, what: "the byte offset" }),
                w2: None,
                all: None,
                ret: Ret::Is(Ty::Float),
            },
        )
    } else if name == "ptr.write_int"@ || name == "ptr.write_byte"@ {
        Some(
            Sig {
                arity: Arity::Exact(3),
                w0: None,
                w1: Some(Want { kind: Kind::Int, what: "the byte offset" }),
                w2: Some(Want { kind: Kind::Int, what: "the value to write" }),
                all: None,
                ret: Ret::Is(Ty::Void),
            },
        )
    } else if name == "ptr.write_float"@ {
        Some(
            Sig {
                arity: Arity::Exact(3),
                w0: None,
                w1: Some(Want { kind: Kind::Int, what: "the byte offset" }),
                w2: Some(Want { kind: Kind::Num, what: "the value to write" }),
                all: None,
                ret: Ret::Is(Ty::Void),
            },
        )
    } else if name == "file_exists"@ {
        Some(
            Sig {
                arity: Arity::Exact(1),
                w0: Some(Want { kind: Kind::Str, what: "the path" }),
                w1: None,
                w2: None,
                all: None,
                ret: Ret::Is(Ty::Bool),
            },
        )
    } else if name == "str_contains"@ {
        Some(
            Sig {
                arity: Arity::Exact(2),
                w0: Some(Want { kind: Kind::Str, what: "the string" }),
                w1: Some(Want { kind: Kind::Str, what: "the substring" }),
                w2: None,
                all: None,
                ret: Ret::Is(Ty::Bool),
            },
        )
    } else if name == "str_replace"@ || name == "regex.replace"@ {
        Some(
            Sig {
                arity: Arity::Exact(3),
                w0: Some(Want { kind: Kind::Str, what: "a string argument" }),
                w1: Some(Want { kind: Kind::Str, what: "a string argument" }),
                w2: Some(Want { kind: Kind::Str, what: "a string argument" }),
                all: None,
                ret: Ret::Is(Ty::Str),
            },
        )
    } else if name == "str_trim"@ {
        Some(
            Sig {
                arity: Arity::Exact(1),
                w0: Some(Want { kind: Kind::Str, what: "the string" }),
                w1: None,
                w2: None,
                all: None,
                ret: Ret::Is(Ty::Str),
            },
        )
    } else if name == "abs"@ {
        Some(
            Sig {
                arity: Arity::Exact(1),
                w0: None,
                w1: None,
                w2: None,
                all: None,
                ret: Ret::Abs,
            },
        )
    } else if name == "max"@ || name == "min"@ {
        Some(
            Sig {
                arity: Arity::Exact(2),
                w0: None,
                w1: None,
                w2: None,
                all: None,
                ret: Ret::Pair,
            },
        )
    } else if name == "time.now"@ {
        Some(
            Sig {
                arity: Arity::Exact(0),
                w0: None,
                w1: None,
                w2: None,
                all: None,
                ret: Ret::Is(Ty::Int),
            },
        )
    } else if name == "time.sleep"@ {
        Some(
            Sig {
                arity: Arity::Exact(1),
                w0: None,
                w1: None,
                w2: None,
                all: None,
                ret: Ret::Sleep,
            },
        )
    } else if name == "time.format"@ {
        Some(
            Sig {
                arity: Arity::Exact(2),
                w0: Some(Want { kind: Kind::Int, what: "the timestamp" }),
                w1: Some(Want { kind: Kind::Str, what: "the format" }),
                w2: None,
                all: None,
                ret: Ret::Is(Ty::Str),
            },
        )
    } else if name == "time.parse"@ {
        Some(
            Sig {
                arity: Arity::Exact(1),
                w0: Some(Want { kind: Kind::Str, what: "the timestamp string" }),
                w1: None,
                w2: None,
                all: None,
                ret: Ret::Is(Ty::Int),
            },
        )
    } else if name == "random.int"@ {
        Some(
            Sig {
                arity: Arity::Exact(2),
                w0: Some(Want { kind: Kind::Int, what: "the minimum" }),
                w1: Some(Want { kind: Kind::Int, what: "the maximum" }),
                w2: None,
                all: None,
                ret: Ret::Is(Ty::Int),
            },
        )
    } else if name == "random.float"@ {
        Some(
            Sig {
                arity: Arity::Exact(0),
                w0: None,
                w1: None,
                w2: None,
                all: None,
                ret: Ret::Is(Ty::Float),
            },
        )
    } else if name == "json_parse"@ {
        Some(
            Sig {
                arity: Arity::Exact(1),
                w0: Some(Want { kind: Kind::Str, what: "the JSON string" }),
                w1: None,
                w2: None,
                all: None,
                ret: Ret::Is(Ty::Unknown),
            },
        )
    } else if name == "sys.get_env"@ || name == "env.get"@ {
        Some(
            Sig {
                arity: Arity::Exact(1),
                w0: Some(Want { kind: Kind::Str, what: "the environment variable name" }),
                w1: None,
                w2: None,
                all: None,
                ret: Ret::Is(Ty::Str),
            },
        )
    } else if name == "sys.msgbox"@ {
        Some(
            Sig {
                arity: Arity::Exact(3),
                w0: Some(Want { kind: Kind::Str, what: "a string argument" }),
                w1: Some(Want { kind: Kind::Str, what: "a string argument" }),
                w2: Some(Want { kind: Kind::Str, what: "a string argument" }),
                all: None,
                ret: Ret::Is(Ty::Void),
            },
        )
    } else if name == "sys.beep"@ {
        Some(
            Sig {
                arity: Arity::Exact(2),
                w0: Some(Want { kind: Kind::Int, what: "the frequency" }),
                w1: Some(Want { kind: Kind::Int, what: "the duration" }),
                w2: None,
                all: None,
                ret: Ret::Is(Ty::Void),
            },
        )
    } else if name == "sys.clipboard_set"@ {
        Some(
            Sig {
                arity: Arity::Exact(1),
                w0: Some(Want { kind: Kind::Str, what: "the text" }),
                w1: None,
                w2: None,
                all: None,
                ret: Ret::Is(Ty::Void),
            },
        )
    } else if name == "sys.get_screen_size"@ || name == "uuid.new"@ {
        Some(
            Sig {
                arity: Arity::Exact(0),
                w0: None,
                w1: None,
                w2: None,
                all: None,
                ret: Ret::Is(Ty::Str),
            },
        )
    } else if name == "sys.reg_read"@ {
        Some(
            Sig {
                arity: Arity::Exact(1),
                w0: Some(Want { kind: Kind::Str, what: "the registry key" }),
                w1: None,
                w2: None,
                all: None,
                ret: Ret::Is(Ty::Str),
            },
        )
    } else if name == "sys.reg_write"@ {
        Some(
            Sig {
                arity: Arity::Exact(2),
                w0: Some(Want { kind: Kind::Str, what: "the registry key" }),
                w1: Some(Want { kind: Kind::Str, what: "the value" }),
                w2: None,
                all: None,
                ret: Ret::Is(Ty::Void),
            },
        )
    } else if name == "log.info"@ || name == "log.warn"@ || name == "log.error"@ || name == "log.debug"@ {
        Some(
            Sig {
                arity: Arity::Exact(1),
                w0: Some(Want { kind: Kind::Str, what: "the message" }),
                w1: None,
                w2: None,
                all: None,
                ret: Ret::Is(Ty::Void),
            },
        )
    } else if name == "path.join"@ {
        Some(
            Sig {
                arity: Arity::AtLeastOne,
                w0: None,
                w1: None,
                w2: None,
                all: Some("a path component"),
                ret: Ret::Is(Ty::Str),
            },
        )
    } else if name == "path.dirname"@ || name == "path.basename"@ {
        Some(
            Sig {
                arity: Arity::Exact(1),
                w0: Some(Want { kind: Kind::Str, what: "the path" }),
                w1: None,
                w2: None,
                all: None,
                ret: Ret::Is(Ty::Str),
            },
        )
    } else if name == "args.has"@ {
        Some(
            Sig {
                arity: Arity::Exact(1),
                w0: Some(Want { kind: Kind::Str, what: "the key" }),
                w1: None,
                w2: None,
                all: None,
                ret: Ret::Is(Ty::Bool),
            },
        )
    } else if name == "args.get"@ {
        Some(
            Sig {
                arity: Arity::Range(
                    1,
                    3,
                    "1-3 (key[, type[, default]])",
                    "form: args.get(key) / args.get(key, type) / args.get(key, type, default)",
                ),
                w0: Some(Want { kind: Kind::Str, what: "the key" }),
                w1: Some(Want { kind: Kind::Str, what: "the target type (`int`/`float`/`bool`/`str`)" }),
                w2: None,
                all: None,
                ret: Ret::ByCount,
            },
        )
    } else if name == "env.set"@ || name == "db.set"@ {
        Some(
            Sig {
                arity: Arity::Exact(2),
                w0: Some(Want { kind: Kind::Str, what: "the key" }),
                w1: Some(Want { kind: Kind::Str, what: "the value" }),
                w2: None,
                all: None,
                ret: Ret::Is(Ty::Void),
            },
        )
    } else if name == "db.get"@ {
        Some(
            Sig {
                arity: Arity::Exact(1),
                w0: Some(Want { kind: Kind::Str, what: "the key" }),
                w1: None,
                w2: None,
                all: None,
                ret: Ret::Is(Ty::Str),
            },
        )
    } else if name == "regex.match"@ {
        Some(
            Sig {
                arity: Arity::Exact(2),
                w0: Some(Want { kind: Kind::Str, what: "the pattern" }),
                w1: Some(Want { kind: Kind::Str, what: "the text" }),
                w2: None,
                all: None,
                ret: Ret::Is(Ty::Bool),
            },
        )
    } else if name == "crypto.md5"@ || name == "crypto.sha1"@ || name == "crypto.sha256"@ || name == "crypto.base64_encode"@ || name == "crypto.base64_decode"@ {
        Some(
            Sig {
                arity: Arity::Exact(1),
                w0: Some(Want { kind: Kind::Str, what: "the input text" }),
                w1: None,
                w2: None,
                all: None,
                ret: Ret::Is(Ty::Str),
            },
        )
    } else if name == "crypto.hmac_sha256"@ {
        Some(
            Sig {
                arity: Arity::Exact(2),
                w0: Some(Want { kind: Kind::Str, what: "the HMAC key" }),
                w1: Some(Want { kind: Kind::Str, what: "the message" }),
                w2: None,
                all: None,
                ret: Ret::Is(Ty::Str),
            },
        )
    } else if name == "archive.zip_list"@ || name == "archive.tgz_list"@ {
        Some(
            Sig {
                arity: Arity::Exact(1),
                w0: Some(Want { kind: Kind::Str, what: "the archive path" }),
                w1: None,
                w2: None,
                all: None,
                ret: Ret::Is(Ty::Unknown),
            },
        )
    } else if name == "archive.zip_read"@ || name == "archive.tgz_read"@ {
        Some(
            Sig {
                arity: Arity::Exact(2),
                w0: Some(Want { kind: Kind::Str, what: "the archive path" }),
                w1: Some(Want { kind: Kind::Str, what: "the entry name" }),
                w2: None,
                all: None,
                ret: Ret::Is(Ty::Str),
            },
        )
    } else if name == "archive.zip_extract"@ || name == "archive.tgz_extract"@ {
        Some(
            Sig {
                arity: Arity::Exact(2),
                w0: Some(Want { kind: Kind::Str, what: "the archive path" }),
                w1: Some(Want { kind: Kind::Str, what: "the destination directory" }),
                w2: None,
                all: None,
                ret: Ret::Is(Ty::Int),
            },
        )
    } else if name == "archive.zip_create"@ || name == "archive.tgz_create"@ {
        Some(
            Sig {
                arity: Arity::Exact(2),
                w0: Some(Want { kind: Kind::Str, what: "the archive path" }),
                w1: None,
                w2: None,
                all: None,
                ret: Ret::Is(Ty::Bool),
            },
        )
    } else if name == "plugin.load"@ {
        Some(
            Sig {
                arity: Arity::Exact(2),
                w0: Some(Want { kind: Kind::Str, what: "the plugin library path" }),
                w1: Some(Want { kind: Kind::Str, what: "the plugin alias" }),
                w2: None,
                all: None,
                ret: Ret::Is(Ty::Bool),
            },
        )
    } else if name == "plugin.has"@ || name == "plugin.unload"@ {
        Some(
            Sig {
                arity: Arity::Exact(1),
                w0: Some(Want { kind: Kind::Str, what: "the plugin alias" }),
                w1: None,
                w2: None,
                all: None,
                ret: Ret::Is(Ty::Bool),
            },
        )
    } else if name == "plugin.list"@ {
        Some(
            Sig {
                arity: Arity::Exact(0),
                w0: None,
                w1: None,
                w2: None,
                all: None,
                ret: Ret::Is(Ty::Unknown),
            },
        )
    } else {
        None
    }
}

/// The signature of a built-in function.
pub fn signature(name: &str) -> (r: Option<Sig>)
    ensures
        r == sig_of(name@),
{
    if eq(name, "print") {
        Some(
            Sig {
                arity: Arity::Exact(1),
                w0: None,
                w1: None,
                w2: None,
                all: None,
                ret: Ret::Is(Ty::Void),
            },
        )
    } else if eq(name, "len") {
        Some(
            Sig {
                arity: Arity::Exact(1),
                w0: None,
                w1: None,
                w2: None,
                all: None,
                ret: Ret::Is(Ty::Int),
            },
        )
    } else if eq(name, "append") {
        Some(
            Sig {
                arity: Arity::Exact(2),
                w0: None,
                w1: None,
                w2: None,
                all: None,
                ret: Ret::Is(Ty::Unknown),
            },
        )
    } else if eq(name, "clone") || eq(name, "copy") {
        Some(
            Sig {
                arity: Arity::Exact(1),
                w0: None,
                w1: None,
                w2: None,
                all: None,
                ret: Ret::First,
            },
        )
    } else if eq(name, "contains") {
        Some(
            Sig {
                arity: Arity::Exact(2),
                w0: None,
                w1: None,
                w2: None,
                all: None,
                ret: Ret::Is(Ty::Bool),
            },
        )
    } else if eq(name, "index_of") {
        Some(
            Sig {
                arity: Arity::Exact(2),
                w0: None,
                w1: None,
                w2: None,
                all: None,
                ret: Ret::Is(Ty::Int),
            },
        )
    } else if eq(name, "keys") || eq(name, "values") {
        Some(
            Sig {
                arity: Arity::Exact(1),
                w0: None,
                w1: None,
                w2: None,
                all: None,
                ret: Ret::Is(Ty::Unknown),
            },
        )
    } else if eq(name, "has_key") {
        Some(
            Sig {
                arity: Arity::Exact(2),
                w0: None,
                w1: Some(Want { kind: Kind::Str, what: "the key" }),
                w2: None,
                all: None,
                ret: Ret::Is(Ty::Bool),
            },
        )
    } else if eq(name, "is_int") || eq(name, "is_float") || eq(name, "is_str") || eq(name, "is_bool") || eq(name, "is_list") || eq(name, "is_dict") || eq(name, "is_null") {
        Some(
            Sig {
                arity: Arity::Exact(1),
                w0: None,
                w1: None,
                w2: None,
                all: None,
                ret: Ret::Is(Ty::Bool),
            },
        )
    } else if eq(name, "type_of") || eq(name, "to_str") || eq(name, "json_stringify") {
        Some(
            Sig {
                arity: Arity::Exact(1),
                w0: None,
                w1: None,
                w2: None,
                all: None,
                ret: Ret::Is(Ty::Str),
            },
        )
    } else if eq(name, "assert") {
        Some(
            Sig {
                arity: Arity::Range(
                    1,
                    2,
                    "1-2 (condition[, message])",
                    "form: assert(condition) or assert(condition, \"message\")",
                ),
                w0: Some(Want { kind: Kind::Cond, what: "" }),
                w1: Some(Want { kind: Kind::Str, what: "the assertion message" }),
                w2: None,
                all: None,
                ret: Ret::Is(Ty::Void),
            },
        )
    } else if eq(name, "to_int") {
        Some(
            Sig {
                arity: Arity::Exact(1),
                w0: None,
                w1: None,
                w2: None,
                all: None,
                ret: Ret::Is(Ty::Int),
            },
        )
    } else if eq(name, "to_float") {
        Some(
            Sig {
                arity: Arity::Exact(1),
                w0: None,
                w1: None,
                w2: None,
                all: None,
                ret: Ret::Is(Ty::Float),
            },
        )
    } else if eq(name, "read_file") || eq(name, "http_get") {
        Some(
            Sig {
                arity: Arity::Exact(1),
                w0: Some(Want { kind: Kind::Str, what: "the URL/path" }),
                w1: None,
                w2: None,
                all: None,
                ret: Ret::Is(Ty::Str),
            },
        )
    } else if eq(name, "write_file") {
        Some(
            Sig {
                arity: Arity::Exact(2),
                w0: Some(Want { kind: Kind::Str, what: "the first argument" }),
                w1: Some(Want { kind: Kind::Str, what: "the second argument" }),
                w2: None,
                all: None,
                ret: Ret::Is(Ty::Void),
            },
        )
    } else if eq(name, "http_post") {
        Some(
            Sig {
                arity: Arity::Exact(2),
                w0: Some(Want { kind: Kind::Str, what: "the URL" }),
                w1: Some(Want { kind: Kind::Str, what: "the request body" }),
                w2: None,
                all: None,
                ret: Ret::Is(Ty::Str),
            },
        )
    } else if eq(name, "sys.run") {
        Some(
            Sig {
                arity: Arity::Exact(1),
                w0: Some(Want { kind: Kind::Str, what: "the command" }),
                w1: None,
                w2: None,
                all: None,
                ret: Ret::Is(Ty::Str),
            },
        )
    } else if eq(name, "server.listen") {
        Some(
            Sig {
                arity: Arity::Exact(1),
                w0: Some(Want { kind: Kind::Int, what: "the port number (0 = auto-assign)" }),
                w1: None,
                w2: None,
                all: None,
                ret: Ret::Is(Ty::Int),
            },
        )
    } else if eq(name, "server.poll") {
        Some(
            Sig {
                arity: Arity::Exact(0),
                w0: None,
                w1: None,
                w2: None,
                all: None,
                ret: Ret::Is(Ty::Str),
            },
        )
    } else if eq(name, "server.respond") {
        Some(
            Sig {
                arity: Arity::Range(
                    2,
                    3,
                    "2-3 (id, body[, status])",
                    "form: server.respond(id, body[, status])",
                ),
                w0: Some(Want { kind: Kind::Int, what: "the request id from `server.poll`" }),
                w1: Some(Want { kind: Kind::Str, what: "the response body" }),
                w2: Some(Want { kind: Kind::Int, what: "the HTTP status code (e.g. 404, 500)" }),
                all: None,
                ret: Ret::Is(Ty::Bool),
            },
        )
    } else if eq(name, "ptr.alloc") {
        Some(
            Sig {
                arity: Arity::Exact(1),
                w0: Some(Want { kind: Kind::Int, what: "the allocation size in bytes" }),
                w1: None,
                w2: None,
                all: None,
                ret: Ret::Is(Ty::Unknown),
            },
        )
    } else if eq(name, "ptr.free") || eq(name, "ptr.is_null") || eq(name, "ptr.is_valid") {
        Some(
            Sig {
                arity: Arity::Exact(1),
                w0: None,
                w1: None,
                w2: None,
                all: None,
                ret: Ret::Is(Ty::Bool),
            },
        )
    } else if eq(name, "ptr.size") {
        Some(
            Sig {
                arity: Arity::Exact(1),
                w0: None,
                w1: None,
                w2: None,
                all: None,
                ret: Ret::Is(Ty::Int),
            },
        )
    } else if eq(name, "ptr.read_int") || eq(name, "ptr.read_byte") {
        Some(
            Sig {
                arity: Arity::Exact(2),
                w0: None,
                w1: Some(Want { kind: Kind::Int, what: "the byte offset" }),
                w2: None,
                all: None,
                ret: Ret::Is(Ty::Int),
            },
        )
    } else if eq(name, "ptr.read_float") {
        Some(
            Sig {
                arity: Arity::Exact(2),
                w0: None,
                w1: Some(Want { kind: Kind::Int, what: "the byte offset" }),
                w2: None,
                all: None,
                ret: Ret::Is(Ty::Float),
            },
        )
    } else if eq(name, "ptr.write_int") || eq(name, "ptr.write_byte") {
        Some(
            Sig {
                arity: Arity::Exact(3),
                w0: None,
                w1: Some(Want { kind: Kind::Int, what: "the byte offset" }),
                w2: Some(Want { kind: Kind::Int, what: "the value to write" }),
                all: None,
                ret: Ret::Is(Ty::Void),
            },
        )
    } else if eq(name, "ptr.write_float") {
        Some(
            Sig {
                arity: Arity::Exact(3),
                w0: None,
                w1: Some(Want { kind: Kind::Int, what: "the byte offset" }),
                w2: Some(Want { kind: Kind::Num, what: "the value to write" }),
                all: None,
                ret: Ret::Is(Ty::Void),
            },
        )
    } else if eq(name, "file_exists") {
        Some(
            Sig {
                arity: Arity::Exact(1),
                w0: Some(Want { kind: Kind::Str, what: "the path" }),
                w1: None,
                w2: None,
                all: None,
                ret: Ret::Is(Ty::Bool),
            },
        )
    } else if eq(name, "str_contains") {
        Some(
            Sig {
                arity: Arity::Exact(2),
                w0: Some(Want { kind: Kind::Str, what: "the string" }),
                w1: Some(Want { kind: Kind::Str, what: "the substring" }),
                w2: None,
                all: None,
                ret: Ret::Is(Ty::Bool),
            },
        )
    } else if eq(name, "str_replace") || eq(name, "regex.replace") {
        Some(
            Sig {
                arity: Arity::Exact(3),
                w0: Some(Want { kind: Kind::Str, what: "a string argument" }),
                w1: Some(Want { kind: Kind::Str, what: "a string argument" }),
                w2: Some(Want { kind: Kind::Str, what: "a string argument" }),
                all: None,
                ret: Ret::Is(Ty::Str),
            },
        )
    } else if eq(name, "str_trim") {
        Some(
            Sig {
                arity: Arity::Exact(1),
                w0: Some(Want { kind: Kind::Str, what: "the string" }),
                w1: None,
                w2: None,
                all: None,
                ret: Ret::Is(Ty::Str),
            },
        )
    } else if eq(name, "abs") {
        Some(
            Sig {
                arity: Arity::Exact(1),
                w0: None,
                w1: None,
                w2: None,
                all: None,
                ret: Ret::Abs,
            },
        )
    } else if eq(name, "max") || eq(name, "min") {
        Some(
            Sig {
                arity: Arity::Exact(2),
                w0: None,
                w1: None,
                w2: None,
                all: None,
                ret: Ret::Pair,
            },
        )
    } else if eq(name, "time.now") {
        Some(
            Sig {
                arity: Arity::Exact(0),
                w0: None,
                w1: None,
                w2: None,
                all: None,
                ret: Ret::Is(Ty::Int),
            },
        )
    } else if eq(name, "time.sleep") {
        Some(
            Sig {
                arity: Arity::Exact(1),
                w0: None,
                w1: None,
                w2: None,
                all: None,
                ret: Ret::Sleep,
            },
        )
    } else if eq(name, "time.format") {
        Some(
            Sig {
                arity: Arity::Exact(2),
                w0: Some(Want { kind: Kind::Int, what: "the timestamp" }),
                w1: Some(Want { kind: Kind::Str, what: "the format" }),
                w2: None,
                all: None,
                ret: Ret::Is(Ty::Str),
            },
        )
    } else if eq(name, "time.parse") {
        Some(
            Sig {
                arity: Arity::Exact(1),
                w0: Some(Want { kind: Kind::Str, what: "the timestamp string" }),
                w1: None,
                w2: None,
                all: None,
                ret: Ret::Is(Ty::Int),
            },
        )
    } else if eq(name, "random.int") {
        Some(
            Sig {
                arity: Arity::Exact(2),
                w0: Some(Want { kind: Kind::Int, what: "the minimum" }),
                w1: Some(Want { kind: Kind::Int, what: "the maximum" }),
                w2: None,
                all: None,
                ret: Ret::Is(Ty::Int),
            },
        )
    } else if eq(name, "random.float") {
        Some(
            Sig {
                arity: Arity::Exact(0),
                w0: None,
                w1: None,
                w2: None,
                all: None,
                ret: Ret::Is(Ty::Float),
            },
        )
    } else if eq(name, "json_parse") {
        Some(
            Sig {
                arity: Arity::Exact(1),
                w0: Some(Want { kind: Kind::Str, what: "the JSON string" }),
                w1: None,
                w2: None,
                all: None,
                ret: Ret::Is(Ty::Unknown),
            },
        )
    } else if eq(name, "sys.get_env") || eq(name, "env.get") {
        Some(
            Sig {
                arity: Arity::Exact(1),
                w0: Some(Want { kind: Kind::Str, what: "the environment variable name" }),
                w1: None,
                w2: None,
                all: None,
                ret: Ret::Is(Ty::Str),
            },
        )
    } else if eq(name, "sys.msgbox") {
        Some(
            Sig {
                arity: Arity::Exact(3),
                w0: Some(Want { kind: Kind::Str, what: "a string argument" }),
                w1: Some(Want { kind: Kind::Str, what: "a string argument" }),
                w2: Some(Want { kind: Kind::Str, what: "a string argument" }),
                all: None,
                ret: Ret::Is(Ty::Void),
            },
        )
    } else if eq(name, "sys.beep") {
        Some(
            Sig {
                arity: Arity::Exact(2),
                w0: Some(Want { kind: Kind::Int, what: "the frequency" }),
                w1: Some(Want { kind: Kind::Int, what: "the duration" }),
                w2: None,
                all: None,
                ret: Ret::Is(Ty::Void),
            },
        )
    } else if eq(name, "sys.clipboard_set") {
        Some(
            Sig {
                arity: Arity::Exact(1),
                w0: Some(Want { kind: Kind::Str, what: "the text" }),
                w1: None,
                w2: None,
                all: None,
                ret: Ret::Is(Ty::Void),
            },
        )
    } else if eq(name, "sys.get_screen_size") || eq(name, "uuid.new") {
        Some(
            Sig {
                arity: Arity::Exact(0),
                w0: None,
                w1: None,
                w2: None,
                all: None,
                ret: Ret::Is(Ty::Str),
            },
        )
    } else if eq(name, "sys.reg_read") {
        Some(
            Sig {
                arity: Arity::Exact(1),
                w0: Some(Want { kind: Kind::Str, what: "the registry key" }),
                w1: None,
                w2: None,
                all: None,
                ret: Ret::Is(Ty::Str),
            },
        )
    } else if eq(name, "sys.reg_write") {
        Some(
            Sig {
                arity: Arity::Exact(2),
                w0: Some(Want { kind: Kind::Str, what: "the registry key" }),
                w1: Some(Want { kind: Kind::Str, what: "the value" }),
                w2: None,
                all: None,
                ret: Ret::Is(Ty::Void),
            },
        )
    } else if eq(name, "log.info") || eq(name, "log.warn") || eq(name, "log.error") || eq(name, "log.debug") {
        Some(
            Sig {
                arity: Arity::Exact(1),
                w0: Some(Want { kind: Kind::Str, what: "the message" }),
                w1: None,
                w2: None,
                all: None,
                ret: Ret::Is(Ty::Void),
            },
        )
    } else if eq(name, "path.join") {
        Some(
            Sig {
                arity: Arity::AtLeastOne,
                w0: None,
                w1: None,
                w2: None,
                all: Some("a path component"),
                ret: Ret::Is(Ty::Str),
            },
        )
    } else if eq(name, "path.dirname") || eq(name, "path.basename") {
        Some(
            Sig {
                arity: Arity::Exact(1),
                w0: Some(Want { kind: Kind::Str, what: "the path" }),
                w1: None,
                w2: None,
                all: None,
                ret: Ret::Is(Ty::Str),
            },
        )
    } else if eq(name, "args.has") {
        Some(
            Sig {
                arity: Arity::Exact(1),
                w0: Some(Want { kind: Kind::Str, what: "the key" }),
                w1: None,
                w2: None,
                all: None,
                ret: Ret::Is(Ty::Bool),
            },
        )
    } else if eq(name, "args.get") {
        Some(
            Sig {
                arity: Arity::Range(
                    1,
                    3,
                    "1-3 (key[, type[, default]])",
                    "form: args.get(key) / args.get(key, type) / args.get(key, type, default)",
                ),
                w0: Some(Want { kind: Kind::Str, what: "the key" }),
                w1: Some(Want { kind: Kind::Str, what: "the target type (`int`/`float`/`bool`/`str`)" }),
                w2: None,
                all: None,
                ret: Ret::ByCount,
            },
        )
    } else if eq(name, "env.set") || eq(name, "db.set") {
        Some(
            Sig {
                arity: Arity::Exact(2),
                w0: Some(Want { kind: Kind::Str, what: "the key" }),
                w1: Some(Want { kind: Kind::Str, what: "the value" }),
                w2: None,
                all: None,
                ret: Ret::Is(Ty::Void),
            },
        )
    } else if eq(name, "db.get") {
        Some(
            Sig {
                arity: Arity::Exact(1),
                w0: Some(Want { kind: Kind::Str, what: "the key" }),
                w1: None,
                w2: None,
                all: None,
                ret: Ret::Is(Ty::Str),
            },
        )
    } else if eq(name, "regex.match") {
        Some(
            Sig {
                arity: Arity::Exact(2),
                w0: Some(Want { kind: Kind::Str, what: "the pattern" }),
                w1: Some(Want { kind: Kind::Str, what: "the text" }),
                w2: None,
                all: None,
                ret: Ret::Is(Ty::Bool),
            },
        )
    } else if eq(name, "crypto.md5") || eq(name, "crypto.sha1") || eq(name, "crypto.sha256") || eq(name, "crypto.base64_encode") || eq(name, "crypto.base64_decode") {
        Some(
            Sig {
                arity: Arity::Exact(1),
                w0: Some(Want { kind: Kind::Str, what: "the input text" }),
                w1: None,
                w2: None,
                all: None,
                ret: Ret::Is(Ty::Str),
            },
        )
    } else if eq(name, "crypto.hmac_sha256") {
        Some(
            Sig {
                arity: Arity::Exact(2),
                w0: Some(Want { kind: Kind::Str, what: "the HMAC key" }),
                w1: Some(Want { kind: Kind::Str, what: "the message" }),
                w2: None,
                all: None,
                ret: Ret::Is(Ty::Str),
            },
        )
    } else if eq(name, "archive.zip_list") || eq(name, "archive.tgz_list") {
        Some(
            Sig {
                arity: Arity::Exact(1),
                w0: Some(Want { kind: Kind::Str, what: "the archive path" }),
                w1: None,
                w2: None,
                all: None,
                ret: Ret::Is(Ty::Unknown),
            },
        )
    } else if eq(name, "archive.zip_read") || eq(name, "archive.tgz_read") {
        Some(
            Sig {
                arity: Arity::Exact(2),
                w0: Some(Want { kind: Kind::Str, what: "the archive path" }),
                w1: Some(Want { kind: Kind::Str, what: "the entry name" }),
                w2: None,
                all: None,
                ret: Ret::Is(Ty::Str),
            },
        )
    } else if eq(name, "archive.zip_extract") || eq(name, "archive.tgz_extract") {
        Some(
            Sig {
                arity: Arity::Exact(2),
                w0: Some(Want { kind: Kind::Str, what: "the archive path" }),
                w1: Some(Want { kind: Kind::Str, what: "the destination directory" }),
                w2: None,
                all: None,
                ret: Ret::Is(Ty::Int),
            },
        )
    } else if eq(name, "archive.zip_create") || eq(name, "archive.tgz_create") {
        Some(
            Sig {
                arity: Arity::Exact(2),
                w0: Some(Want { kind: Kind::Str, what: "the archive path" }),
                w1: None,
                w2: None,
                all: None,
                ret: Ret::Is(Ty::Bool),
            },
        )
    } else if eq(name, "plugin.load") {
        Some(
            Sig {
                arity: Arity::Exact(2),
                w0: Some(Want { kind: Kind::Str, what: "the plugin library path" }),
                w1: Some(Want { kind: Kind::Str, what: "the plugin alias" }),
                w2: None,
                all: None,
                ret: Ret::Is(Ty::Bool),
            },
        )
    } else if eq(name, "plugin.has") || eq(name, "plugin.unload") {
        Some(
            Sig {
                arity: Arity::Exact(1),
                w0: Some(Want { kind: Kind::Str, what: "the plugin alias" }),
                w1: None,
                w2: None,
                all: None,
                ret: Ret::Is(Ty::Bool),
            },
        )
    } else if eq(name, "plugin.list") {
        Some(
            Sig {
                arity: Arity::Exact(0),
                w0: None,
                w1: None,
                w2: None,
                all: None,
                ret: Ret::Is(Ty::Unknown),
            },
        )
    } else {
        None
    }
}

/// A name has a signature exactly where it is that of a built-in function.
pub proof fn law_every_builtin_has_a_signature(name: Seq<char>)
    ensures
        names().contains(name) <==> sig_of(name) is Some,
{
    if names().contains(name) {
        let i = choose|i: int| 0 <= i < names().len() && names()[i] == name;
    }
    if sig_of(name) is Some {
        assert(names()[0] == "print"@);
        assert(names()[1] == "len"@);
        assert(names()[2] == "append"@);
        assert(names()[3] == "clone"@);
        assert(names()[4] == "copy"@);
        assert(names()[5] == "contains"@);
        assert(names()[6] == "index_of"@);
        assert(names()[7] == "keys"@);
        assert(names()[8] == "values"@);
        assert(names()[9] == "has_key"@);
        assert(names()[10] == "is_int"@);
        assert(names()[11] == "is_float"@);
        assert(names()[12] == "is_str"@);
        assert(names()[13] == "is_bool"@);
        assert(names()[14] == "is_list"@);
        assert(names()[15] == "is_dict"@);
        assert(names()[16] == "is_null"@);
        assert(names()[17] == "type_of"@);
        assert(names()[18] == "assert"@);
        assert(names()[19] == "to_str"@);
        assert(names()[20] == "to_int"@);
        assert(names()[21] == "to_float"@);
        assert(names()[22] == "read_file"@);
        assert(names()[23] == "write_file"@);
        assert(names()[24] == "file_exists"@);
        assert(names()[25] == "abs"@);
        assert(names()[26] == "max"@);
        assert(names()[27] == "min"@);
        assert(names()[28] == "str_contains"@);
        assert(names()[29] == "str_replace"@);
        assert(names()[30] == "str_trim"@);
        assert(names()[31] == "time.now"@);
        assert(names()[32] == "time.sleep"@);
        assert(names()[33] == "time.format"@);
        assert(names()[34] == "time.parse"@);
        assert(names()[35] == "random.int"@);
        assert(names()[36] == "random.float"@);
        assert(names()[37] == "http_get"@);
        assert(names()[38] == "http_post"@);
        assert(names()[39] == "json_parse"@);
        assert(names()[40] == "json_stringify"@);
        assert(names()[41] == "sys.run"@);
        assert(names()[42] == "sys.get_env"@);
        assert(names()[43] == "sys.msgbox"@);
        assert(names()[44] == "sys.beep"@);
        assert(names()[45] == "sys.clipboard_set"@);
        assert(names()[46] == "sys.get_screen_size"@);
        assert(names()[47] == "sys.reg_read"@);
        assert(names()[48] == "sys.reg_write"@);
        assert(names()[49] == "server.listen"@);
        assert(names()[50] == "server.poll"@);
        assert(names()[51] == "server.respond"@);
        assert(names()[52] == "ptr.alloc"@);
        assert(names()[53] == "ptr.free"@);
        assert(names()[54] == "ptr.is_null"@);
        assert(names()[55] == "ptr.is_valid"@);
        assert(names()[56] == "ptr.size"@);
        assert(names()[57] == "ptr.read_int"@);
        assert(names()[58] == "ptr.read_float"@);
        assert(names()[59] == "ptr.read_byte"@);
        assert(names()[60] == "ptr.write_int"@);
        assert(names()[61] == "ptr.write_float"@);
        assert(names()[62] == "ptr.write_byte"@);
        assert(names()[63] == "log.info"@);
        assert(names()[64] == "log.warn"@);
        assert(names()[65] == "log.error"@);
        assert(names()[66] == "log.debug"@);
        assert(names()[67] == "path.join"@);
        assert(names()[68] == "path.dirname"@);
        assert(names()[69] == "path.basename"@);
        assert(names()[70] == "args.get"@);
        assert(names()[71] == "args.has"@);
        assert(names()[72] == "env.get"@);
        assert(names()[73] == "env.set"@);
        assert(names()[74] == "db.set"@);
        assert(names()[75] == "db.get"@);
        assert(names()[76] == "regex.match"@);
        assert(names()[77] == "regex.replace"@);
        assert(names()[78] == "crypto.md5"@);
        assert(names()[79] == "crypto.sha1"@);
        assert(names()[80] == "crypto.sha256"@);
        assert(names()[81] == "crypto.hmac_sha256"@);
        assert(names()[82] == "crypto.base64_encode"@);
        assert(names()[83] == "crypto.base64_decode"@);
        assert(names()[84] == "archive.zip_list"@);
        assert(names()[85] == "archive.zip_read"@);
        assert(names()[86] == "archive.zip_extract"@);
        assert(names()[87] == "archive.zip_create"@);
        assert(names()[88] == "archive.tgz_list"@);
        assert(names()[89] == "archive.tgz_read"@);
        assert(names()[90] == "archive.tgz_extract"@);
        assert(names()[91] == "archive.tgz_create"@);
        assert(names()[92] == "plugin.load"@);
        assert(names()[93] == "plugin.has"@);
        assert(names()[94] == "plugin.list"@);
        assert(names()[95] == "plugin.unload"@);
        assert(names()[96] == "uuid.new"@);
    }
}

/// The functions whose result is told from their arguments have those arguments.
pub proof fn lemma_arity(name: Seq<char>)
    ensures
        sig_of(name) matches Some(sig) ==> match sig.ret {
            Ret::Is(_) => true,
            Ret::ByCount => true,
            Ret::Pair => sig.arity == Arity::Exact(2),
            _ => sig.arity == Arity::Exact(1),
        },
{
}

} // verus!
