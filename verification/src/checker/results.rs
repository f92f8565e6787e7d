//! That built-in functions give values of the types that checking finds for them.

use vstd::prelude::*;

use super::rules::{builtin_ty, CxV, StV, TyRes};
use super::sigs::{sig_of, Ret};
use super::sound::has;
use crate::builtins::value_fn;
use crate::builtins::world::{OutV, PlaceV};
use crate::error::ErrV;
use crate::lexer::Span;
use crate::value::ValueV;

verus! {

proof fn lemma_names()
    ensures
        "print"@.len() == 5 && "print"@[0] == 'p' && "print"@[1] == 'r' && "print"@[3] == 'n',
        "len"@.len() == 3 && "len"@[0] == 'l' && "len"@[1] == 'e',
        "append"@.len() == 6 && "append"@[0] == 'a' && "append"@[1] == 'p' && "append"@[3] == 'e',
        "clone"@.len() == 5 && "clone"@[0] == 'c' && "clone"@[1] == 'l' && "clone"@[3] == 'n',
        "copy"@.len() == 4 && "copy"@[0] == 'c' && "copy"@[1] == 'o' && "copy"@[3] == 'y',
        "contains"@.len() == 8 && "contains"@[0] == 'c' && "contains"@[1] == 'o' && "contains"@[3] == 't',
        "index_of"@.len() == 8 && "index_of"@[0] == 'i' && "index_of"@[1] == 'n' && "index_of"@[3] == 'e',
        "keys"@.len() == 4 && "keys"@[0] == 'k' && "keys"@[1] == 'e' && "keys"@[3] == 's',
        "values"@.len() == 6 && "values"@[0] == 'v' && "values"@[1] == 'a' && "values"@[3] == 'u',
        "has_key"@.len() == 7 && "has_key"@[0] == 'h' && "has_key"@[1] == 'a' && "has_key"@[3] == '_',
        "type_of"@.len() == 7 && "type_of"@[0] == 't' && "type_of"@[1] == 'y' && "type_of"@[3] == 'e',
        "assert"@.len() == 6 && "assert"@[0] == 'a' && "assert"@[1] == 's' && "assert"@[3] == 'e',
        "is_int"@.len() == 6 && "is_int"@[0] == 'i' && "is_int"@[1] == 's' && "is_int"@[3] == 'i',
        "is_float"@.len() == 8 && "is_float"@[0] == 'i' && "is_float"@[1] == 's' && "is_float"@[3] == 'f',
        "is_str"@.len() == 6 && "is_str"@[0] == 'i' && "is_str"@[1] == 's' && "is_str"@[3] == 's',
        "is_bool"@.len() == 7 && "is_bool"@[0] == 'i' && "is_bool"@[1] == 's' && "is_bool"@[3] == 'b',
        "is_list"@.len() == 7 && "is_list"@[0] == 'i' && "is_list"@[1] == 's' && "is_list"@[3] == 'l',
        "is_dict"@.len() == 7 && "is_dict"@[0] == 'i' && "is_dict"@[1] == 's' && "is_dict"@[3] == 'd',
        "is_null"@.len() == 7 && "is_null"@[0] == 'i' && "is_null"@[1] == 's' && "is_null"@[3] == 'n',
        "to_str"@.len() == 6 && "to_str"@[0] == 't' && "to_str"@[1] == 'o' && "to_str"@[3] == 's',
        "to_int"@.len() == 6 && "to_int"@[0] == 't' && "to_int"@[1] == 'o' && "to_int"@[3] == 'i',
        "to_float"@.len() == 8 && "to_float"@[0] == 't' && "to_float"@[1] == 'o' && "to_float"@[3] == 'f',
        "abs"@.len() == 3 && "abs"@[0] == 'a' && "abs"@[1] == 'b',
        "max"@.len() == 3 && "max"@[0] == 'm' && "max"@[1] == 'a',
        "min"@.len() == 3 && "min"@[0] == 'm' && "min"@[1] == 'i',
        "json_parse"@.len() == 10 && "json_parse"@[0] == 'j' && "json_parse"@[1] == 's' && "json_parse"@[3] == 'n',
        "json_stringify"@.len() == 14 && "json_stringify"@[0] == 'j' && "json_stringify"@[1] == 's' && "json_stringify"@[3] == 'n',
{
    reveal_strlit("print");
    reveal_strlit("len");
    reveal_strlit("append");
    reveal_strlit("clone");
    reveal_strlit("copy");
    reveal_strlit("contains");
    reveal_strlit("index_of");
    reveal_strlit("keys");
    reveal_strlit("values");
    reveal_strlit("has_key");
    reveal_strlit("type_of");
    reveal_strlit("assert");
    reveal_strlit("is_int");
    reveal_strlit("is_float");
    reveal_strlit("is_str");
    reveal_strlit("is_bool");
    reveal_strlit("is_list");
    reveal_strlit("is_dict");
    reveal_strlit("is_null");
    reveal_strlit("to_str");
    reveal_strlit("to_int");
    reveal_strlit("to_float");
    reveal_strlit("abs");
    reveal_strlit("max");
    reveal_strlit("min");
    reveal_strlit("json_parse");
    reveal_strlit("json_stringify");
}

proof fn lemma_longer_names()
    ensures
        "read_file"@.len() == 9,
        "http_get"@.len() == 8,
        "write_file"@.len() == 10,
        "http_post"@.len() == 9,
        "sys.run"@.len() == 7,
        "server.listen"@.len() == 13,
        "server.poll"@.len() == 11,
        "server.respond"@.len() == 14,
        "ptr.alloc"@.len() == 9,
        "ptr.free"@.len() == 8,
        "ptr.is_null"@.len() == 11,
        "ptr.is_valid"@.len() == 12,
        "ptr.size"@.len() == 8,
        "ptr.read_int"@.len() == 12,
        "ptr.read_byte"@.len() == 13,
        "ptr.read_float"@.len() == 14,
        "ptr.write_int"@.len() == 13,
        "ptr.write_byte"@.len() == 14,
        "ptr.write_float"@.len() == 15,
        "file_exists"@.len() == 11,
        "str_contains"@.len() == 12,
        "str_replace"@.len() == 11,
        "regex.replace"@.len() == 13,
        "str_trim"@.len() == 8,
{
    reveal_strlit("read_file");
    reveal_strlit("http_get");
    reveal_strlit("write_file");
    reveal_strlit("http_post");
    reveal_strlit("sys.run");
    reveal_strlit("server.listen");
    reveal_strlit("server.poll");
    reveal_strlit("server.respond");
    reveal_strlit("ptr.alloc");
    reveal_strlit("ptr.free");
    reveal_strlit("ptr.is_null");
    reveal_strlit("ptr.is_valid");
    reveal_strlit("ptr.size");
    reveal_strlit("ptr.read_int");
    reveal_strlit("ptr.read_byte");
    reveal_strlit("ptr.read_float");
    reveal_strlit("ptr.write_int");
    reveal_strlit("ptr.write_byte");
    reveal_strlit("ptr.write_float");
    reveal_strlit("file_exists");
    reveal_strlit("str_contains");
    reveal_strlit("str_replace");
    reveal_strlit("regex.replace");
    reveal_strlit("str_trim");
}

/// What a function of values gives has the type in its signature.
proof fn lemma_result(p: PlaceV, name: Seq<char>, a: Seq<ValueV>, v: ValueV)
    requires
        value_fn(p, name, a) == Some(OutV::Value(v)),
        name != "json_parse"@,
    ensures
        sig_of(name) is Some,
        match sig_of(name)->0.ret {
            Ret::Is(t) => has(v, t),
            Ret::First => a.len() >= 1 && v == a[0],
            Ret::Abs => a.len() >= 1 && (a[0] is Int ==> v is Int) && (a[0] is Float ==> v is Float),
            Ret::Pair => a.len() >= 2 && a[0] is Int && a[1] is Int && v is Int,
            _ => false,
        },
{
    lemma_names();
    lemma_longer_names();
    assert(sig_of(name) is Some);
}

/// A call that is accepted gives a value of the type found for it: where the arguments have the types
/// found for them, so does what a function of values comes to. What `json_parse` gives is known only
/// when it runs.
pub proof fn law_results_have_their_type(
    cx: CxV,
    st: StV,
    st2: StV,
    name: Seq<char>,
    args: Seq<TyRes>,
    res: TyRes,
    span: Span,
    p: PlaceV,
    a: Seq<ValueV>,
    v: ValueV,
)
    requires
        name != "json_parse"@,
        builtin_ty(cx, st, name, args, span) == Ok::<(TyRes, StV), ErrV>((res, st2)),
        a.len() == args.len(),
        forall|i: int| 0 <= i < a.len() ==> has(#[trigger] a[i], args[i].ty),
        value_fn(p, name, a) == Some(OutV::Value(v)),
    ensures
        has(v, res.ty),
{
    lemma_result(p, name, a, v);
    let sig = sig_of(name)->0;
    if a.len() >= 1 {
        assert(has(a[0], args[0].ty));
    }
    if a.len() >= 2 {
        assert(has(a[1], args[1].ty));
    }
}

} // verus!
