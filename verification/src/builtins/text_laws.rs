//! What holds of the built-in functions of texts and paths, called by their names.

use vstd::prelude::*;

use super::path::{
    last_part, last_sep, lead, parent_path, part_start, prefix, trimmed_path, with_part,
};
use super::system::{path_fn, path_join_from, text_fn};
use super::world::{OutV, PlaceV};
use super::{called, need, value_fn, WorldV};
use crate::text::replaced_word;
use crate::value::ValueV;
use crate::words::{drop_white, has_sub, skip_white, white};

verus! {

proof fn lemma_value_names()
    ensures
        "print"@.len() == 5 && "print"@[0] == 'p' && "print"@[1] == 'r',
        "len"@.len() == 3 && "len"@[0] == 'l' && "len"@[1] == 'e',
        "append"@.len() == 6 && "append"@[0] == 'a' && "append"@[1] == 'p',
        "clone"@.len() == 5 && "clone"@[0] == 'c' && "clone"@[1] == 'l',
        "copy"@.len() == 4 && "copy"@[0] == 'c' && "copy"@[1] == 'o',
        "contains"@.len() == 8 && "contains"@[0] == 'c' && "contains"@[1] == 'o',
        "index_of"@.len() == 8 && "index_of"@[0] == 'i' && "index_of"@[1] == 'n',
        "keys"@.len() == 4 && "keys"@[0] == 'k' && "keys"@[1] == 'e',
        "values"@.len() == 6 && "values"@[0] == 'v' && "values"@[1] == 'a',
        "has_key"@.len() == 7 && "has_key"@[0] == 'h' && "has_key"@[1] == 'a',
        "type_of"@.len() == 7 && "type_of"@[0] == 't' && "type_of"@[1] == 'y',
        "assert"@.len() == 6 && "assert"@[0] == 'a' && "assert"@[1] == 's',
        "is_int"@.len() == 6 && "is_int"@[0] == 'i' && "is_int"@[1] == 's',
        "is_float"@.len() == 8 && "is_float"@[0] == 'i' && "is_float"@[1] == 's',
        "is_str"@.len() == 6 && "is_str"@[0] == 'i' && "is_str"@[1] == 's',
        "is_bool"@.len() == 7 && "is_bool"@[0] == 'i' && "is_bool"@[1] == 's',
        "is_list"@.len() == 7 && "is_list"@[0] == 'i' && "is_list"@[1] == 's',
        "is_dict"@.len() == 7 && "is_dict"@[0] == 'i' && "is_dict"@[1] == 's',
        "is_null"@.len() == 7 && "is_null"@[0] == 'i' && "is_null"@[1] == 's',
        "to_str"@.len() == 6 && "to_str"@[0] == 't' && "to_str"@[1] == 'o',
        "to_int"@.len() == 6 && "to_int"@[0] == 't' && "to_int"@[1] == 'o',
        "to_float"@.len() == 8 && "to_float"@[0] == 't' && "to_float"@[1] == 'o',
        "abs"@.len() == 3 && "abs"@[0] == 'a' && "abs"@[1] == 'b',
        "max"@.len() == 3 && "max"@[0] == 'm' && "max"@[1] == 'a',
        "min"@.len() == 3 && "min"@[0] == 'm' && "min"@[1] == 'i',
        "json_parse"@.len() == 10 && "json_parse"@[0] == 'j' && "json_parse"@[1] == 's',
        "json_stringify"@.len() == 14 && "json_stringify"@[0] == 'j' && "json_stringify"@[1] == 's',
{
    reveal_strlit("print");
    reveal_strlit("len");
    reveal_strlit("append");
    reveal_strlit("clone");
    reveal_strlit("copy");
    reveal_strlit("contains");
    reveal_strlit("index_of");
    reveal_strlit("keys");
    reveal_strlit("values");
    reveal_strlit("has_key");
    reveal_strlit("type_of");
    reveal_strlit("assert");
    reveal_strlit("is_int");
    reveal_strlit("is_float");
    reveal_strlit("is_str");
    reveal_strlit("is_bool");
    reveal_strlit("is_list");
    reveal_strlit("is_dict");
    reveal_strlit("is_null");
    reveal_strlit("to_str");
    reveal_strlit("to_int");
    reveal_strlit("to_float");
    reveal_strlit("abs");
    reveal_strlit("max");
    reveal_strlit("min");
    reveal_strlit("json_parse");
    reveal_strlit("json_stringify");
}

proof fn lemma_text_names()
    ensures
        "str_trim"@.len() == 8 && "str_trim"@[0] == 's' && "str_trim"@[1] == 't',
        "str_contains"@.len() == 12 && "str_contains"@[0] == 's' && "str_contains"@[1] == 't',
        "str_replace"@.len() == 11 && "str_replace"@[0] == 's' && "str_replace"@[1] == 't',
        "path.join"@.len() == 9 && "path.join"@[0] == 'p' && "path.join"@[1] == 'a',
        "path.dirname"@.len() == 12 && "path.dirname"@[0] == 'p' && "path.dirname"@[1] == 'a',
        "path.basename"@.len() == 13 && "path.basename"@[0] == 'p' && "path.basename"@[1] == 'a',
{
    reveal_strlit("str_trim");
    reveal_strlit("str_contains");
    reveal_strlit("str_replace");
    reveal_strlit("path.join");
    reveal_strlit("path.dirname");
    reveal_strlit("path.basename");
}

proof fn lemma_system_names()
    ensures
        "read_file"@.len() == 9 && "read_file"@[0] == 'r' && "read_file"@[1] == 'e',
        "file_exists"@.len() == 11 && "file_exists"@[0] == 'f' && "file_exists"@[1] == 'i',
        "write_file"@.len() == 10 && "write_file"@[0] == 'w' && "write_file"@[1] == 'r',
        "time.now"@.len() == 8 && "time.now"@[0] == 't' && "time.now"@[1] == 'i',
        "time.format"@.len() == 11 && "time.format"@[0] == 't' && "time.format"@[1] == 'i',
        "time.sleep"@.len() == 10 && "time.sleep"@[0] == 't' && "time.sleep"@[1] == 'i',
        "time.parse"@.len() == 10 && "time.parse"@[0] == 't' && "time.parse"@[1] == 'i',
        "http_get"@.len() == 8 && "http_get"@[0] == 'h' && "http_get"@[1] == 't',
        "http_post"@.len() == 9 && "http_post"@[0] == 'h' && "http_post"@[1] == 't',
        "env.set"@.len() == 7 && "env.set"@[0] == 'e' && "env.set"@[1] == 'n',
        "sys.run"@.len() == 7 && "sys.run"@[0] == 's' && "sys.run"@[1] == 'y',
        "sys.get_env"@.len() == 11 && "sys.get_env"@[0] == 's' && "sys.get_env"@[1] == 'y',
        "env.get"@.len() == 7 && "env.get"@[0] == 'e' && "env.get"@[1] == 'n',
        "sys.msgbox"@.len() == 10 && "sys.msgbox"@[0] == 's' && "sys.msgbox"@[1] == 'y',
        "sys.beep"@.len() == 8 && "sys.beep"@[0] == 's' && "sys.beep"@[1] == 'y',
        "sys.clipboard_set"@.len() == 17 && "sys.clipboard_set"@[0] == 's' && "sys.clipboard_set"@[1] == 'y',
        "sys.get_screen_size"@.len() == 19 && "sys.get_screen_size"@[0] == 's' && "sys.get_screen_size"@[1] == 'y',
        "sys.reg_read"@.len() == 12 && "sys.reg_read"@[0] == 's' && "sys.reg_read"@[1] == 'y',
        "sys.reg_write"@.len() == 13 && "sys.reg_write"@[0] == 's' && "sys.reg_write"@[1] == 'y',
        "log.info"@.len() == 8 && "log.info"@[0] == 'l' && "log.info"@[1] == 'o',
        "log.warn"@.len() == 8 && "log.warn"@[0] == 'l' && "log.warn"@[1] == 'o',
        "log.error"@.len() == 9 && "log.error"@[0] == 'l' && "log.error"@[1] == 'o',
        "log.debug"@.len() == 9 && "log.debug"@[0] == 'l' && "log.debug"@[1] == 'o',
{
    reveal_strlit("read_file");
    reveal_strlit("file_exists");
    reveal_strlit("write_file");
    reveal_strlit("time.now");
    reveal_strlit("time.format");
    reveal_strlit("time.sleep");
    reveal_strlit("time.parse");
    reveal_strlit("http_get");
    reveal_strlit("http_post");
    reveal_strlit("env.set");
    reveal_strlit("sys.run");
    reveal_strlit("sys.get_env");
    reveal_strlit("env.get");
    reveal_strlit("sys.msgbox");
    reveal_strlit("sys.beep");
    reveal_strlit("sys.clipboard_set");
    reveal_strlit("sys.get_screen_size");
    reveal_strlit("sys.reg_read");
    reveal_strlit("sys.reg_write");
    reveal_strlit("log.info");
    reveal_strlit("log.warn");
    reveal_strlit("log.error");
    reveal_strlit("log.debug");
}

proof fn lemma_texts(w: WorldV, p: PlaceV, a: Seq<ValueV>)
    ensures
        called(w, p, "str_trim"@, a) == (w, need(p, "str_trim"@, a, 1, text_fn(p, "str_trim"@, a))),
        called(w, p, "str_contains"@, a) == (w, need(p, "str_contains"@, a, 2, text_fn(p, "str_contains"@, a))),
        called(w, p, "str_replace"@, a) == (w, need(p, "str_replace"@, a, 3, text_fn(p, "str_replace"@, a))),
        "str_contains"@ != "str_trim"@ && "str_replace"@ != "str_trim"@ && "str_replace"@ != "str_contains"@,
{
    reveal(called);
    lemma_value_names();
    lemma_text_names();
    lemma_system_names();
    assert(value_fn(p, "str_trim"@, a) is None);
    assert(value_fn(p, "str_contains"@, a) is None);
    assert(value_fn(p, "str_replace"@, a) is None);
}

proof fn lemma_paths(w: WorldV, p: PlaceV, a: Seq<ValueV>)
    ensures
        called(w, p, "path.join"@, a) == (w, path_join_from(p, a, 0, Seq::empty())),
        called(w, p, "path.dirname"@, a) == (w, need(p, "path.dirname"@, a, 1, path_fn(p, "path.dirname"@, a))),
        called(w, p, "path.basename"@, a) == (w, need(p, "path.basename"@, a, 1, path_fn(p, "path.basename"@, a))),
        "path.basename"@ != "path.dirname"@,
{
    reveal(called);
    lemma_value_names();
    lemma_text_names();
    lemma_system_names();
    assert(value_fn(p, "path.join"@, a) is None);
    assert(value_fn(p, "path.dirname"@, a) is None);
    assert(value_fn(p, "path.basename"@, a) is None);
}

/// Whether a text is white space.
pub open spec fn all_white(s: Seq<char>) -> bool {
    forall|i: int| 0 <= i < s.len() ==> white(#[trigger] s[i])
}

proof fn lemma_skip(front: Seq<char>, rest: Seq<char>)
    requires
        all_white(front),
        rest.len() > 0 ==> !white(rest[0]),
    ensures
        skip_white(front + rest) == rest,
    decreases front.len(),
{
    let s = front + rest;
    if front.len() > 0 {
        assert(white(front[0]));
        assert(s[0] == front[0]);
        assert(s.skip(1) =~= front.skip(1) + rest);
        assert(all_white(front.skip(1))) by {
            assert forall|i: int| 0 <= i < front.skip(1).len() implies white(#[trigger] front.skip(1)[i]) by {
                assert(white(front[i + 1]));
            }
        }
        lemma_skip(front.skip(1), rest);
    } else {
        assert(s =~= rest);
    }
}

proof fn lemma_drop(core: Seq<char>, back: Seq<char>)
    requires
        all_white(back),
        core.len() > 0 ==> !white(core.last()),
    ensures
        drop_white(core + back) == core,
    decreases back.len(),
{
    let s = core + back;
    if back.len() > 0 {
        assert(white(back.last()));
        assert(s.last() == back.last());
        assert(s.drop_last() =~= core + back.drop_last());
        assert(all_white(back.drop_last())) by {
            assert forall|i: int| 0 <= i < back.drop_last().len() implies white(#[trigger] back.drop_last()[i]) by {
                assert(white(back[i]));
            }
        }
        lemma_drop(core, back.drop_last());
    } else {
        assert(s =~= core);
    }
}

/// Trimming takes the white space off both ends of a text, and nothing else.
pub proof fn law_trim(w: WorldV, p: PlaceV, front: Seq<char>, core: Seq<char>, back: Seq<char>)
    requires
        all_white(front),
        all_white(back),
        core.len() > 0,
        !white(core[0]),
        !white(core.last()),
    ensures
        called(w, p, "str_trim"@, seq![ValueV::Str(front + core + back)]) == (w, OutV::Value(ValueV::Str(core))),
{
    let s = front + core + back;
    lemma_texts(w, p, seq![ValueV::Str(s)]);
    assert(s =~= front + (core + back));
    lemma_skip(front, core + back);
    lemma_drop(core, back);
}

/// A text is found in another exactly where that falls into three parts of which it is the middle one.
pub proof fn law_str_contains(w: WorldV, p: PlaceV, front: Seq<char>, t: Seq<char>, back: Seq<char>, s: Seq<char>)
    ensures
        called(w, p, "str_contains"@, seq![ValueV::Str(front + t + back), ValueV::Str(t)]) == (
            w,
            OutV::Value(ValueV::Bool(true)),
        ),
        (forall|x: Seq<char>, y: Seq<char>| s != #[trigger] (x + t + y)) ==> called(
            w,
            p,
            "str_contains"@,
            seq![ValueV::Str(s), ValueV::Str(t)],
        ) == (w, OutV::Value(ValueV::Bool(false))),
{
    let all = front + t + back;
    lemma_texts(w, p, seq![ValueV::Str(all), ValueV::Str(t)]);
    lemma_texts(w, p, seq![ValueV::Str(s), ValueV::Str(t)]);
    assert(all.subrange(front.len() as int, front.len() as int + t.len()) =~= t);
    assert(has_sub(all, t));
    if (forall|x: Seq<char>, y: Seq<char>| s != #[trigger] (x + t + y)) && has_sub(s, t) {
        let i = choose|i: int| 0 <= i && i + t.len() <= s.len() && #[trigger] s.subrange(i, i + t.len()) == t;
        assert(s =~= s.take(i) + s.subrange(i, i + t.len()) + s.skip(i + t.len()));
        assert(s == s.take(i) + t + s.skip(i + t.len()));
    }
}

proof fn lemma_no_word(s: Seq<char>, t: Seq<char>, u: Seq<char>)
    requires
        t.len() > 0,
        !has_sub(s, t),
    ensures
        replaced_word(s, t, u) == s,
    decreases s.len(),
{
    if s.len() >= t.len() {
        assert(s.subrange(0, 0int + t.len()) =~= s.take(t.len() as int));
        assert(s.take(t.len() as int) != t);
        let r = s.skip(1);
        if has_sub(r, t) {
            let i = choose|i: int| 0 <= i && i + t.len() <= r.len() && #[trigger] r.subrange(i, i + t.len()) == t;
            assert(s.subrange(i + 1, i + 1 + t.len()) =~= r.subrange(i, i + t.len()));
        }
        lemma_no_word(r, t, u);
        assert(seq![s[0]] + r =~= s);
    }
}

proof fn lemma_first_word(front: Seq<char>, t: Seq<char>, back: Seq<char>, u: Seq<char>)
    requires
        t.len() > 0,
        forall|i: int|
            0 <= i < front.len() ==> #[trigger] (front + t + back).subrange(i, i + t.len()) != t,
    ensures
        replaced_word(front + t + back, t, u) == front + u + replaced_word(back, t, u),
    decreases front.len(),
{
    let s = front + t + back;
    let n = t.len() as int;
    if front.len() == 0 {
        assert(s.take(n) =~= t);
        assert(s.skip(n) =~= back);
        assert(u + replaced_word(back, t, u) =~= front + u + replaced_word(back, t, u));
    } else {
        let f = front.skip(1);
        let r = f + t + back;
        assert(s.subrange(0, 0int + t.len()) =~= s.take(n));
        assert(s.take(n) != t);
        assert(s.skip(1) =~= r);
        assert forall|i: int| 0 <= i < f.len() implies #[trigger] r.subrange(i, i + t.len()) != t by {
            assert(s.subrange(i + 1, i + 1 + t.len()) =~= r.subrange(i, i + t.len()));
        }
        lemma_first_word(f, t, back, u);
        assert(seq![front[0]] + (f + u + replaced_word(back, t, u)) =~= front + u + replaced_word(back, t, u));
    }
}

/// Replacing leaves a text alone that does not hold what is replaced; otherwise it puts the new text in
/// the place of the first occurrence and goes on behind it.
pub proof fn law_replace(
    w: WorldV,
    p: PlaceV,
    s: Seq<char>,
    front: Seq<char>,
    t: Seq<char>,
    back: Seq<char>,
    u: Seq<char>,
    rest: Seq<char>,
)
    requires
        t.len() > 0,
    ensures
        !has_sub(s, t) ==> called(w, p, "str_replace"@, seq![ValueV::Str(s), ValueV::Str(t), ValueV::Str(u)]) == (
            w,
            OutV::Value(ValueV::Str(s)),
        ),
        (forall|i: int| 0 <= i < front.len() ==> #[trigger] (front + t + back).subrange(i, i + t.len()) != t) && called(
            w,
            p,
            "str_replace"@,
            seq![ValueV::Str(back), ValueV::Str(t), ValueV::Str(u)],
        ).1 == OutV::Value(ValueV::Str(rest)) ==> called(
            w,
            p,
            "str_replace"@,
            seq![ValueV::Str(front + t + back), ValueV::Str(t), ValueV::Str(u)],
        ) == (w, OutV::Value(ValueV::Str(front + u + rest))),
{
    lemma_texts(w, p, seq![ValueV::Str(s), ValueV::Str(t), ValueV::Str(u)]);
    lemma_texts(w, p, seq![ValueV::Str(back), ValueV::Str(t), ValueV::Str(u)]);
    lemma_texts(w, p, seq![ValueV::Str(front + t + back), ValueV::Str(t), ValueV::Str(u)]);
    if !has_sub(s, t) {
        lemma_no_word(s, t, u);
    }
    if forall|i: int| 0 <= i < front.len() ==> #[trigger] (front + t + back).subrange(i, i + t.len()) != t {
        lemma_first_word(front, t, back, u);
    }
}

/// Whether a text names one part of a path, and neither the directory itself nor the one above it.
pub open spec fn part_name(s: Seq<char>) -> bool {
    &&& s.len() > 0
    &&& s != seq!['.']
    &&& s != seq!['.', '.']
    &&& forall|i: int| 0 <= i < s.len() ==> #[trigger] s[i] != '/'
}

proof fn lemma_last_sep(s: Seq<char>, k: int, n: int)
    requires
        0 <= k < n <= s.len(),
        s[k] == '/',
        forall|i: int| k < i < n ==> #[trigger] s[i] != '/',
    ensures
        last_sep(false, s, n) == Some(k),
    decreases n,
{
    if k < n - 1 {
        assert(s[n - 1] != '/');
        lemma_last_sep(s, k, n - 1);
    }
}

/// Joining puts a part behind a directory, and taking the path apart gives both back. The directory is
/// one of a system whose separator is `/`, and does not end in a separator or in a dot part.
pub proof fn law_paths_come_apart(w: WorldV, p: PlaceV, dir: Seq<char>, part: Seq<char>)
    requires
        !p.windows,
        dir.len() > 0,
        dir.last() != '/',
        dir.len() > 1 ==> !(dir.last() == '.' && dir[dir.len() - 2] == '/'),
        part_name(part),
    ensures
        ({
            let r = called(w, p, "path.join"@, seq![ValueV::Str(dir), ValueV::Str(part)]);
            &&& r == (w, OutV::Value(ValueV::Str(dir + seq!['/'] + part)))
            &&& called(w, p, "path.dirname"@, seq![ValueV::Str(dir + seq!['/'] + part)]) == (
                w,
                OutV::Value(ValueV::Str(dir)),
            )
            &&& called(w, p, "path.basename"@, seq![ValueV::Str(dir + seq!['/'] + part)]) == (
                w,
                OutV::Value(ValueV::Str(part)),
            )
        }),
{
    let t = dir + seq!['/'] + part;
    let a = seq![ValueV::Str(dir), ValueV::Str(part)];
    lemma_paths(w, p, a);
    lemma_paths(w, p, seq![ValueV::Str(t)]);
    reveal_strlit("/");
    assert("/"@ =~= seq!['/']);
    assert(part[0] != '/');
    // The parts are joined one after the other, the first to nothing.
    assert(with_part(false, Seq::empty(), dir) == dir) by {
        assert(Seq::<char>::empty().take(0) + dir =~= dir);
        assert(Seq::<char>::empty() + dir =~= dir);
        assert(prefix(false, Seq::empty()) == 0);
    }
    assert(with_part(false, dir, part) == t);
    assert(path_join_from(p, a, 2, t) == OutV::Value(ValueV::Str(t)));
    assert(path_join_from(p, a, 1, dir) == path_join_from(p, a, 2, t));
    assert(path_join_from(p, a, 0, Seq::empty()) == path_join_from(p, a, 1, dir));
    // The last separator is the one between them.
    let k = dir.len() as int;
    let n = t.len() as int;
    assert(t[k] == '/');
    assert forall|i: int| k < i < n implies #[trigger] t[i] != '/' by {
        assert(t[i] == part[i - k - 1]);
    }
    lemma_last_sep(t, k, n);
    assert(t[n - 1] == part.last());
    if part.len() >= 2 {
        assert(t[n - 2] == part[part.len() - 2]);
    } else {
        assert(part =~= seq![part[0]]);
    }
    assert(t[0] == dir[0]);
    assert(lead(false, t) <= 1 && lead(false, t) <= k);
    assert(trimmed_path(false, t) == t);
    assert(part_start(false, t) == k + 1);
    assert(t.skip(k + 1) =~= part);
    assert(t.take(k) =~= dir);
    assert(trimmed_path(false, dir) == dir);
    reveal_strlit("..");
    assert(".."@ =~= seq!['.', '.']);
    assert(last_part(false, t) == part);
    assert(parent_path(false, t) == dir);
}

} // verus!
