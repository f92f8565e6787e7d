//! The kept state of a script: where it lies, and what of it is still good.

use vstd::prelude::*;
use vstd::utf8::encode_utf8;

use crate::builtins::digest::{sha256_hex, sha256_text};
use crate::builtins::json::{json_read, json_top, pairs_v, Json, JsonV};
use crate::text::{cat2, chars, eq, slice};

verus! {

/// The name of the state file of a script.
pub open spec fn state_name(hash: Seq<char>) -> Seq<char> {
    (if hash.len() > 16 {
        hash.take(16)
    } else {
        hash
    }) + ".json"@
}

/// The name of the state file that belongs to the digest of a path.
pub fn name_state(hash: &str) -> (r: String)
    ensures
        r@ == state_name(hash@),
{
    let v = chars(hash);
    if v.len() > 16 {
        let t = slice(&v, 0, 16);
        assert(t@ =~= hash@.take(16));
        cat2(t.as_str(), ".json")
    } else {
        cat2(hash, ".json")
    }
}

/// The name of the state file of the script at a path.
pub fn state_file_name(path: &str) -> (r: String)
    ensures
        r@ == state_name(sha256_text(encode_utf8(path@))),
{
    let h = sha256_hex(path.as_bytes());
    name_state(h.as_str())
}

/// What a kept state is held against: the digest of the script.
pub fn script_hash(src: &str) -> (r: String)
    ensures
        r@ == sha256_text(encode_utf8(src@)),
{
    sha256_hex(src.as_bytes())
}

/// The member of a name among members from the `i`-th on.
pub open spec fn member(ps: Seq<(Seq<char>, Seq<char>)>, k: Seq<char>, i: int) -> Option<Seq<char>>
    decreases ps.len() - i,
{
    if i < 0 || i >= ps.len() {
        None
    } else if ps[i].0 == k {
        Some(ps[i].1)
    } else {
        member(ps, k, i + 1)
    }
}

/// The member of a name in the outermost level of a JSON text.
pub open spec fn member_of(j: JsonV, k: Seq<char>) -> Option<Seq<char>> {
    match j {
        JsonV::Obj(ps) => member(ps, k, 0),
        _ => None,
    }
}

/// The member of a name in the outermost level of a JSON text.
pub fn find_member(j: &Json, k: &str) -> (r: Option<String>)
    ensures
        crate::error::opt_text(r) == member_of(j@, k@),
{
    match j {
        Json::Obj(ps) => {
            let mut i: usize = 0;
            while i < ps.len()
                invariant
                    i <= ps.len(),
                    j@ == JsonV::Obj(pairs_v(ps@)),
                    member(pairs_v(ps@), k@, 0) == member(pairs_v(ps@), k@, i as int),
                decreases ps.len() - i,
            {
                assert(pairs_v(ps@)[i as int] == (ps@[i as int].0@, ps@[i as int].1@));
                if eq(ps[i].0.as_str(), k) {
                    return Some(ps[i].1.clone());
                }
                i = i + 1;
            }
            None
        },
        _ => None,
    }
}

/// Whether a JSON text that was read is a text.
pub open spec fn is_text(j: Result<JsonV, Seq<char>>, t: Seq<char>) -> bool {
    match j {
        Ok(JsonV::Str(s)) => s == t,
        _ => false,
    }
}

/// The texts of all members from the `i`-th on, behind those that are done; nothing where one
/// is no text.
pub open spec fn texts_from(
    ps: Seq<(Seq<char>, Seq<char>)>,
    i: int,
    done: Seq<(Seq<char>, Seq<char>)>,
) -> Seq<(Seq<char>, Seq<char>)>
    decreases ps.len() - i,
{
    if i < 0 || i >= ps.len() {
        done
    } else {
        match json_top(ps[i].1) {
            Ok(JsonV::Str(s)) => texts_from(ps, i + 1, done.push((ps[i].0, s))),
            _ => Seq::empty(),
        }
    }
}

/// The store of a kept state, where it is one of this script; nothing otherwise.
pub open spec fn saved(text: Seq<char>, hash: Seq<char>) -> Seq<(Seq<char>, Seq<char>)> {
    match json_top(text) {
        Err(_) => Seq::empty(),
        Ok(j) => match member_of(j, "script"@) {
            None => Seq::empty(),
            Some(s) => if !is_text(json_top(s), hash) {
                Seq::empty()
            } else {
                match member_of(j, "kv"@) {
                    None => Seq::empty(),
                    Some(k) => match json_top(k) {
                        Ok(JsonV::Obj(ps)) => texts_from(ps, 0, Seq::empty()),
                        _ => Seq::empty(),
                    },
                }
            },
        },
    }
}

fn read_texts(ps: &Vec<(String, String)>) -> (r: Vec<(String, String)>)
    ensures
        pairs_v(r@) == texts_from(pairs_v(ps@), 0, Seq::empty()),
{
    let mut out: Vec<(String, String)> = Vec::new();
    assert(pairs_v(out@) =~= Seq::empty());
    let ghost goal = texts_from(pairs_v(ps@), 0, Seq::empty());
    let mut i: usize = 0;
    while i < ps.len()
        invariant
            i <= ps.len(),
            goal == texts_from(pairs_v(ps@), 0, Seq::empty()),
            texts_from(pairs_v(ps@), i as int, pairs_v(out@)) == goal,
        decreases ps.len() - i,
    {
        assert(pairs_v(ps@)[i as int] == (ps@[i as int].0@, ps@[i as int].1@));
        match json_read(ps[i].1.as_str()) {
            Ok(Json::Str(s)) => {
                let ghost was = pairs_v(out@);
                out.push((ps[i].0.clone(), s));
                assert(pairs_v(out@) =~= was.push((ps@[i as int].0@, s@)));
            },
            _ => {
                let none: Vec<(String, String)> = Vec::new();
                assert(pairs_v(none@) =~= Seq::empty());
                return none;
            },
        }
        i = i + 1;
    }
    out
}

/// The store of a kept state, where it is one of the script with this digest; nothing where
/// it is not, or where the text is damaged.
pub fn read_state(text: &str, hash: &str) -> (r: Vec<(String, String)>)
    ensures
        pairs_v(r@) == saved(text@, hash@),
{
    let none: Vec<(String, String)> = Vec::new();
    assert(pairs_v(none@) =~= Seq::empty());
    let j = match json_read(text) {
        Ok(j) => j,
        Err(_) => {
            return none;
        },
    };
    let s = match find_member(&j, "script") {
        Some(s) => s,
        None => {
            return none;
        },
    };
    match json_read(s.as_str()) {
        Ok(Json::Str(t)) => if !eq(t.as_str(), hash) {
            return none;
        },
        _ => {
            return none;
        },
    }
    let k = match find_member(&j, "kv") {
        Some(k) => k,
        None => {
            return none;
        },
    };
    match json_read(k.as_str()) {
        Ok(Json::Obj(ps)) => read_texts(&ps),
        _ => none,
    }
}

/// Nothing is taken from a state that was kept for another script.
pub proof fn law_changed_script_starts_anew(text: Seq<char>, hash: Seq<char>)
    requires
        match json_top(text) {
            Ok(j) => match member_of(j, "script"@) {
                Some(s) => !is_text(json_top(s), hash),
                None => true,
            },
            Err(_) => true,
        },
    ensures
        saved(text, hash) == Seq::<(Seq<char>, Seq<char>)>::empty(),
{
}

} // verus!
