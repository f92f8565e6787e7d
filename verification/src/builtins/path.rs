//! Paths as texts, with parts between slashes; on Windows, between backslashes too and behind
//! a drive or the name of a share.

use vstd::prelude::*;

use crate::text::{chars, eq, slice};
use crate::words::{find_last, last_pos};

verus! {

/// Whether a character stands between the parts of a path.
pub open spec fn sep(windows: bool, c: char) -> bool {
    c == '/' || (windows && c == '\\')
}

pub(crate) fn is_sep(windows: bool, c: char) -> (r: bool)
    ensures
        r == sep(windows, c),
{
    c == '/' || (windows && c == '\\')
}

/// The first separator from `i` on, or the end.
pub open spec fn next_sep(windows: bool, s: Seq<char>, i: int) -> int
    decreases s.len() - i,
{
    if i < 0 || i >= s.len() {
        s.len() as int
    } else if sep(windows, s[i]) {
        i
    } else {
        next_sep(windows, s, i + 1)
    }
}

pub(crate) fn find_sep(windows: bool, v: &Vec<char>, i: usize) -> (r: usize)
    requires
        i <= v.len(),
    ensures
        r == next_sep(windows, v@, i as int),
        i <= r <= v.len(),
{
    let mut e: usize = i;
    while e < v.len() && !is_sep(windows, v[e])
        invariant
            i <= e <= v.len(),
            next_sep(windows, v@, i as int) == next_sep(windows, v@, e as int),
        decreases v.len() - e,
    {
        e = e + 1;
    }
    e
}

/// Whether a path starts with a drive.
pub open spec fn has_drive(windows: bool, s: Seq<char>) -> bool {
    windows && s.len() >= 2 && s[1] == ':' && ('a' <= s[0] <= 'z' || 'A' <= s[0] <= 'Z')
}

/// How many characters of a path name a drive, or a server and a share.
pub open spec fn prefix(windows: bool, s: Seq<char>) -> int {
    if has_drive(windows, s) {
        2
    } else if windows && s.len() > 2 && sep(windows, s[0]) && sep(windows, s[1]) {
        let a = next_sep(windows, s, 2);
        let b = next_sep(windows, s, a + 1);
        if 2 < a && a + 1 < b {
            b
        } else {
            0
        }
    } else {
        0
    }
}

pub(crate) fn prefix_len(windows: bool, v: &Vec<char>) -> (r: usize)
    ensures
        r == prefix(windows, v@),
        r <= v.len(),
{
    if windows && v.len() >= 2 && v[1] == ':' && (('a' <= v[0] && v[0] <= 'z') || ('A' <= v[0] && v[0] <= 'Z')) {
        2
    } else if windows && v.len() > 2 && is_sep(windows, v[0]) && is_sep(windows, v[1]) {
        let a = find_sep(windows, v, 2);
        if a >= v.len() {
            return 0;
        }
        let b = find_sep(windows, v, a + 1);
        if 2 < a && a + 1 < b {
            b
        } else {
            0
        }
    } else {
        0
    }
}

/// A path with a part behind it: an absolute part takes its place, and one that starts at the
/// root stays on the drive.
pub open spec fn with_part(windows: bool, p: Seq<char>, s: Seq<char>) -> Seq<char> {
    if prefix(windows, s) > 0 {
        s
    } else if s.len() > 0 && sep(windows, s[0]) {
        p.take(prefix(windows, p)) + s
    } else if p.len() > 0 && !sep(windows, p.last()) && !(has_drive(windows, p) && p.len() == 2) {
        p + (if windows {
            "\\"@
        } else {
            "/"@
        }) + s
    } else {
        p + s
    }
}

/// A path with a part behind it.
pub fn push_part(windows: bool, p: String, s: &str) -> (r: String)
    ensures
        r@ == with_part(windows, p@, s@),
{
    let v = chars(s);
    let u = chars(p.as_str());
    if prefix_len(windows, &v) > 0 {
        return s.to_owned();
    }
    let n = prefix_len(windows, &u);
    let drive = windows && u.len() == 2 && n == 2;
    assert(drive == (has_drive(windows, u@) && u@.len() == 2));
    if v.len() > 0 && is_sep(windows, v[0]) {
        let mut out = slice(&u, 0, n);
        assert(out@ =~= p@.take(n as int));
        out.append(s);
        out
    } else if u.len() > 0 && !is_sep(windows, u[u.len() - 1]) && !drive {
        let mut out = p;
        out.append(if windows { "\\" } else { "/" });
        out.append(s);
        out
    } else {
        let mut out = p;
        out.append(s);
        out
    }
}

/// How many characters of a path stand before its first part: the drive or the share, and the
/// root slash or the dot that it starts with.
pub open spec fn lead(windows: bool, s: Seq<char>) -> int {
    let k = prefix(windows, s);
    if s.len() > k && (sep(windows, s[k]) || (s[k] == '.' && (s.len() == k + 1 || sep(windows, s[k + 1])))) {
        k + 1
    } else {
        k
    }
}

fn lead_len(windows: bool, v: &Vec<char>, n: usize) -> (k: usize)
    requires
        n <= v.len(),
    ensures
        k == lead(windows, v@.take(n as int)),
        k <= n,
{
    let t = slice(v, 0, n);
    assert(t@ =~= v@.take(n as int));
    let u = chars(t.as_str());
    let k = prefix_len(windows, &u);
    if n > k && (is_sep(windows, u[k]) || (u[k] == '.' && (n == k + 1 || is_sep(windows, u[k + 1])))) {
        k + 1
    } else {
        k
    }
}

/// A path without slashes and dots at its end that name no part.
pub open spec fn trimmed_path(windows: bool, s: Seq<char>) -> Seq<char>
    decreases s.len(),
{
    let n = s.len() as int;
    if n > 0 && n > lead(windows, s) && (sep(windows, s[n - 1]) || (s[n - 1] == '.' && n >= 2 && sep(
        windows,
        s[n - 2],
    ))) {
        trimmed_path(windows, s.drop_last())
    } else {
        s
    }
}

fn trim_path(windows: bool, v: &Vec<char>, end: usize) -> (n: usize)
    requires
        end <= v.len(),
    ensures
        n <= end,
        v@.take(n as int) == trimmed_path(windows, v@.take(end as int)),
{
    let mut n: usize = end;
    loop
        invariant
            n <= end <= v.len(),
            trimmed_path(windows, v@.take(n as int)) == trimmed_path(windows, v@.take(end as int)),
        decreases n,
    {
        let k = lead_len(windows, v, n);
        if n > 0 && n > k && (is_sep(windows, v[n - 1]) || (v[n - 1] == '.' && n >= 2 && is_sep(windows, v[n - 2]))) {
            assert(v@.take(n as int).drop_last() =~= v@.take(n - 1));
            n = n - 1;
        } else {
            return n;
        }
    }
}

/// The last separator among the first `n` characters.
pub open spec fn last_sep(windows: bool, s: Seq<char>, n: int) -> Option<int>
    decreases n,
{
    if n <= 0 || n > s.len() {
        None
    } else if sep(windows, s[n - 1]) {
        Some(n - 1)
    } else {
        last_sep(windows, s, n - 1)
    }
}

/// Where the last part of a path starts.
pub open spec fn part_start(windows: bool, t: Seq<char>) -> int {
    match last_sep(windows, t, t.len() as int) {
        Some(i) => if i >= lead(windows, t) {
            i + 1
        } else {
            lead(windows, t)
        },
        None => lead(windows, t),
    }
}

/// The path in front of the last part; a dot where there is none.
pub open spec fn parent_path(windows: bool, s: Seq<char>) -> Seq<char> {
    let t = trimmed_path(windows, s);
    let k = part_start(windows, t);
    let front = if t.len() <= lead(windows, t) {
        Seq::empty()
    } else if k > lead(windows, t) {
        trimmed_path(windows, t.take(k - 1))
    } else {
        t.take(lead(windows, t))
    };
    if front.len() == 0 {
        "."@
    } else {
        front
    }
}

/// The last part of a path; nothing where there is none or it leads upwards.
pub open spec fn last_part(windows: bool, s: Seq<char>) -> Seq<char> {
    let t = trimmed_path(windows, s);
    let n = t.skip(part_start(windows, t));
    if t.len() <= lead(windows, t) || n == ".."@ {
        Seq::empty()
    } else {
        n
    }
}

fn trimmed_chars(windows: bool, s: &str) -> (r: Vec<char>)
    ensures
        r@ == trimmed_path(windows, s@),
{
    let v = chars(s);
    let len: usize = v.len();
    let n: usize = trim_path(windows, &v, len);
    assert(v@.take(len as int) =~= s@);
    let t = slice(&v, 0, n);
    assert(t@ =~= v@.take(n as int));
    chars(t.as_str())
}

fn start_of(windows: bool, t: &Vec<char>) -> (r: (usize, usize))
    ensures
        r.0 == lead(windows, t@),
        r.1 == part_start(windows, t@),
        r.0 <= r.1 <= t.len(),
{
    let n: usize = t.len();
    assert(t@.take(n as int) =~= t@);
    let k = lead_len(windows, t, n);
    let mut i: usize = n;
    while i > 0 && !is_sep(windows, t[i - 1])
        invariant
            i <= n,
            n == t.len(),
            last_sep(windows, t@, i as int) == last_sep(windows, t@, n as int),
        decreases i,
    {
        i = i - 1;
    }
    assert(last_sep(windows, t@, i as int) == (if i == 0 { None } else { Some(i - 1) }));
    if i > 0 && i - 1 >= k {
        (k, i)
    } else {
        (k, k)
    }
}

/// The path in front of the last part.
pub fn dirname(windows: bool, s: &str) -> (r: String)
    ensures
        r@ == parent_path(windows, s@),
{
    let t = trimmed_chars(windows, s);
    let (k, at) = start_of(windows, &t);
    let front = if t.len() <= k {
        String::new()
    } else if at > k {
        let n: usize = trim_path(windows, &t, at - 1);
        let f = slice(&t, 0, n);
        assert(f@ =~= t@.take(n as int));
        f
    } else {
        let f = slice(&t, 0, k);
        assert(f@ =~= t@.take(k as int));
        f
    };
    if front.as_str().is_empty() {
        ".".to_owned()
    } else {
        front
    }
}

/// The last part of a path.
pub fn basename(windows: bool, s: &str) -> (r: String)
    ensures
        r@ == last_part(windows, s@),
{
    let t = trimmed_chars(windows, s);
    let (k, at) = start_of(windows, &t);
    let n: usize = t.len();
    let part = slice(&t, at, n);
    assert(part@ =~= t@.skip(at as int));
    if t.len() <= k || eq(part.as_str(), "..") {
        String::new()
    } else {
        part
    }
}

/// The last part of a path without its ending; nothing where there is none.
pub open spec fn stem_of(windows: bool, path: Seq<char>) -> Seq<char> {
    let f = last_part(windows, path);
    match last_pos(f, '.', f.len() as int) {
        Some(i) => if i <= 0 {
            f
        } else {
            f.take(i)
        },
        None => f,
    }
}

/// The last part of a path without its ending.
pub fn file_stem(windows: bool, path: &str) -> (r: String)
    ensures
        r@ == stem_of(windows, path@),
{
    let f = basename(windows, path);
    let v = chars(f.as_str());
    match find_last(&v, '.') {
        Some(i) => if i == 0 {
            f
        } else {
            let t = slice(&v, 0, i);
            assert(t@ =~= f@.take(i as int));
            t
        },
        None => f,
    }
}

} // verus!
