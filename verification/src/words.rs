//! Searching, trimming, splitting and reading numbers in texts.

use vstd::prelude::*;

use crate::text::{all_digits, chars, is_digit, nat_of, parse_nat, pos_of, slice, stands_at, strs};

verus! {

/// Whether a character is white space: it has the property `White_Space` of Unicode.
pub open spec fn white(c: char) -> bool {
    let n = c as u32;
    ||| 0x9 <= n <= 0xd
    ||| n == 0x20
    ||| n == 0x85
    ||| n == 0xa0
    ||| n == 0x1680
    ||| 0x2000 <= n <= 0x200a
    ||| n == 0x2028
    ||| n == 0x2029
    ||| n == 0x202f
    ||| n == 0x205f
    ||| n == 0x3000
}

/// Whether a character is white space (`char::is_whitespace`): it has the property
/// `White_Space` of Unicode.
pub assume_specification[ char::is_whitespace ](c: char) -> (r: bool)
    ensures
        r == white(c),
;

/// The text in lower case, by Unicode's mapping.
pub uninterp spec fn lowercase(s: Seq<char>) -> Seq<char>;

/// A text in lower case (`str::to_lowercase`): the result depends on the text alone.
/// Which letters map to which is not said.
#[verifier::external_body]
pub(crate) fn to_lowercase(s: &str) -> (r: String)
    ensures
        r@ == lowercase(s@),
{
    s.to_lowercase()
}

/// Whether a text occurs in another one.
pub open spec fn has_sub(s: Seq<char>, sub: Seq<char>) -> bool {
    exists|i: int| 0 <= i && i + sub.len() <= s.len() && #[trigger] s.subrange(i, i + sub.len()) == sub
}

/// Whether a text occurs in another one.
pub fn contains(s: &str, sub: &str) -> (r: bool)
    ensures
        r == has_sub(s@, sub@),
{
    let v = chars(s);
    let w = chars(sub);
    let mut i: usize = 0;
    loop
        invariant
            i <= v.len(),
            v@ == s@,
            w@ == sub@,
            forall|k: int| 0 <= k < i && k + w.len() <= v.len() ==> #[trigger] s@.subrange(k, k + sub@.len()) != sub@,
        decreases v.len() - i,
    {
        if stands_at(&v, i, &w) {
            assert(s@.subrange(i as int, i + sub@.len()) == sub@);
            return true;
        }
        if i == v.len() {
            return false;
        }
        i = i + 1;
    }
}

/// Whether a text starts with another one.
pub open spec fn starts(s: Seq<char>, w: Seq<char>) -> bool {
    w.len() <= s.len() && s.take(w.len() as int) == w
}

/// Whether a text starts with another one.
pub fn starts_with(s: &str, w: &str) -> (r: bool)
    ensures
        r == starts(s@, w@),
{
    let v = chars(s);
    let u = chars(w);
    assert(u.len() <= v.len() ==> v@.subrange(0, u.len() as int) =~= s@.take(w@.len() as int));
    stands_at(&v, 0, &u)
}

/// A text without the white space at its start.
pub open spec fn skip_white(s: Seq<char>) -> Seq<char>
    decreases s.len(),
{
    if s.len() > 0 && white(s[0]) {
        skip_white(s.skip(1))
    } else {
        s
    }
}

/// A text without the white space at its end.
pub open spec fn drop_white(s: Seq<char>) -> Seq<char>
    decreases s.len(),
{
    if s.len() > 0 && white(s.last()) {
        drop_white(s.drop_last())
    } else {
        s
    }
}

/// A text without the white space at its ends.
pub open spec fn trimmed(s: Seq<char>) -> Seq<char> {
    drop_white(skip_white(s))
}

/// A text without white space at its ends stays as it is.
pub proof fn lemma_trimmed(s: Seq<char>)
    requires
        s.len() > 0 ==> !white(s[0]) && !white(s.last()),
    ensures
        trimmed(s) == s,
{
}

/// A text without the white space at its ends.
pub fn trim(s: &str) -> (r: String)
    ensures
        r@ == trimmed(s@),
{
    let v = chars(s);
    let mut from: usize = 0;
    assert(s@.skip(0) =~= s@);
    while from < v.len() && v[from].is_whitespace()
        invariant
            from <= v.len(),
            v@ == s@,
            skip_white(s@) == skip_white(s@.skip(from as int)),
        decreases v.len() - from,
    {
        assert(s@.skip(from as int).skip(1) =~= s@.skip(from + 1));
        from = from + 1;
    }
    let ghost rest = s@.skip(from as int);
    assert(skip_white(s@) == rest);
    let mut to: usize = v.len();
    assert(s@.subrange(from as int, to as int) =~= rest);
    while to > from && v[to - 1].is_whitespace()
        invariant
            from <= to <= v.len(),
            v@ == s@,
            drop_white(rest) == drop_white(s@.subrange(from as int, to as int)),
        decreases to,
    {
        assert(s@.subrange(from as int, to as int).drop_last() =~= s@.subrange(from as int, to - 1));
        to = to - 1;
    }
    slice(&v, from, to)
}

/// The integer that a text gives: an optional sign and digits, where it fits into 64 bits.
pub open spec fn int_of(s: Seq<char>) -> Option<int> {
    let neg = s.len() > 0 && s[0] == '-';
    let signed = neg || (s.len() > 0 && s[0] == '+');
    let d = if signed { s.skip(1) } else { s };
    if d.len() == 0 || !all_digits(d) {
        None
    } else {
        let n: int = if neg { -(nat_of(d) as int) } else { nat_of(d) as int };
        if i64::MIN <= n <= i64::MAX {
            Some(n)
        } else {
            None
        }
    }
}

/// Whether the characters from a position on are digits.
fn digits_from(v: &Vec<char>, from: usize) -> (r: bool)
    requires
        from <= v.len(),
    ensures
        r == all_digits(v@.skip(from as int)),
{
    let mut i: usize = from;
    while i < v.len()
        invariant
            from <= i <= v.len(),
            forall|k: int| from <= k < i ==> is_digit(#[trigger] v@[k]),
        decreases v.len() - i,
    {
        if v[i] < '0' || v[i] > '9' {
            assert(!is_digit(v@.skip(from as int)[i - from]));
            return false;
        }
        i = i + 1;
    }
    assert forall|k: int| 0 <= k < v@.skip(from as int).len() implies is_digit(
        #[trigger] v@.skip(from as int)[k],
    ) by {
        assert(is_digit(v@[from + k]));
    }
    true
}

/// The integer that a text gives.
pub fn parse_int(s: &str) -> (r: Option<i64>)
    ensures
        match r {
            Some(n) => int_of(s@) == Some(n as int),
            None => int_of(s@) is None,
        },
{
    let v = chars(s);
    let neg = v.len() > 0 && v[0] == '-';
    let signed = neg || (v.len() > 0 && v[0] == '+');
    let from: usize = if signed { 1 } else { 0 };
    assert(v@.skip(0) =~= v@);
    if v.len() == from || !digits_from(&v, from) {
        return None;
    }
    assert(v@.subrange(from as int, v.len() as int) =~= v@.skip(from as int));
    let n: usize = v.len();
    match parse_nat(&v, from, n) {
        None => None,
        Some(m) => {
            if neg {
                if m <= 0x8000_0000_0000_0000 {
                    Some((-(m as i128)) as i64)
                } else {
                    None
                }
            } else if m <= 0x7fff_ffff_ffff_ffff {
                Some(m as i64)
            } else {
                None
            }
        },
    }
}

/// A character in lower case, where it is a letter of ASCII.
pub open spec fn ascii_low(c: char) -> char {
    if 'A' <= c <= 'Z' {
        (c as u32 + 32) as char
    } else {
        c
    }
}

/// A text with the letters of ASCII in lower case.
pub open spec fn ascii_lower(s: Seq<char>) -> Seq<char> {
    s.map_values(|c: char| ascii_low(c))
}

/// A text with the letters of ASCII in lower case.
pub fn to_ascii_lower(s: &str) -> (r: String)
    ensures
        r@ == ascii_lower(s@),
{
    let v = chars(s);
    let mut out = String::new();
    let mut i: usize = 0;
    while i < v.len()
        invariant
            i <= v.len(),
            v@ == s@,
            out@ =~= ascii_lower(s@.take(i as int)),
        decreases v.len() - i,
    {
        let c = v[i];
        let d = if 'A' <= c && c <= 'Z' { (c as u8 + 32) as char } else { c };
        assert(ascii_lower(s@.take(i + 1)) =~= ascii_lower(s@.take(i as int)).push(ascii_low(c)));
        out.push(d);
        i = i + 1;
    }
    assert(s@.take(i as int) =~= s@);
    out
}

/// The first word of a text: what stands before its first white space.
pub open spec fn word_end(s: Seq<char>, i: int) -> int
    decreases s.len() - i,
{
    if 0 <= i < s.len() && !white(s[i]) {
        word_end(s, i + 1)
    } else {
        i
    }
}

/// The end of a word is at or behind its start.
pub proof fn lemma_word_end(s: Seq<char>, i: int)
    requires
        0 <= i <= s.len(),
    ensures
        i <= word_end(s, i) <= s.len(),
    decreases s.len() - i,
{
    if i < s.len() && !white(s[i]) {
        lemma_word_end(s, i + 1);
    }
}

/// The words of a text from a position on, between white space.
pub open spec fn words_from(s: Seq<char>, i: int) -> Seq<Seq<char>>
    decreases s.len() - i,
{
    if i < 0 || i >= s.len() {
        Seq::empty()
    } else if white(s[i]) {
        words_from(s, i + 1)
    } else {
        let e = word_end(s, i);
        if i < e <= s.len() {
            seq![s.subrange(i, e)] + words_from(s, e)
        } else {
            Seq::empty()
        }
    }
}

/// The words of a text, between white space.
pub fn split_words(s: &str) -> (r: Vec<String>)
    ensures
        strs(r@) == words_from(s@, 0),
{
    let v = chars(s);
    let mut out: Vec<String> = Vec::new();
    let mut i: usize = 0;
    assert(strs(out@) =~= Seq::empty());
    assert(strs(out@) + words_from(s@, 0) =~= words_from(s@, 0));
    while i < v.len()
        invariant
            i <= v.len(),
            v@ == s@,
            strs(out@) + words_from(s@, i as int) =~= words_from(s@, 0),
        decreases v.len() - i,
    {
        if v[i].is_whitespace() {
            i = i + 1;
        } else {
            let start: usize = i;
            i = i + 1;
            while i < v.len() && !v[i].is_whitespace()
                invariant
                    start < i <= v.len(),
                    v@ == s@,
                    word_end(s@, start as int) == word_end(s@, i as int),
                decreases v.len() - i,
            {
                i = i + 1;
            }
            let ghost was = out@;
            let w = slice(&v, start, i);
            out.push(w);
            proof {
                assert(strs(out@) =~= strs(was).push(w@));
                assert(words_from(s@, start as int) == seq![w@] + words_from(s@, i as int));
            }
        }
    }
    assert(words_from(s@, i as int) =~= Seq::empty());
    out
}

/// Whether a position is the last one of a character.
pub open spec fn last_pos(s: Seq<char>, c: char, n: int) -> Option<int>
    decreases n,
{
    if n <= 0 || n > s.len() {
        None
    } else if s[n - 1] == c {
        Some(n - 1)
    } else {
        last_pos(s, c, n - 1)
    }
}

/// The last position of a character.
pub fn find_last(v: &Vec<char>, c: char) -> (r: Option<usize>)
    ensures
        match r {
            Some(i) => last_pos(v@, c, v.len() as int) == Some(i as int) && i < v.len() && v@[i as int] == c,
            None => last_pos(v@, c, v.len() as int) is None,
        },
{
    let mut n: usize = v.len();
    while n > 0
        invariant
            n <= v.len(),
            last_pos(v@, c, v.len() as int) == last_pos(v@, c, n as int),
        decreases n,
    {
        if v[n - 1] == c {
            return Some(n - 1);
        }
        n = n - 1;
    }
    None
}

/// Texts with a separator between them, the first `n` of them.
pub open spec fn joined_by(parts: Seq<Seq<char>>, sep: Seq<char>, n: int) -> Seq<char>
    decreases n,
{
    if n <= 0 || n > parts.len() {
        Seq::empty()
    } else if n == 1 {
        parts[0]
    } else {
        joined_by(parts, sep, n - 1) + sep + parts[n - 1]
    }
}

/// Texts with a separator between them.
pub fn join(parts: &Vec<String>, sep: &str) -> (r: String)
    ensures
        r@ == joined_by(strs(parts@), sep@, parts.len() as int),
{
    let mut out = String::new();
    let mut i: usize = 0;
    while i < parts.len()
        invariant
            i <= parts.len(),
            out@ == joined_by(strs(parts@), sep@, i as int),
        decreases parts.len() - i,
    {
        assert(strs(parts@)[i as int] == parts@[i as int]@);
        if i == 0 {
            out = parts[i].as_str().to_owned();
        } else {
            out.append(sep);
            out.append(parts[i].as_str());
        }
        i = i + 1;
    }
    out
}

/// The natural number that a text gives: decimal digits, with or without a plus sign.
pub open spec fn natural_of(s: Seq<char>) -> Option<nat> {
    let d = if s.len() > 0 && s[0] == '+' {
        s.skip(1)
    } else {
        s
    };
    if d.len() > 0 && all_digits(d) {
        Some(nat_of(d))
    } else {
        None
    }
}

/// The natural number that a text gives, where it fits.
pub fn parse_natural(s: &str) -> (r: Option<u64>)
    ensures
        match r {
            Some(n) => natural_of(s@) == Some(n as nat),
            None => natural_of(s@) is None || natural_of(s@)->0 > u64::MAX,
        },
{
    let v = chars(s);
    let from: usize = if v.len() > 0 && v[0] == '+' { 1 } else { 0 };
    let ghost d = v@.subrange(from as int, v.len() as int);
    assert(d =~= if s@.len() > 0 && s@[0] == '+' { s@.skip(1) } else { s@ });
    if from == v.len() {
        return None;
    }
    let mut i: usize = from;
    while i < v.len()
        invariant
            from <= i <= v.len(),
            d == v@.subrange(from as int, v.len() as int),
            natural_of(s@) is Some ==> all_digits(d),
            forall|k: int| from <= k < i ==> is_digit(#[trigger] v@[k]),
        decreases v.len() - i,
    {
        if !('0' <= v[i] && v[i] <= '9') {
            assert(d[i - from] == v@[i as int]);
            assert(!all_digits(d));
            return None;
        }
        i = i + 1;
    }
    assert(all_digits(d)) by {
        assert forall|k: int| 0 <= k < d.len() implies is_digit(#[trigger] d[k]) by {
            assert(d[k] == v@[k + from]);
        }
    }
    parse_nat(&v, from, v.len())
}

/// The pieces of a text between the places of a character.
pub open spec fn pieces_at(s: Seq<char>, c: char) -> Seq<Seq<char>>
    decreases s.len(),
{
    let p = pos_of(s, c) as int;
    if p < s.len() {
        seq![s.take(p)] + pieces_at(s.skip(p + 1), c)
    } else {
        seq![s]
    }
}

/// The pieces of a text between the places of a character.
pub fn split_at(s: &str, c: char) -> (r: Vec<String>)
    ensures
        strs(r@) == pieces_at(s@, c),
{
    let v = chars(s);
    let mut out: Vec<String> = Vec::new();
    let mut start: usize = 0;
    let mut i: usize = 0;
    let ghost goal = pieces_at(s@, c);
    assert(s@.skip(0) =~= s@);
    assert(strs(out@) + pieces_at(s@.skip(0), c) =~= goal);
    while i < v.len()
        invariant
            start <= i <= v.len(),
            v@ == s@,
            goal == pieces_at(s@, c),
            forall|k: int| start <= k < i ==> v@[k] != c,
            strs(out@) + pieces_at(s@.skip(start as int), c) == goal,
        decreases v.len() - i,
    {
        if v[i] == c {
            let ghost was = strs(out@);
            let ghost rest = s@.skip(start as int);
            proof {
                lemma_pos(rest, c, i - start);
            }
            let t = slice(&v, start, i);
            assert(t@ =~= rest.take(i - start));
            out.push(t);
            assert(strs(out@) =~= was.push(t@));
            assert(rest.skip(i - start + 1) =~= s@.skip(i + 1));
            assert(was + pieces_at(rest, c) =~= was.push(t@) + pieces_at(s@.skip(i + 1), c));
            start = i + 1;
        }
        i = i + 1;
    }
    let ghost was = strs(out@);
    let ghost rest = s@.skip(start as int);
    proof {
        lemma_no_pos(rest, c);
    }
    let t = slice(&v, start, v.len());
    assert(t@ =~= rest);
    out.push(t);
    assert(strs(out@) =~= was.push(t@));
    assert(was + seq![rest] =~= was.push(t@));
    out
}

/// The first place of a character is where it stands and not before.
proof fn lemma_pos(s: Seq<char>, c: char, p: int)
    requires
        0 <= p < s.len(),
        s[p] == c,
        forall|k: int| 0 <= k < p ==> s[k] != c,
    ensures
        pos_of(s, c) == p,
    decreases s.len(),
{
    if p > 0 {
        lemma_pos(s.skip(1), c, p - 1);
    }
}

/// A character that stands nowhere has no place.
proof fn lemma_no_pos(s: Seq<char>, c: char)
    requires
        forall|k: int| 0 <= k < s.len() ==> s[k] != c,
    ensures
        pos_of(s, c) == s.len(),
    decreases s.len(),
{
    if s.len() > 0 {
        lemma_no_pos(s.skip(1), c);
    }
}

} // verus!
