//! Text on character sequences: equality, concatenation, decimal numerals and
//! the searching, splitting and replacing that the language offers.

use vstd::prelude::*;
use vstd::utf8::encode_utf8;

verus! {

/// Appending one character (`String::push`): the text grows by exactly that character.
pub assume_specification[ String::push ](s: &mut String, c: char)
    ensures
        final(s)@ == old(s)@.push(c),
;

/// Whether two texts hold the same characters.
pub fn eq(a: &str, b: &str) -> (r: bool)
    ensures
        r == (a@ == b@),
{
    let x = a.as_bytes();
    let y = b.as_bytes();
    proof {
        vstd::utf8::encode_utf8_decode_utf8(a@);
        vstd::utf8::encode_utf8_decode_utf8(b@);
    }
    if x.len() != y.len() {
        return false;
    }
    let mut i: usize = 0;
    while i < x.len()
        invariant
            i <= x.len(),
            x.len() == y.len(),
            x@ == encode_utf8(a@),
            y@ == encode_utf8(b@),
            forall|j: int| 0 <= j < i ==> x@[j] == y@[j],
        decreases x.len() - i,
    {
        if x[i] != y[i] {
            return false;
        }
        i = i + 1;
    }
    assert(x@ =~= y@);
    true
}

/// The concatenation of two texts.
pub fn cat2(a: &str, b: &str) -> (r: String)
    ensures
        r@ == a@ + b@,
{
    let mut s = a.to_owned();
    s.append(b);
    s
}

/// The concatenation of three texts.
pub fn cat3(a: &str, b: &str, c: &str) -> (r: String)
    ensures
        r@ == a@ + b@ + c@,
{
    let mut s = a.to_owned();
    s.append(b);
    s.append(c);
    s
}

/// The concatenation of four texts.
pub fn cat4(a: &str, b: &str, c: &str, d: &str) -> (r: String)
    ensures
        r@ == a@ + b@ + c@ + d@,
{
    let mut s = cat3(a, b, c);
    s.append(d);
    s
}

/// The concatenation of five texts.
pub fn cat5(a: &str, b: &str, c: &str, d: &str, e: &str) -> (r: String)
    ensures
        r@ == a@ + b@ + c@ + d@ + e@,
{
    let mut s = cat4(a, b, c, d);
    s.append(e);
    s
}

/// The concatenation of seven texts.
pub fn cat7(a: &str, b: &str, c: &str, d: &str, e: &str, f: &str, g: &str) -> (r: String)
    ensures
        r@ == a@ + b@ + c@ + d@ + e@ + f@ + g@,
{
    let mut s = cat5(a, b, c, d, e);
    s.append(f);
    s.append(g);
    s
}

/// The concatenation of nine texts.
pub fn cat9(
    a: &str,
    b: &str,
    c: &str,
    d: &str,
    e: &str,
    f: &str,
    g: &str,
    h: &str,
    i: &str,
) -> (r: String)
    ensures
        r@ == a@ + b@ + c@ + d@ + e@ + f@ + g@ + h@ + i@,
{
    let mut s = cat7(a, b, c, d, e, f, g);
    s.append(h);
    s.append(i);
    s
}

/// The concatenation of six texts.
pub fn cat6(a: &str, b: &str, c: &str, d: &str, e: &str, f: &str) -> (r: String)
    ensures
        r@ == a@ + b@ + c@ + d@ + e@ + f@,
{
    let mut s = cat5(a, b, c, d, e);
    s.append(f);
    s
}

/// The characters of a text.
pub fn chars(s: &str) -> (r: Vec<char>)
    ensures
        r@ == s@,
{
    let mut v: Vec<char> = Vec::new();
    for c in it: s.chars()
        invariant
            v@ == it.seq().take(it.index()),
            it.seq() == s@,
    {
        v.push(c);
    }
    v
}

/// The text made of the characters `from..to` of `v`.
pub fn slice(v: &Vec<char>, from: usize, to: usize) -> (r: String)
    requires
        from <= to <= v.len(),
    ensures
        r@ == v@.subrange(from as int, to as int),
{
    let mut s = String::new();
    let mut i: usize = from;
    while i < to
        invariant
            from <= i <= to <= v.len(),
            s@ == v@.subrange(from as int, i as int),
        decreases to - i,
    {
        s.push(v[i]);
        i = i + 1;
    }
    s
}

/// The decimal digit of a value below ten.
pub open spec fn digit(d: nat) -> char {
    (48 + d % 10) as char
}

/// The decimal numeral of a natural number, without leading zeros.
pub open spec fn dec(n: nat) -> Seq<char>
    decreases n,
{
    if n < 10 {
        seq![digit(n)]
    } else {
        dec(n / 10).push(digit(n % 10))
    }
}

/// The decimal numeral of an integer: a minus sign in front of a negative one.
pub open spec fn idec(n: int) -> Seq<char> {
    if n < 0 {
        seq!['-'] + dec((-n) as nat)
    } else {
        dec(n as nat)
    }
}

fn digit_char(d: u64) -> (c: char)
    requires
        d < 10,
    ensures
        c == digit(d as nat),
{
    if d == 0 { '0' } else if d == 1 { '1' } else if d == 2 { '2' } else if d == 3 { '3' } else if d
        == 4 { '4' } else if d == 5 { '5' } else if d == 6 { '6' } else if d == 7 { '7' } else if d
        == 8 { '8' } else { '9' }
}

/// The decimal numeral of a natural number.
pub fn dec_u64(n: u64) -> (r: String)
    ensures
        r@ == dec(n as nat),
    decreases n,
{
    if n < 10 {
        let mut s = String::new();
        s.push(digit_char(n));
        assert(s@ =~= seq![digit(n as nat)]);
        s
    } else {
        let mut s = dec_u64(n / 10);
        s.push(digit_char(n % 10));
        s
    }
}

/// The decimal numeral of a size.
pub fn dec_usize(n: usize) -> (r: String)
    ensures
        r@ == dec(n as nat),
{
    dec_u64(n as u64)
}

/// The decimal numeral of a signed integer.
pub fn dec_i64(n: i64) -> (r: String)
    ensures
        r@ == idec(n as int),
{
    if n < 0 {
        let m: u64 = (-(n as i128)) as u64;
        let d = dec_u64(m);
        let mut s = String::new();
        s.push('-');
        s.append(d.as_str());
        assert(s@ =~= seq!['-'] + dec((-n) as nat));
        s
    } else {
        dec_u64(n as u64)
    }
}

/// The texts that a vector of strings holds.
pub open spec fn strs(v: Seq<String>) -> Seq<Seq<char>> {
    v.map_values(|s: String| s@)
}

/// `n` copies of one character.
pub open spec fn rep(c: char, n: nat) -> Seq<char> {
    Seq::new(n, |i: int| c)
}

/// The text of `n` copies of one character.
pub fn repeat(c: char, n: usize) -> (r: String)
    ensures
        r@ == rep(c, n as nat),
{
    let mut s = String::new();
    let mut i: usize = 0;
    while i < n
        invariant
            i <= n,
            s@ == rep(c, i as nat),
        decreases n - i,
    {
        s.push(c);
        i = i + 1;
        assert(s@ =~= rep(c, i as nat));
    }
    s
}

/// The first position of `c` in `s`, or the length of `s` where it does not occur.
pub open spec fn pos_of(s: Seq<char>, c: char) -> nat
    decreases s.len(),
{
    if s.len() == 0 || s[0] == c {
        0
    } else {
        1 + pos_of(s.skip(1), c)
    }
}

/// A line without the carriage return that belongs to its line ending.
pub open spec fn strip_cr(line: Seq<char>) -> Seq<char> {
    if line.len() > 0 && line.last() == '\r' {
        line.drop_last()
    } else {
        line
    }
}

/// The lines of a text: a line ends at `\n` or `\r\n`, and the last line ending is optional.
pub open spec fn lines(s: Seq<char>) -> Seq<Seq<char>>
    decreases s.len(),
{
    if s.len() == 0 {
        Seq::empty()
    } else {
        let e = pos_of(s, '\n') as int;
        if e < s.len() {
            seq![strip_cr(s.take(e))] + lines(s.skip(e + 1))
        } else {
            seq![s]
        }
    }
}

/// A position found by `pos_of` is a position of the text, and nothing before it matches.
pub proof fn lemma_pos_of(s: Seq<char>, c: char)
    ensures
        pos_of(s, c) <= s.len(),
        pos_of(s, c) < s.len() ==> s[pos_of(s, c) as int] == c,
        forall|i: int| 0 <= i < pos_of(s, c) ==> s[i] != c,
    decreases s.len(),
{
    if s.len() > 0 && s[0] != c {
        lemma_pos_of(s.skip(1), c);
        assert forall|i: int| 0 <= i < pos_of(s, c) implies s[i] != c by {
            if i > 0 {
                assert(s.skip(1)[i - 1] == s[i]);
            }
        }
    }
}

/// A position before which nothing matches and at which the text ends or matches is
/// the one that `pos_of` finds.
pub proof fn lemma_pos_of_is(s: Seq<char>, c: char, e: int)
    requires
        0 <= e <= s.len(),
        e < s.len() ==> s[e] == c,
        forall|i: int| 0 <= i < e ==> s[i] != c,
    ensures
        pos_of(s, c) == e,
{
    lemma_pos_of(s, c);
}

/// The lines of a text.
pub fn split_lines(text: &str) -> (r: Vec<String>)
    ensures
        strs(r@) == lines(text@),
{
    let v = chars(text);
    let ghost s = text@;
    let mut out: Vec<String> = Vec::new();
    let mut start: usize = 0;
    assert(s.skip(0) =~= s);
    assert(strs(out@) =~= Seq::<Seq<char>>::empty());
    while start < v.len()
        invariant
            start <= v.len(),
            v@ == s,
            strs(out@) + lines(s.skip(start as int)) =~= lines(s),
        decreases v.len() - start,
    {
        let mut e: usize = start;
        while e < v.len() && v[e] != '\n'
            invariant
                start <= e <= v.len(),
                forall|i: int| start <= i < e ==> v@[i] != '\n',
            decreases v.len() - e,
        {
            e = e + 1;
        }
        let ghost rest = s.skip(start as int);
        proof {
            lemma_pos_of_is(rest, '\n', e - start);
        }
        if e < v.len() {
            let stop: usize = if e > start && v[e - 1] == '\r' { e - 1 } else { e };
            let line = slice(&v, start, stop);
            proof {
                assert(rest.take(e - start) =~= v@.subrange(start as int, e as int));
                assert(line@ =~= strip_cr(rest.take(e - start)));
                assert(rest.skip(e - start + 1) =~= s.skip(e + 1));
                assert(strs(out@.push(line)) =~= strs(out@).push(line@));
            }
            out.push(line);
            start = e + 1;
        } else {
            let line = slice(&v, start, e);
            proof {
                assert(line@ =~= rest);
                assert(strs(out@.push(line)) =~= strs(out@).push(line@));
                assert(s.skip(e as int) =~= Seq::empty());
            }
            out.push(line);
            start = e;
        }
    }
    assert(s.skip(start as int) =~= Seq::empty());
    out
}

/// Whether a character is a decimal digit.
pub open spec fn is_digit(c: char) -> bool {
    '0' <= c <= '9'
}

/// Whether every character of a text is a decimal digit.
pub open spec fn all_digits(s: Seq<char>) -> bool {
    forall|i: int| 0 <= i < s.len() ==> is_digit(#[trigger] s[i])
}

/// The number that a row of decimal digits stands for.
pub open spec fn nat_of(s: Seq<char>) -> nat
    decreases s.len(),
{
    if s.len() == 0 {
        0
    } else {
        nat_of(s.drop_last()) * 10 + (s.last() as nat - 48) as nat
    }
}

/// The number that the digits `from..to` of `v` stand for, where it fits.
pub fn parse_nat(v: &Vec<char>, from: usize, to: usize) -> (r: Option<u64>)
    requires
        from <= to <= v.len(),
        all_digits(v@.subrange(from as int, to as int)),
    ensures
        match r {
            Some(n) => n == nat_of(v@.subrange(from as int, to as int)),
            None => nat_of(v@.subrange(from as int, to as int)) > u64::MAX,
        },
{
    let mut acc: u64 = 0;
    let mut over = false;
    let mut i: usize = from;
    while i < to
        invariant
            from <= i <= to <= v.len(),
            all_digits(v@.subrange(from as int, to as int)),
            !over ==> acc == nat_of(v@.subrange(from as int, i as int)),
            over ==> nat_of(v@.subrange(from as int, i as int)) > u64::MAX,
        decreases to - i,
    {
        let c = v[i];
        proof {
            assert(is_digit(v@.subrange(from as int, to as int)[i - from]));
            assert(v@.subrange(from as int, i + 1).drop_last() =~= v@.subrange(from as int, i as int));
        }
        let d: u64 = c as u64 - 48;
        if !over {
            let wide: u128 = (acc as u128) * 10 + d as u128;
            if wide > u64::MAX as u128 {
                over = true;
            } else {
                acc = wide as u64;
            }
        }
        i = i + 1;
    }
    if over {
        None
    } else {
        Some(acc)
    }
}

/// A text with every occurrence of the non-empty `old`, from left to right and without
/// overlap, replaced by `new`.
pub open spec fn replaced_word(s: Seq<char>, old: Seq<char>, new: Seq<char>) -> Seq<char>
    recommends
        old.len() > 0,
    decreases s.len(),
{
    if s.len() < old.len() || old.len() == 0 {
        s
    } else if s.take(old.len() as int) == old {
        new + replaced_word(s.skip(old.len() as int), old, new)
    } else {
        seq![s[0]] + replaced_word(s.skip(1), old, new)
    }
}

/// A text with `new` in front of every character and at its end.
pub open spec fn interleaved(s: Seq<char>, new: Seq<char>) -> Seq<char>
    decreases s.len(),
{
    if s.len() == 0 {
        new
    } else {
        new + seq![s[0]] + interleaved(s.skip(1), new)
    }
}

/// A text with every occurrence of `old` replaced by `new`; the empty text occurs in
/// front of every character and at the end.
pub open spec fn replaced(s: Seq<char>, old: Seq<char>, new: Seq<char>) -> Seq<char> {
    if old.len() == 0 {
        interleaved(s, new)
    } else {
        replaced_word(s, old, new)
    }
}

/// Whether `w` stands at position `i` of `v`.
pub fn stands_at(v: &Vec<char>, i: usize, w: &Vec<char>) -> (r: bool)
    requires
        i <= v.len(),
    ensures
        r == (i + w.len() <= v.len() && v@.subrange(i as int, i + w.len()) == w@),
{
    if w.len() > v.len() - i {
        return false;
    }
    let mut k: usize = 0;
    while k < w.len()
        invariant
            k <= w.len() <= v.len() - i,
            i <= v.len(),
            forall|j: int| 0 <= j < k ==> v@[i + j] == w@[j],
        decreases w.len() - k,
    {
        if v[i + k] != w[k] {
            assert(v@.subrange(i as int, i + w.len())[k as int] != w@[k as int]);
            return false;
        }
        k = k + 1;
    }
    assert(v@.subrange(i as int, i + w.len()) =~= w@);
    true
}

/// A text with every occurrence of `old` replaced by `new`.
pub fn replace(s: &str, old: &str, new: &str) -> (r: String)
    ensures
        r@ == replaced(s@, old@, new@),
{
    let v = chars(s);
    let w = chars(old);
    let mut out = String::new();
    let mut i: usize = 0;
    assert(v@.skip(0) =~= v@);
    if w.len() == 0 {
        assert(out@ + interleaved(v@.skip(0), new@) =~= interleaved(v@, new@));
        while i < v.len()
            invariant
                i <= v.len(),
                out@ + interleaved(v@.skip(i as int), new@) =~= interleaved(v@, new@),
            decreases v.len() - i,
        {
            let ghost before = out@;
            let ghost rest = v@.skip(i as int);
            out.append(new);
            out.push(v[i]);
            proof {
                assert(rest.skip(1) =~= v@.skip(i + 1));
                assert(out@ =~= before + (new@ + seq![rest[0]]));
            }
            i = i + 1;
        }
        assert(v@.skip(i as int).len() == 0);
        out.append(new);
        out
    } else {
        assert(out@ + replaced_word(v@.skip(0), w@, new@) =~= replaced_word(v@, w@, new@));
        while i < v.len()
            invariant
                i <= v.len(),
                w.len() > 0,
                out@ + replaced_word(v@.skip(i as int), w@, new@) =~= replaced_word(v@, w@, new@),
            decreases v.len() - i,
        {
            let ghost before = out@;
            let ghost rest = v@.skip(i as int);
            proof {
                if i + w.len() <= v.len() {
                    assert(rest.take(w.len() as int) =~= v@.subrange(i as int, i + w.len()));
                }
            }
            if stands_at(&v, i, &w) {
                out.append(new);
                proof {
                    assert(rest.skip(w.len() as int) =~= v@.skip(i + w.len()));
                }
                i = i + w.len();
            } else {
                out.push(v[i]);
                proof {
                    assert(rest.skip(1) =~= v@.skip(i + 1));
                    assert(out@ =~= before + seq![rest[0]]);
                    if rest.len() < w.len() {
                        assert(replaced_word(rest, w@, new@) =~= seq![rest[0]] + replaced_word(
                            rest.skip(1),
                            w@,
                            new@,
                        ));
                    }
                }
                i = i + 1;
            }
        }
        assert(v@.skip(i as int) =~= Seq::empty());
        out
    }
}

/// Whether a text holds a character.
pub fn has_char(s: &str, c: char) -> (r: bool)
    ensures
        r == s@.contains(c),
{
    let v = chars(s);
    let mut i: usize = 0;
    while i < v.len()
        invariant
            i <= v.len(),
            v@ == s@,
            forall|j: int| 0 <= j < i ==> v@[j] != c,
        decreases v.len() - i,
    {
        if v[i] == c {
            assert(s@[i as int] == c);
            return true;
        }
        i = i + 1;
    }
    false
}

} // verus!
