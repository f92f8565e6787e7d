//! Byte sequences: copying, searching, little-endian numbers and reading text.

use vstd::prelude::*;
use vstd::utf8::{decode_utf8, encode_utf8, valid_utf8};

verus! {

/// The text that bytes give when what in them is not UTF-8 is replaced.
pub uninterp spec fn utf8_lossy(bytes: Seq<u8>) -> Seq<char>;

/// The text of bytes: the text that they encode, or the one with what is not UTF-8
/// replaced.
pub open spec fn text_of(bytes: Seq<u8>) -> Seq<char> {
    if valid_utf8(bytes) {
        decode_utf8(bytes)
    } else {
        utf8_lossy(bytes)
    }
}

/// Bytes read as text (`String::from_utf8_lossy`): bytes that are UTF-8 give the text that
/// they encode, and the others a text that depends on the bytes alone. What stands in for
/// the invalid bytes is not said.
#[verifier::external_body]
pub(crate) fn from_utf8_lossy(bytes: &[u8]) -> (r: String)
    ensures
        valid_utf8(bytes@) ==> r@ == decode_utf8(bytes@),
        !valid_utf8(bytes@) ==> r@ == utf8_lossy(bytes@),
{
    String::from_utf8_lossy(bytes).into_owned()
}

/// The text of bytes.
pub fn read_text(bytes: &[u8]) -> (r: String)
    ensures
        r@ == text_of(bytes@),
{
    from_utf8_lossy(bytes)
}

/// A text reads back from its bytes.
pub proof fn lemma_text(s: Seq<char>)
    ensures
        text_of(encode_utf8(s)) == s,
{
    vstd::utf8::encode_utf8_valid_utf8(s);
    vstd::utf8::encode_utf8_decode_utf8(s);
}

/// Appends bytes.
pub fn push_all(out: &mut Vec<u8>, bytes: &[u8])
    ensures
        final(out)@ == old(out)@ + bytes@,
{
    let mut i: usize = 0;
    while i < bytes.len()
        invariant
            i <= bytes.len(),
            out@ =~= old(out)@ + bytes@.take(i as int),
        decreases bytes.len() - i,
    {
        out.push(bytes[i]);
        i = i + 1;
    }
    assert(bytes@.take(i as int) =~= bytes@);
}

/// The bytes `from..to`.
pub fn part(bytes: &[u8], from: usize, to: usize) -> (r: Vec<u8>)
    requires
        from <= to <= bytes.len(),
    ensures
        r@ == bytes@.subrange(from as int, to as int),
{
    let mut out: Vec<u8> = Vec::new();
    let mut i: usize = from;
    while i < to
        invariant
            from <= i <= to <= bytes.len(),
            out@ =~= bytes@.subrange(from as int, i as int),
        decreases to - i,
    {
        out.push(bytes[i]);
        i = i + 1;
    }
    out
}

/// Whether `w` stands at a position of some bytes.
pub open spec fn at(bytes: Seq<u8>, i: int, w: Seq<u8>) -> bool {
    0 <= i && i + w.len() <= bytes.len() && bytes.subrange(i, i + w.len()) == w
}

/// Whether `w` stands at a position of some bytes.
pub fn stands_at(bytes: &[u8], i: usize, w: &[u8]) -> (r: bool)
    requires
        i <= bytes.len(),
    ensures
        r == at(bytes@, i as int, w@),
{
    if w.len() > bytes.len() - i {
        return false;
    }
    let mut k: usize = 0;
    while k < w.len()
        invariant
            k <= w.len() <= bytes.len() - i,
            i <= bytes.len(),
            forall|j: int| 0 <= j < k ==> bytes@[i + j] == w@[j],
        decreases w.len() - k,
    {
        if bytes[i + k] != w[k] {
            assert(bytes@.subrange(i as int, i + w.len())[k as int] != w@[k as int]);
            return false;
        }
        k = k + 1;
    }
    assert(bytes@.subrange(i as int, i + w.len()) =~= w@);
    true
}

/// The first position from `i` on at which `w` stands.
pub open spec fn first_at(bytes: Seq<u8>, i: int, w: Seq<u8>) -> Option<int>
    decreases bytes.len() + 1 - i,
{
    if i < 0 || i > bytes.len() {
        None
    } else if at(bytes, i, w) {
        Some(i)
    } else {
        first_at(bytes, i + 1, w)
    }
}

/// The first position from `from` on at which `w` stands.
pub fn find(bytes: &[u8], from: usize, w: &[u8]) -> (r: Option<usize>)
    requires
        from <= bytes.len(),
    ensures
        match r {
            Some(i) => first_at(bytes@, from as int, w@) == Some(i as int) && at(bytes@, i as int, w@)
                && from <= i,
            None => first_at(bytes@, from as int, w@) is None,
        },
{
    let mut i: usize = from;
    loop
        invariant
            from <= i <= bytes.len(),
            first_at(bytes@, from as int, w@) == first_at(bytes@, i as int, w@),
        decreases bytes.len() - i,
    {
        if stands_at(bytes, i, w) {
            return Some(i);
        }
        if i == bytes.len() {
            assert(first_at(bytes@, i + 1, w@) is None);
            return None;
        }
        i = i + 1;
    }
}

/// The last `k` bytes of a number, the lowest first.
pub open spec fn le(n: nat, k: nat) -> Seq<u8>
    decreases k,
{
    if k == 0 {
        Seq::empty()
    } else {
        seq![(n % 256) as u8] + le(n / 256, (k - 1) as nat)
    }
}

/// The number that bytes stand for, the lowest first.
pub open spec fn un_le(b: Seq<u8>) -> nat
    decreases b.len(),
{
    if b.len() == 0 {
        0
    } else {
        b[0] as nat + 256 * un_le(b.skip(1))
    }
}

/// The number of values that `k` bytes can hold.
pub open spec fn room(k: nat) -> nat
    decreases k,
{
    if k == 0 {
        1
    } else {
        256 * room((k - 1) as nat)
    }
}

/// A number that fits reads back from its bytes.
pub proof fn lemma_le(n: nat, k: nat)
    ensures
        le(n, k).len() == k,
        n < room(k) ==> un_le(le(n, k)) == n,
    decreases k,
{
    if k > 0 {
        lemma_le(n / 256, (k - 1) as nat);
        assert(le(n, k).skip(1) =~= le(n / 256, (k - 1) as nat));
    }
}

/// Appends the last `k` bytes of a number, the lowest first.
pub fn put_le(out: &mut Vec<u8>, n: u64, k: usize)
    ensures
        final(out)@ == old(out)@ + le(n as nat, k as nat),
{
    let mut rest: u64 = n;
    let mut i: usize = 0;
    assert(out@ + le(rest as nat, k as nat) =~= old(out)@ + le(n as nat, k as nat));
    while i < k
        invariant
            i <= k,
            out@ + le(rest as nat, (k - i) as nat) =~= old(out)@ + le(n as nat, k as nat),
        decreases k - i,
    {
        let ghost before = out@;
        let b: u8 = (rest % 256) as u8;
        out.push(b);
        rest = rest / 256;
        i = i + 1;
        assert(out@ =~= before + seq![b]);
    }
}

/// The number that the `k` bytes at a position stand for, the lowest first.
pub fn get_le(bytes: &[u8], at: usize, k: usize) -> (r: u64)
    requires
        at + k <= bytes.len(),
        k <= 8,
    ensures
        r == un_le(bytes@.subrange(at as int, at + k)),
        r < room(k as nat),
    decreases k,
{
    reveal_with_fuel(room, 9);
    if k == 0 {
        assert(bytes@.subrange(at as int, at + k).len() == 0);
        return 0;
    }
    let rest: u64 = get_le(bytes, at + 1, k - 1);
    assert(bytes@.subrange(at as int, at + k).skip(1) =~= bytes@.subrange(at + 1, at + k));
    bytes[at] as u64 + 256 * rest
}

} // verus!
