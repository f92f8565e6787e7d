//! Packages: a runtime with a script appended to it, and a script on its own.
//!
//! A bundle is the runtime, the script's name, the script and a tail of 56 bytes: the mark
//! `KABND001`, the lengths of the three parts, the version, two bytes of zero, the time of
//! the build and the checksums of the runtime and the script. A script package is the mark
//! `HNZP0010`, the name and the script, each behind its length, and the script's checksum.
//! Numbers are little-endian.

use vstd::prelude::*;
use vstd::utf8::{encode_utf8, valid_utf8};

use crate::builtins::time::{format_timestamp, time_text};
use crate::bytes::{
    at, get_le, le, lemma_le, lemma_text, part, push_all, put_le, read_text, room, stands_at, text_of, un_le,
};
use crate::error::{codes, err_plain, ErrV, ZError};
use crate::text::{chars, dec, dec_u64, eq, strs};

verus! {

/// What a bundle holds.
pub struct BundledInfo {
    pub hone: Vec<u8>,
    pub name: String,
    pub script: Vec<u8>,
    pub version: (u16, u16, u16),
    pub timestamp: u64,
}

/// What a bundle holds, mathematically.
#[verifier::ext_equal]
pub struct InfoV {
    pub hone: Seq<u8>,
    pub name: Seq<char>,
    pub script: Seq<u8>,
    pub version: (u16, u16, u16),
    pub timestamp: u64,
}

impl View for BundledInfo {
    type V = InfoV;

    open spec fn view(&self) -> InfoV {
        InfoV {
            hone: self.hone@,
            name: self.name@,
            script: self.script@,
            version: self.version,
            timestamp: self.timestamp,
        }
    }
}

/// The checksum of no bytes.
pub const SUM_START: u64 = 0xcbf2_9ce4_8422_2325;

/// The factor of a checksum step.
pub const SUM_STEP: u64 = 0x0000_0100_0000_01b3;

/// The checksum of bytes: for each byte in turn, exclusive or and then a multiplication
/// (FNV-1a).
pub open spec fn checksum(data: Seq<u8>) -> u64
    decreases data.len(),
{
    if data.len() == 0 {
        SUM_START
    } else {
        (checksum(data.drop_last()) ^ (data.last() as u64)).wrapping_mul(SUM_STEP)
    }
}

/// The checksum of bytes.
pub fn fnv1a64(data: &[u8]) -> (r: u64)
    ensures
        r == checksum(data@),
{
    let mut h: u64 = SUM_START;
    let mut i: usize = 0;
    while i < data.len()
        invariant
            i <= data.len(),
            h == checksum(data@.take(i as int)),
        decreases data.len() - i,
    {
        assert(data@.take(i + 1).drop_last() =~= data@.take(i as int));
        h = (h ^ (data[i] as u64)).wrapping_mul(SUM_STEP);
        i = i + 1;
    }
    assert(data@.take(i as int) =~= data@);
    h
}

/// The mark of a bundle.
pub open spec fn bundle_mark() -> Seq<u8> {
    seq![0x4bu8, 0x41u8, 0x42u8, 0x4eu8, 0x44u8, 0x30u8, 0x30u8, 0x31u8]
}

/// The mark of a script package.
pub open spec fn package_mark() -> Seq<u8> {
    seq![0x48u8, 0x4eu8, 0x5au8, 0x50u8, 0x30u8, 0x30u8, 0x31u8, 0x30u8]
}

fn bundle_mark_bytes() -> (r: Vec<u8>)
    ensures
        r@ == bundle_mark(),
{
    let v: Vec<u8> = vec![0x4b, 0x41, 0x42, 0x4e, 0x44, 0x30, 0x30, 0x31];
    assert(v@ =~= bundle_mark());
    v
}

fn package_mark_bytes() -> (r: Vec<u8>)
    ensures
        r@ == package_mark(),
{
    let v: Vec<u8> = vec![0x48, 0x4e, 0x5a, 0x50, 0x30, 0x30, 0x31, 0x30];
    assert(v@ =~= package_mark());
    v
}

/// The tail of a bundle.
pub open spec fn tail(
    hone: Seq<u8>,
    name: Seq<u8>,
    script: Seq<u8>,
    version: (u16, u16, u16),
    timestamp: u64,
) -> Seq<u8> {
    bundle_mark() + le(hone.len(), 8) + le(name.len(), 4) + le(script.len(), 4) + le(version.0 as nat, 2)
        + le(version.1 as nat, 2) + le(version.2 as nat, 2) + le(0, 2) + le(timestamp as nat, 8) + le(
        checksum(hone) as nat,
        8,
    ) + le(checksum(script) as nat, 8)
}

/// A bundle of a runtime and a script.
pub open spec fn bundle(
    hone: Seq<u8>,
    script: Seq<char>,
    name: Seq<char>,
    version: (u16, u16, u16),
    timestamp: u64,
) -> Seq<u8> {
    hone + encode_utf8(name) + encode_utf8(script) + tail(
        hone,
        encode_utf8(name),
        encode_utf8(script),
        version,
        timestamp,
    )
}

/// Makes a bundle of a runtime and a script.
pub fn build(hone: &[u8], script: &str, name: &str, version: (u16, u16, u16), timestamp: u64) -> (r: Vec<u8>)
    ensures
        r@ == bundle(hone@, script@, name@, version, timestamp),
{
    let s = script.as_bytes();
    let n = name.as_bytes();
    let mut t: Vec<u8> = bundle_mark_bytes();
    put_le(&mut t, hone.len() as u64, 8);
    put_le(&mut t, n.len() as u64, 4);
    put_le(&mut t, s.len() as u64, 4);
    put_le(&mut t, version.0 as u64, 2);
    put_le(&mut t, version.1 as u64, 2);
    put_le(&mut t, version.2 as u64, 2);
    put_le(&mut t, 0, 2);
    put_le(&mut t, timestamp, 8);
    put_le(&mut t, fnv1a64(hone), 8);
    put_le(&mut t, fnv1a64(s), 8);
    let mut out: Vec<u8> = Vec::new();
    push_all(&mut out, hone);
    push_all(&mut out, n);
    push_all(&mut out, s);
    push_all(&mut out, t.as_slice());
    assert(Seq::<u8>::empty() + hone@ =~= hone@);
    out
}

/// A script package.
pub open spec fn script_package(script: Seq<char>, name: Seq<char>) -> Seq<u8> {
    let s = encode_utf8(script);
    let n = encode_utf8(name);
    package_mark() + le(n.len(), 4) + n + le(s.len(), 4) + s + le(checksum(s) as nat, 8)
}

/// Makes a script package.
pub fn build_script_pkg(script: &str, name: &str) -> (r: Vec<u8>)
    ensures
        r@ == script_package(script@, name@),
{
    let s = script.as_bytes();
    let n = name.as_bytes();
    let mut out: Vec<u8> = package_mark_bytes();
    put_le(&mut out, n.len() as u64, 4);
    push_all(&mut out, n);
    put_le(&mut out, s.len() as u64, 4);
    push_all(&mut out, s);
    put_le(&mut out, fnv1a64(s), 8);
    out
}

/// The name and the script of a script package: none where the mark is missing, a part is
/// cut off or the checksum is another.
pub open spec fn package_of(data: Seq<u8>) -> Option<(Seq<char>, Seq<char>)> {
    if data.len() < 24 || data.take(8) != package_mark() {
        None
    } else {
        let name_len = un_le(data.subrange(8, 12)) as int;
        if data.len() < 12 + name_len + 4 {
            None
        } else {
            let name = text_of(data.subrange(12, 12 + name_len));
            let at = 12 + name_len;
            let script_len = un_le(data.subrange(at, at + 4)) as int;
            if data.len() < at + 4 + script_len + 8 {
                None
            } else {
                let script = text_of(data.subrange(at + 4, at + 4 + script_len));
                let end = at + 4 + script_len;
                if un_le(data.subrange(end, end + 8)) != checksum(encode_utf8(script)) {
                    None
                } else {
                    Some((name, script))
                }
            }
        }
    }
}

/// The name and the script of a script package.
pub fn parse_script_pkg(data: &[u8]) -> (r: Option<(String, String)>)
    ensures
        match r {
            Some(p) => package_of(data@) == Some((p.0@, p.1@)),
            None => package_of(data@) is None,
        },
{
    let mark = package_mark_bytes();
    assert(data.len() >= 8 ==> data@.take(8) =~= data@.subrange(0, 8));
    if data.len() < 24 || !stands_at(data, 0, mark.as_slice()) {
        return None;
    }
    let name_len: u64 = get_le(data, 8, 4);
    proof {
        reveal_with_fuel(room, 9);
    }
    if ((data.len() - 16) as u64) < name_len {
        return None;
    }
    let n: usize = name_len as usize;
    let name_bytes = part(data, 12, 12 + n);
    let name = read_text(name_bytes.as_slice());
    let p: usize = 12 + n;
    let script_len: u64 = get_le(data, p, 4);
    if data.len() - p - 4 < 8 || ((data.len() - p - 12) as u64) < script_len {
        return None;
    }
    let m: usize = script_len as usize;
    let script_bytes = part(data, p + 4, p + 4 + m);
    let script = read_text(script_bytes.as_slice());
    let sum: u64 = get_le(data, p + 4 + m, 8);
    if sum != fnv1a64(script.as_str().as_bytes()) {
        return None;
    }
    Some((name, script))
}

/// A script package gives back its name and its script, where their lengths fit into four
/// bytes.
pub proof fn law_package_reads_back(script: Seq<char>, name: Seq<char>)
    requires
        encode_utf8(script).len() < 0x1_0000_0000,
        encode_utf8(name).len() < 0x1_0000_0000,
    ensures
        package_of(script_package(script, name)) == Some((name, script)),
{
    let s = encode_utf8(script);
    let n = encode_utf8(name);
    let data = script_package(script, name);
    lemma_text(script);
    lemma_text(name);
    lemma_le(n.len(), 4);
    lemma_le(s.len(), 4);
    lemma_le(checksum(s) as nat, 8);
    reveal_with_fuel(room, 9);
    assert(data.take(8) =~= package_mark());
    assert(data.subrange(8, 12) =~= le(n.len(), 4));
    let p = 12 + n.len() as int;
    assert(data.subrange(12, p) =~= n);
    assert(data.subrange(p, p + 4) =~= le(s.len(), 4));
    assert(data.subrange(p + 4, p + 4 + s.len()) =~= s);
    let e = p + 4 + s.len();
    assert(data.subrange(e, e + 8) =~= le(checksum(s) as nat, 8));
}

/// A script package that is cut off anywhere is refused.
pub proof fn law_cut_package_is_refused(script: Seq<char>, name: Seq<char>, k: int)
    requires
        encode_utf8(script).len() < 0x1_0000_0000,
        encode_utf8(name).len() < 0x1_0000_0000,
        0 <= k < script_package(script, name).len(),
    ensures
        package_of(script_package(script, name).take(k)) is None,
{
    let s = encode_utf8(script);
    let n = encode_utf8(name);
    let data = script_package(script, name);
    let cut = data.take(k);
    lemma_le(n.len(), 4);
    lemma_le(s.len(), 4);
    lemma_le(checksum(s) as nat, 8);
    reveal_with_fuel(room, 9);
    assert(package_mark().len() == 8);
    let p = 12 + n.len() as int;
    assert(data.len() == p + 4 + s.len() + 8);
    if k >= 24 {
        assert(cut.subrange(8, 12) =~= le(n.len(), 4));
        if k >= p + 4 {
            assert(cut.subrange(p, p + 4) =~= le(s.len(), 4));
        }
    }
}

/// A script package whose script was altered is refused, unless the other script has the same
/// checksum.
pub proof fn law_altered_package_is_refused(script: Seq<char>, name: Seq<char>, other: Seq<char>)
    requires
        encode_utf8(name).len() < 0x1_0000_0000,
        encode_utf8(other).len() == encode_utf8(script).len() < 0x1_0000_0000,
        checksum(encode_utf8(other)) != checksum(encode_utf8(script)),
    ensures
        ({
            let data = script_package(script, name);
            let at = 16 + encode_utf8(name).len();
            let end = at + encode_utf8(script).len();
            package_of(data.take(at as int) + encode_utf8(other) + data.skip(end as int)) is None
        }),
{
    let s = encode_utf8(script);
    let n = encode_utf8(name);
    let o = encode_utf8(other);
    let data = script_package(script, name);
    lemma_text(other);
    lemma_le(n.len(), 4);
    lemma_le(s.len(), 4);
    lemma_le(checksum(s) as nat, 8);
    reveal_with_fuel(room, 9);
    assert(package_mark().len() == 8);
    let p = 12 + n.len() as int;
    let bad = data.take(p + 4) + o + data.skip(p + 4 + s.len());
    assert(bad.subrange(8, 12) =~= le(n.len(), 4));
    assert(bad.subrange(p, p + 4) =~= le(s.len(), 4));
    assert(bad.subrange(p + 4, p + 4 + s.len()) =~= o);
    let e = p + 4 + s.len();
    assert(bad.subrange(e, e + 8) =~= le(checksum(s) as nat, 8));
}

/// A step of the checksum takes different numbers to different numbers.
proof fn lemma_step(a: u64, b: u64)
    requires
        a.wrapping_mul(SUM_STEP) == b.wrapping_mul(SUM_STEP),
    ensures
        a == b,
{
    let m: int = 0x1_0000_0000_0000_0000;
    let f: int = 0x0000_0100_0000_01b3;
    let inv: int = 0xce96_5057_aff6_957b;
    let k: int = 887285111055;
    let x = a as int;
    let y = b as int;
    assert(SUM_STEP as int == f);
    assert((x * f) % m == (y * f) % m);
    vstd::arithmetic::div_mod::lemma_fundamental_div_mod(x * f, m);
    vstd::arithmetic::div_mod::lemma_fundamental_div_mod(y * f, m);
    let q = (x * f) / m - (y * f) / m;
    assert((x - y) * f == m * q) by (nonlinear_arith)
        requires
            x * f == m * ((x * f) / m) + (x * f) % m,
            y * f == m * ((y * f) / m) + (y * f) % m,
            (x * f) % m == (y * f) % m,
            q == (x * f) / m - (y * f) / m,
    ;
    assert(f * inv == 1 + k * m);
    let z = q * inv - (x - y) * k;
    assert(x - y == m * z) by (nonlinear_arith)
        requires
            (x - y) * f == m * q,
            f * inv == 1 + k * m,
            z == q * inv - (x - y) * k,
    ;
    assert(z == 0) by (nonlinear_arith)
        requires
            x - y == m * z,
            0 <= x < m,
            0 <= y < m,
    ;
}

/// One changed byte changes the checksum.
pub proof fn law_one_byte_changes_the_checksum(data: Seq<u8>, k: int, b: u8)
    requires
        0 <= k < data.len(),
        data[k] != b,
    ensures
        checksum(data.update(k, b)) != checksum(data),
    decreases data.len(),
{
    let other = data.update(k, b);
    let h = checksum(data.drop_last());
    let g = checksum(other.drop_last());
    let c = data.last();
    let d = other.last();
    if k < data.len() - 1 {
        assert(other.drop_last() =~= data.drop_last().update(k, b));
        law_one_byte_changes_the_checksum(data.drop_last(), k, b);
        assert(h != g && c == d);
        assert(h ^ (c as u64) != g ^ (c as u64)) by (bit_vector)
            requires
                h != g,
        ;
    } else {
        assert(other.drop_last() =~= data.drop_last());
        assert(h ^ (c as u64) != h ^ (d as u64)) by (bit_vector)
            requires
                c != d,
        ;
    }
    if checksum(other) == checksum(data) {
        lemma_step(h ^ (c as u64), g ^ (d as u64));
    }
}

/// Different bytes stand for different numbers.
proof fn lemma_un_le(a: Seq<u8>, b: Seq<u8>)
    requires
        a.len() == b.len(),
        un_le(a) == un_le(b),
    ensures
        a == b,
    decreases a.len(),
{
    if a.len() > 0 {
        assert(a[0] == b[0] && un_le(a.skip(1)) == un_le(b.skip(1)));
        lemma_un_le(a.skip(1), b.skip(1));
        assert forall|i: int| 0 <= i < a.len() implies a[i] == b[i] by {
            if i > 0 {
                assert(a.skip(1)[i - 1] == b.skip(1)[i - 1]);
            }
        }
    }
    assert(a =~= b);
}

/// A script package with one changed byte of the mark, of the checksum or of the script, where
/// that still is a text, is refused.
pub proof fn law_changed_package_is_refused(script: Seq<char>, name: Seq<char>, k: int, b: u8)
    requires
        encode_utf8(script).len() < 0x1_0000_0000,
        encode_utf8(name).len() < 0x1_0000_0000,
        0 <= k < script_package(script, name).len(),
        script_package(script, name)[k] != b,
        ({
            let at = 16 + encode_utf8(name).len();
            let end = at + encode_utf8(script).len();
            ||| k < 8
            ||| k >= end
            ||| at <= k && valid_utf8(encode_utf8(script).update(k - at, b))
        }),
    ensures
        package_of(script_package(script, name).update(k, b)) is None,
{
    let s = encode_utf8(script);
    let n = encode_utf8(name);
    let data = script_package(script, name);
    let bad = data.update(k, b);
    lemma_text(script);
    lemma_le(n.len(), 4);
    lemma_le(s.len(), 4);
    lemma_le(checksum(s) as nat, 8);
    reveal_with_fuel(room, 9);
    assert(package_mark().len() == 8);
    let p = 12 + n.len() as int;
    let e = p + 4 + s.len();
    assert(data.len() == e + 8);
    if k < 8 {
        assert(data.take(8) =~= package_mark());
        assert(bad.take(8)[k] == b);
    } else {
        assert(bad.subrange(8, 12) =~= le(n.len(), 4));
        assert(bad.subrange(p, p + 4) =~= le(s.len(), 4));
        assert(data.subrange(e, e + 8) =~= le(checksum(s) as nat, 8));
        if k >= e {
            assert(bad.subrange(p + 4, e) =~= s);
            if un_le(bad.subrange(e, e + 8)) == checksum(s) {
                lemma_un_le(bad.subrange(e, e + 8), le(checksum(s) as nat, 8));
                assert(bad.subrange(e, e + 8)[k - e] == data.subrange(e, e + 8)[k - e]);
            }
        } else {
            let other = s.update(k - (p + 4), b);
            assert(data.subrange(p + 4, e) =~= s);
            assert(s[k - (p + 4)] == data[k]);
            assert(bad.subrange(p + 4, e) =~= other);
            assert(bad.subrange(e, e + 8) =~= le(checksum(s) as nat, 8));
            law_one_byte_changes_the_checksum(s, k - (p + 4), b);
            vstd::utf8::decode_utf8_encode_utf8(other);
        }
    }
}

/// What bytes hold as a bundle: nothing where the mark is missing or the lengths do not add
/// up to all of them, and an error where a checksum is another.
pub open spec fn bundle_of(data: Seq<u8>) -> Result<Option<InfoV>, ErrV> {
    let t = data.len() - 56;
    if t < 0 || data.subrange(t, t + 8) != bundle_mark() {
        Ok(None)
    } else {
        let a = un_le(data.subrange(t + 8, t + 16)) as int;
        let b = un_le(data.subrange(t + 16, t + 20)) as int;
        let c = un_le(data.subrange(t + 20, t + 24)) as int;
        if a + b + c + 56 != data.len() {
            Ok(None)
        } else {
            let hone = data.subrange(0, a);
            let script = data.subrange(a + b, a + b + c);
            if un_le(data.subrange(t + 40, t + 48)) != checksum(hone) || un_le(data.subrange(t + 48, t + 56))
                != checksum(script) {
                Err(
                    err_plain(
                        "H404"@,
                        "bundled executable is corrupted (checksum mismatch)"@,
                        Some("rebuild it with `hone build --exe`"@),
                    ),
                )
            } else {
                Ok(
                    Some(
                        InfoV {
                            hone,
                            name: text_of(data.subrange(a, a + b)),
                            script,
                            version: (
                                un_le(data.subrange(t + 24, t + 26)) as u16,
                                un_le(data.subrange(t + 26, t + 28)) as u16,
                                un_le(data.subrange(t + 28, t + 30)) as u16,
                            ),
                            timestamp: un_le(data.subrange(t + 32, t + 40)) as u64,
                        },
                    ),
                )
            }
        }
    }
}

/// What the bytes of an executable hold as a bundle.
pub fn detect(data: &[u8]) -> (r: Result<Option<BundledInfo>, ZError>)
    ensures
        match r {
            Ok(Some(info)) => bundle_of(data@) == Ok::<Option<InfoV>, ErrV>(Some(info@)),
            Ok(None) => bundle_of(data@) == Ok::<Option<InfoV>, ErrV>(None),
            Err(e) => bundle_of(data@) == Err::<Option<InfoV>, ErrV>(e@),
        },
{
    let mark = bundle_mark_bytes();
    if data.len() < 56 {
        return Ok(None);
    }
    let t: usize = data.len() - 56;
    if !stands_at(data, t, mark.as_slice()) {
        return Ok(None);
    }
    let a: u64 = get_le(data, t + 8, 8);
    let b: u64 = get_le(data, t + 16, 4);
    let c: u64 = get_le(data, t + 20, 4);
    if a as u128 + b as u128 + c as u128 + 56 != data.len() as u128 {
        return Ok(None);
    }
    let an: usize = a as usize;
    let bn: usize = b as usize;
    let cn: usize = c as usize;
    let hone = part(data, 0, an);
    let name_bytes = part(data, an, an + bn);
    let script = part(data, an + bn, an + bn + cn);
    let hone_sum: u64 = get_le(data, t + 40, 8);
    let script_sum: u64 = get_le(data, t + 48, 8);
    if hone_sum != fnv1a64(hone.as_slice()) || script_sum != fnv1a64(script.as_slice()) {
        return Err(
            ZError::plain(
                codes::NOT_FOUND,
                "bundled executable is corrupted (checksum mismatch)",
                Some("rebuild it with `hone build --exe`"),
            ),
        );
    }
    let name = read_text(name_bytes.as_slice());
    let v0: u64 = get_le(data, t + 24, 2);
    let v1: u64 = get_le(data, t + 26, 2);
    let v2: u64 = get_le(data, t + 28, 2);
    let timestamp: u64 = get_le(data, t + 32, 8);
    proof {
        reveal_with_fuel(room, 9);
    }
    let info = BundledInfo { hone, name, script, version: (v0 as u16, v1 as u16, v2 as u16), timestamp };
    Ok(Some(info))
}

/// Where the fields of a tail stand.
proof fn lemma_tail_places(
    hone: Seq<u8>,
    name: Seq<u8>,
    script: Seq<u8>,
    version: (u16, u16, u16),
    timestamp: u64,
)
    ensures
        ({
            let t = tail(hone, name, script, version, timestamp);
            &&& t.len() == 56
            &&& t.subrange(0, 8) == bundle_mark()
            &&& t.subrange(8, 16) == le(hone.len(), 8)
            &&& t.subrange(16, 20) == le(name.len(), 4)
            &&& t.subrange(20, 24) == le(script.len(), 4)
            &&& t.subrange(24, 26) == le(version.0 as nat, 2)
            &&& t.subrange(26, 28) == le(version.1 as nat, 2)
            &&& t.subrange(28, 30) == le(version.2 as nat, 2)
            &&& t.subrange(32, 40) == le(timestamp as nat, 8)
            &&& t.subrange(40, 48) == le(checksum(hone) as nat, 8)
            &&& t.subrange(48, 56) == le(checksum(script) as nat, 8)
        }),
{
    let t = tail(hone, name, script, version, timestamp);
    lemma_le(hone.len(), 8);
    lemma_le(name.len(), 4);
    lemma_le(script.len(), 4);
    lemma_le(version.0 as nat, 2);
    lemma_le(version.1 as nat, 2);
    lemma_le(version.2 as nat, 2);
    lemma_le(0, 2);
    lemma_le(timestamp as nat, 8);
    lemma_le(checksum(hone) as nat, 8);
    lemma_le(checksum(script) as nat, 8);
    assert(t.len() == 56);
    assert(t.subrange(0, 8) =~= bundle_mark());
    assert(t.subrange(8, 16) =~= le(hone.len(), 8));
    assert(t.subrange(16, 20) =~= le(name.len(), 4));
    assert(t.subrange(20, 24) =~= le(script.len(), 4));
    assert(t.subrange(24, 26) =~= le(version.0 as nat, 2));
    assert(t.subrange(26, 28) =~= le(version.1 as nat, 2));
    assert(t.subrange(28, 30) =~= le(version.2 as nat, 2));
    assert(t.subrange(32, 40) =~= le(timestamp as nat, 8));
    assert(t.subrange(40, 48) =~= le(checksum(hone) as nat, 8));
    assert(t.subrange(48, 56) =~= le(checksum(script) as nat, 8));
}

/// A part of the tail of some bytes.
proof fn lemma_in_tail(front: Seq<u8>, t: Seq<u8>, i: int, j: int)
    requires
        0 <= i <= j <= t.len(),
    ensures
        (front + t).subrange(front.len() + i, front.len() + j) == t.subrange(i, j),
{
    assert((front + t).subrange(front.len() + i, front.len() + j) =~= t.subrange(i, j));
}

/// A bundle gives back what it was made of, where the lengths of the name and the script
/// fit into four bytes and that of the runtime into eight.
pub proof fn law_bundle_reads_back(
    hone: Seq<u8>,
    script: Seq<char>,
    name: Seq<char>,
    version: (u16, u16, u16),
    timestamp: u64,
)
    requires
        hone.len() <= u64::MAX,
        encode_utf8(script).len() < 0x1_0000_0000,
        encode_utf8(name).len() < 0x1_0000_0000,
    ensures
        bundle_of(bundle(hone, script, name, version, timestamp)) == Ok::<Option<InfoV>, ErrV>(
            Some(InfoV { hone, name, script: encode_utf8(script), version, timestamp }),
        ),
{
    let s = encode_utf8(script);
    let n = encode_utf8(name);
    let t = tail(hone, n, s, version, timestamp);
    let front = hone + n + s;
    let data = bundle(hone, script, name, version, timestamp);
    assert(data == front + t);
    lemma_tail_places(hone, n, s, version, timestamp);
    reveal_with_fuel(room, 9);
    lemma_le(hone.len(), 8);
    lemma_le(n.len(), 4);
    lemma_le(s.len(), 4);
    lemma_le(version.0 as nat, 2);
    lemma_le(version.1 as nat, 2);
    lemma_le(version.2 as nat, 2);
    lemma_le(timestamp as nat, 8);
    lemma_le(checksum(hone) as nat, 8);
    lemma_le(checksum(s) as nat, 8);
    lemma_in_tail(front, t, 0, 8);
    lemma_in_tail(front, t, 8, 16);
    lemma_in_tail(front, t, 16, 20);
    lemma_in_tail(front, t, 20, 24);
    lemma_in_tail(front, t, 24, 26);
    lemma_in_tail(front, t, 26, 28);
    lemma_in_tail(front, t, 28, 30);
    lemma_in_tail(front, t, 32, 40);
    lemma_in_tail(front, t, 40, 48);
    lemma_in_tail(front, t, 48, 56);
    let a = hone.len() as int;
    let b = n.len() as int;
    let c = s.len() as int;
    assert(data.subrange(0, a) =~= hone);
    assert(data.subrange(a, a + b) =~= n);
    assert(data.subrange(a + b, a + b + c) =~= s);
    lemma_text(name);
}

/// The text that a bundle shows for its version.
pub open spec fn version_lines(info: InfoV, exe_name: Seq<char>) -> Seq<char> {
    exe_name + " (Hone v"@ + dec(info.version.0 as nat) + "."@ + dec(info.version.1 as nat) + "."@ + dec(
        info.version.2 as nat,
    ) + ") built at "@ + time_text((info.timestamp as i64) as int, "YYYY-MM-DD HH:mm:SS"@) + "\nscript: "@
        + info.name
}

/// The text that a bundle shows for its version.
pub fn show_version(info: &BundledInfo, exe_name: &str) -> (r: String)
    ensures
        r@ == version_lines(info@, exe_name@),
{
    let mut out = exe_name.to_owned();
    out.append(" (Hone v");
    out.append(dec_u64(info.version.0 as u64).as_str());
    out.append(".");
    out.append(dec_u64(info.version.1 as u64).as_str());
    out.append(".");
    out.append(dec_u64(info.version.2 as u64).as_str());
    out.append(") built at ");
    out.append(format_timestamp(info.timestamp as i64, "YYYY-MM-DD HH:mm:SS").as_str());
    out.append("\nscript: ");
    out.append(info.name.as_str());
    out
}

/// What a bundled executable does with its arguments.
pub enum Launch {
    /// Shows its version.
    Version,
    /// Runs the script with the arguments.
    Run { keep_cache: bool, script_args: Vec<String> },
}

/// Whether an argument asks for the version.
pub open spec fn asks_version(a: Seq<char>) -> bool {
    a == "--version"@ || a == "-V"@
}

/// The arguments that are left for the script.
pub open spec fn left_args(args: Seq<Seq<char>>, n: int) -> Seq<Seq<char>>
    decreases n,
{
    if n <= 0 || n > args.len() {
        Seq::empty()
    } else if args[n - 1] == "--keep-cache"@ {
        left_args(args, n - 1)
    } else {
        left_args(args, n - 1).push(args[n - 1])
    }
}

/// What a bundled executable does: any `--version` or `-V` shows the version; otherwise it
/// runs the script with the arguments but `--keep-cache`, which keeps the unpacked files.
pub fn launch(args: &Vec<String>) -> (r: Launch)
    ensures
        match r {
            Launch::Version => exists|i: int| 0 <= i < args.len() && asks_version(#[trigger] args@[i]@),
            Launch::Run { keep_cache, script_args } => {
                &&& forall|i: int| 0 <= i < args.len() ==> !asks_version(#[trigger] args@[i]@)
                &&& keep_cache == (exists|i: int| 0 <= i < args.len() && #[trigger] args@[i]@ == "--keep-cache"@)
                &&& strs(script_args@) == left_args(strs(args@), args.len() as int)
            },
        },
{
    let mut keep_cache = false;
    let mut script_args: Vec<String> = Vec::new();
    let mut i: usize = 0;
    assert(strs(script_args@) =~= Seq::empty());
    while i < args.len()
        invariant
            i <= args.len(),
            forall|k: int| 0 <= k < i ==> !asks_version(#[trigger] args@[k]@),
            keep_cache == (exists|k: int| 0 <= k < i && #[trigger] args@[k]@ == "--keep-cache"@),
            strs(script_args@) == left_args(strs(args@), i as int),
        decreases args.len() - i,
    {
        let a = args[i].as_str();
        if eq(a, "--version") || eq(a, "-V") {
            assert(asks_version(args@[i as int]@));
            return Launch::Version;
        }
        assert(strs(args@)[i as int] == args@[i as int]@);
        let ghost was = script_args@;
        let ghost kept = keep_cache;
        if eq(a, "--keep-cache") {
            keep_cache = true;
            assert(args@[i as int]@ == "--keep-cache"@);
        } else {
            script_args.push(a.to_owned());
            assert(strs(script_args@) =~= strs(was).push(a@));
        }
        i = i + 1;
        proof {
            if kept {
                let k = choose|k: int| 0 <= k < i - 1 && #[trigger] args@[k]@ == "--keep-cache"@;
                assert(args@[k]@ == "--keep-cache"@);
            }
        }
    }
    Launch::Run { keep_cache, script_args }
}

/// A character of a script's name in the name of a directory.
pub open spec fn dir_char(c: char) -> char {
    if c == '.' || c == '\\' || c == '/' {
        '_'
    } else {
        c
    }
}

/// The name of the directory for unpacked files outside the working directory.
pub fn cache_name(name: &str) -> (r: String)
    ensures
        r@ == "hone-bundle-"@ + name@.map_values(|c: char| dir_char(c)),
{
    let v = chars(name);
    let mut out = "hone-bundle-".to_owned();
    let mut i: usize = 0;
    while i < v.len()
        invariant
            i <= v.len(),
            v@ == name@,
            out@ =~= "hone-bundle-"@ + name@.take(i as int).map_values(|c: char| dir_char(c)),
        decreases v.len() - i,
    {
        let c = v[i];
        assert(name@.take(i + 1).map_values(|c: char| dir_char(c)) =~= name@.take(i as int).map_values(
            |c: char| dir_char(c),
        ).push(dir_char(c)));
        out.push(if c == '.' || c == '\\' || c == '/' { '_' } else { c });
        i = i + 1;
    }
    assert(name@.take(i as int) =~= name@);
    out
}

/// Whether a file that was unpacked before can stay: its length and its checksum are those
/// of the part.
pub fn cache_file_ok(bytes: &[u8], expect: &[u8]) -> (r: bool)
    ensures
        r == (bytes.len() == expect.len() && checksum(bytes@) == checksum(expect@)),
{
    bytes.len() == expect.len() && fnv1a64(bytes) == fnv1a64(expect)
}

} // verus!
