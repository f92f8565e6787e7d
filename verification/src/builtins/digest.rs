//! Checksums, keyed checksums, base64 and regular expressions.

use vstd::prelude::*;
use vstd::utf8::encode_utf8;

use super::basics::{get_text, text_at};
use super::world::{fail, failed, Out, OutV, Place, PlaceV};
use crate::bytes::{lemma_text, read_text, text_of};
use crate::error::codes;
use crate::text::{cat2, cat4, eq};
use crate::value::{values_v, Value, ValueV};
use crate::words::{lemma_trimmed, trim, trimmed};

verus! {

/// The MD5 digest of bytes in hexadecimal digits.
pub uninterp spec fn md5_text(bytes: Seq<u8>) -> Seq<char>;

/// The MD5 digest of bytes in hexadecimal digits (`md5::Md5::digest`, written with
/// `{:x}`): it depends on the bytes alone.
#[verifier::external_body]
pub(crate) fn md5_hex(bytes: &[u8]) -> (r: String)
    ensures
        r@ == md5_text(bytes@),
{
    format!("{:x}", <md5::Md5 as sha2::Digest>::digest(bytes))
}

/// The SHA-1 digest of bytes in hexadecimal digits.
pub uninterp spec fn sha1_text(bytes: Seq<u8>) -> Seq<char>;

/// The SHA-1 digest of bytes in hexadecimal digits (`sha1::Sha1::digest`, written with
/// `{:x}`): it depends on the bytes alone.
#[verifier::external_body]
pub(crate) fn sha1_hex(bytes: &[u8]) -> (r: String)
    ensures
        r@ == sha1_text(bytes@),
{
    format!("{:x}", <sha1::Sha1 as sha2::Digest>::digest(bytes))
}

/// The SHA-256 digest of bytes in hexadecimal digits.
pub uninterp spec fn sha256_text(bytes: Seq<u8>) -> Seq<char>;

/// The SHA-256 digest of bytes in hexadecimal digits (`sha2::Sha256::digest`, written
/// with `{:x}`): it depends on the bytes alone.
#[verifier::external_body]
pub(crate) fn sha256_hex(bytes: &[u8]) -> (r: String)
    ensures
        r@ == sha256_text(bytes@),
{
    format!("{:x}", <sha2::Sha256 as sha2::Digest>::digest(bytes))
}

/// The keyed SHA-256 digest of a message in hexadecimal digits, where the key is accepted.
pub uninterp spec fn hmac_text(key: Seq<u8>, msg: Seq<u8>) -> Option<Seq<char>>;

/// The keyed SHA-256 digest of a message in hexadecimal digits (`hmac::Hmac` over
/// `sha2::Sha256`, written with `{:x}`): it depends on the key and the message alone.
#[verifier::external_body]
pub(crate) fn hmac_hex(key: &[u8], msg: &[u8]) -> (r: Option<String>)
    ensures
        crate::error::opt_text(r) == hmac_text(key@, msg@),
{
    let mac = <hmac::Hmac<sha2::Sha256> as hmac::Mac>::new_from_slice(key).ok()?;
    let mac = hmac::Mac::chain_update(mac, msg);
    Some(format!("{:x}", hmac::Mac::finalize(mac).into_bytes()))
}

/// The base64 text of bytes.
pub uninterp spec fn base64_text(bytes: Seq<u8>) -> Seq<char>;

/// The bytes of a base64 text, or why it is none.
pub uninterp spec fn base64_bytes(s: Seq<char>) -> Result<Seq<u8>, Seq<char>>;

/// Whether a character may stand in a base64 text.
pub open spec fn base64_char(c: char) -> bool {
    'A' <= c <= 'Z' || 'a' <= c <= 'z' || '0' <= c <= '9' || c == '+' || c == '/' || c == '='
}

/// Whether a base64 text stands for bytes.
pub open spec fn decodes_to(s: Seq<char>, bytes: Seq<u8>) -> bool {
    base64_bytes(s) == Ok::<Seq<u8>, Seq<char>>(bytes)
}

/// The base64 text of bytes (`Engine::encode` of base64's `STANDARD` engine): it is made of
/// the letters, the digits and `+`, `/` and `=`, and the same engine decodes it to the bytes.
#[verifier::external_body]
pub(crate) fn base64_encode(bytes: &[u8]) -> (r: String)
    ensures
        r@ == base64_text(bytes@),
        forall|i: int| 0 <= i < r@.len() ==> base64_char(#[trigger] r@[i]),
        decodes_to(r@, bytes@),
{
    base64::Engine::encode(&base64::engine::general_purpose::STANDARD, bytes)
}

/// The mathematical form of bytes or a message.
pub open spec fn bytes_r(r: Result<Vec<u8>, String>) -> Result<Seq<u8>, Seq<char>> {
    match r {
        Ok(b) => Ok(b@),
        Err(e) => Err(e@),
    }
}

/// The mathematical form of a text or a message.
pub open spec fn text_r(r: Result<String, String>) -> Result<Seq<char>, Seq<char>> {
    match r {
        Ok(t) => Ok(t@),
        Err(e) => Err(e@),
    }
}

/// The mathematical form of an answer or a message.
pub open spec fn bool_r(r: Result<bool, String>) -> Result<bool, Seq<char>> {
    match r {
        Ok(b) => Ok(b),
        Err(e) => Err(e@),
    }
}

/// The bytes of a base64 text (`Engine::decode` of base64's `STANDARD` engine), or the text
/// of the error: they depend on the text alone.
#[verifier::external_body]
pub(crate) fn base64_decode(s: &str) -> (r: Result<Vec<u8>, String>)
    ensures
        bytes_r(r) == base64_bytes(s@),
{
    base64::Engine::decode(&base64::engine::general_purpose::STANDARD, s).map_err(|e| e.to_string())
}

/// Whether a regular expression matches somewhere in a text, or why it is none.
pub uninterp spec fn pattern_matches(pattern: Seq<char>, text: Seq<char>) -> Result<bool, Seq<char>>;

/// Whether a regular expression matches somewhere in a text (`regex::Regex::new` and
/// `Regex::is_match`), or the text of the error: it depends on the two alone.
#[verifier::external_body]
pub(crate) fn is_match(pattern: &str, text: &str) -> (r: Result<bool, String>)
    ensures
        bool_r(r) == pattern_matches(pattern@, text@),
{
    regex::Regex::new(pattern).map(|re| re.is_match(text)).map_err(|e| e.to_string())
}

/// A text with every match of a regular expression replaced, or why it is none.
pub uninterp spec fn pattern_replaced(pattern: Seq<char>, text: Seq<char>, with: Seq<char>) -> Result<
    Seq<char>,
    Seq<char>,
>;

/// A text with every match of a regular expression replaced (`regex::Regex::new` and
/// `Regex::replace_all`), or the text of the error: it depends on the three alone.
#[verifier::external_body]
pub(crate) fn replace_all(pattern: &str, text: &str, with: &str) -> (r: Result<String, String>)
    ensures
        text_r(r) == pattern_replaced(pattern@, text@, with@),
{
    regex::Regex::new(pattern).map(|re| re.replace_all(text, with).to_string()).map_err(|e| e.to_string())
}

/// Functions of checksums.
pub open spec fn digest_fn(p: PlaceV, name: Seq<char>, a: Seq<ValueV>) -> OutV {
    match text_at(p, name, a, 0) {
        Err(o) => o,
        Ok(s) => if name == "crypto.md5"@ {
            OutV::Value(ValueV::Str(md5_text(encode_utf8(s))))
        } else if name == "crypto.sha1"@ {
            OutV::Value(ValueV::Str(sha1_text(encode_utf8(s))))
        } else if name == "crypto.sha256"@ {
            OutV::Value(ValueV::Str(sha256_text(encode_utf8(s))))
        } else {
            match text_at(p, name, a, 1) {
                Err(o) => o,
                Ok(m) => keyed(p, hmac_text(encode_utf8(s), encode_utf8(m))),
            }
        },
    }
}

/// What a keyed digest comes to.
pub open spec fn keyed(p: PlaceV, r: Option<Seq<char>>) -> OutV {
    match r {
        Some(t) => OutV::Value(ValueV::Str(t)),
        None => failed(p, codes::TYPE_MISMATCH@, "invalid HMAC key"@, None),
    }
}

/// Calls a function of checksums.
pub fn do_digest(p: &Place, name: &str, a: &Vec<Value>) -> (r: Out)
    requires
        a.len() >= 1,
        name@ != "crypto.md5"@ && name@ != "crypto.sha1"@ && name@ != "crypto.sha256"@ ==> a.len() >= 2,
    ensures
        r@ == digest_fn(p@, name@, values_v(a@)),
{
    let s = match get_text(p, name, a, 0) {
        Err(o) => return o,
        Ok(s) => s,
    };
    if eq(name, "crypto.md5") {
        Out::Value(Value::Str(md5_hex(s.as_bytes())))
    } else if eq(name, "crypto.sha1") {
        Out::Value(Value::Str(sha1_hex(s.as_bytes())))
    } else if eq(name, "crypto.sha256") {
        Out::Value(Value::Str(sha256_hex(s.as_bytes())))
    } else {
        match get_text(p, name, a, 1) {
            Err(o) => o,
            Ok(m) => match hmac_hex(s.as_bytes(), m.as_bytes()) {
                Some(t) => Out::Value(Value::Str(t)),
                None => fail(p, codes::TYPE_MISMATCH, "invalid HMAC key", None),
            },
        }
    }
}

/// What a decoded text comes to.
pub open spec fn decoded(p: PlaceV, r: Result<Seq<u8>, Seq<char>>) -> OutV {
    match r {
        Ok(b) => OutV::Value(ValueV::Str(text_of(b))),
        Err(e) => failed(
            p,
            codes::TYPE_MISMATCH@,
            "invalid base64 input: "@ + e,
            Some("pass a valid base64 string, e.g. `aGVsbG8=`"@),
        ),
    }
}

/// What a decoded text comes to.
pub fn decode_outcome(p: &Place, r: Result<Vec<u8>, String>) -> (o: Out)
    ensures
        o@ == decoded(p@, bytes_r(r)),
{
    match r {
        Ok(b) => Out::Value(Value::Str(read_text(b.as_slice()))),
        Err(e) => {
            let msg = cat2("invalid base64 input: ", e.as_str());
            fail(
                p,
                codes::TYPE_MISMATCH,
                msg.as_str(),
                Some("pass a valid base64 string, e.g. `aGVsbG8=`"),
            )
        },
    }
}

/// Functions of base64: the text of a text's bytes, and back.
pub open spec fn base64_fn(p: PlaceV, name: Seq<char>, a: Seq<ValueV>) -> OutV {
    match text_at(p, name, a, 0) {
        Err(o) => o,
        Ok(s) => if name == "crypto.base64_encode"@ {
            OutV::Value(ValueV::Str(base64_text(encode_utf8(s))))
        } else {
            decoded(p, base64_bytes(trimmed(s)))
        },
    }
}

/// The text of a text's bytes in base64, and back; decoding an encoded text gives the text
/// back.
pub fn do_base64(p: &Place, name: &str, a: &Vec<Value>) -> (r: Out)
    requires
        a.len() >= 1,
    ensures
        r@ == base64_fn(p@, name@, values_v(a@)),
        name@ == "crypto.base64_encode"@ && a@[0]@ is Str ==> (r@ matches OutV::Value(ValueV::Str(t))
            && base64_fn(p@, "crypto.base64_decode"@, seq![ValueV::Str(t)]) == OutV::Value(a@[0]@)),
{
    assert(values_v(a@)[0] == a@[0]@);
    let s = match get_text(p, name, a, 0) {
        Err(o) => return o,
        Ok(s) => s,
    };
    if eq(name, "crypto.base64_encode") {
        let e = base64_encode(s.as_bytes());
        proof {
            reveal_strlit("crypto.base64_encode");
            reveal_strlit("crypto.base64_decode");
            assert("crypto.base64_encode"@[14] != "crypto.base64_decode"@[14]);
            if e@.len() > 0 {
                assert(base64_char(e@[0]));
                assert(base64_char(e@[e@.len() - 1]));
            }
            lemma_trimmed(e@);
            lemma_text(s@);
        }
        Out::Value(Value::Str(e))
    } else {
        let t = trim(s);
        decode_outcome(p, base64_decode(t.as_str()))
    }
}

/// What a regular expression comes to.
pub open spec fn matched(p: PlaceV, pattern: Seq<char>, r: Result<ValueV, Seq<char>>) -> OutV {
    match r {
        Ok(v) => OutV::Value(v),
        Err(e) => failed(p, codes::SYNTAX@, "invalid regex `"@ + pattern + "`: "@ + e, None),
    }
}

/// Functions of regular expressions: whether one matches, and a replacement.
pub open spec fn pattern_fn(p: PlaceV, name: Seq<char>, a: Seq<ValueV>) -> OutV {
    match text_at(p, name, a, 0) {
        Err(o) => o,
        Ok(pat) => match text_at(p, name, a, 1) {
            Err(o) => o,
            Ok(t) => if name == "regex.match"@ {
                matched(
                    p,
                    pat,
                    match pattern_matches(pat, t) {
                        Ok(b) => Ok(ValueV::Bool(b)),
                        Err(e) => Err(e),
                    },
                )
            } else {
                match text_at(p, name, a, 2) {
                    Err(o) => o,
                    Ok(w) => matched(
                        p,
                        pat,
                        match pattern_replaced(pat, t, w) {
                            Ok(s) => Ok(ValueV::Str(s)),
                            Err(e) => Err(e),
                        },
                    ),
                }
            },
        },
    }
}

fn bad_pattern(p: &Place, pattern: &str, e: &str) -> (r: Out)
    ensures
        r@ == matched(p@, pattern@, Err(e@)),
{
    let msg = cat4("invalid regex `", pattern, "`: ", e);
    fail(p, codes::SYNTAX, msg.as_str(), None)
}

/// Calls a function of regular expressions.
pub fn do_pattern(p: &Place, name: &str, a: &Vec<Value>) -> (r: Out)
    requires
        a.len() >= 2,
        name@ != "regex.match"@ ==> a.len() >= 3,
    ensures
        r@ == pattern_fn(p@, name@, values_v(a@)),
{
    let pat = match get_text(p, name, a, 0) {
        Err(o) => return o,
        Ok(s) => s,
    };
    let t = match get_text(p, name, a, 1) {
        Err(o) => return o,
        Ok(s) => s,
    };
    if eq(name, "regex.match") {
        match is_match(pat, t) {
            Ok(b) => Out::Value(Value::Bool(b)),
            Err(e) => bad_pattern(p, pat, e.as_str()),
        }
    } else {
        match get_text(p, name, a, 2) {
            Err(o) => o,
            Ok(w) => match replace_all(pat, t, w) {
                Ok(s) => Out::Value(Value::Str(s)),
                Err(e) => bad_pattern(p, pat, e.as_str()),
            },
        }
    }
}

} // verus!
