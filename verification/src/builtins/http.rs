//! Network requests: from a URL to what is sent, and from what came back to a text.

use vstd::prelude::*;
use vstd::utf8::{decode_utf8, encode_utf8, valid_utf8};

use super::basics::{get_text, text_at};
use super::world::{
    failed, fault, HttpCall, HttpCallV, IoKind, NetStep, Out, OutV, Pending, PendingV, Place,
    PlaceV, Request, RequestV,
};
use crate::bytes::{find, first_at, part, push_all, read_text, text_of};
use crate::error::{codes, ErrV, ZError};
use crate::text::{
    cat2, cat3, cat4, cat5, chars, dec, dec_u64, dec_usize, eq, lemma_pos_of_is, lines, pos_of,
    slice, split_lines, strs,
};
use crate::value::{values_v, Value, ValueV};
use crate::words::{
    contains, has_sub, int_of, lowercase, parse_int, split_words, starts, starts_with, to_lowercase, trim, trimmed,
    words_from,
};

verus! {

/// The number up to 65535 that a text gives.
pub open spec fn short_of(s: Seq<char>) -> Option<int> {
    if s.len() > 0 && s[0] == '-' {
        None
    } else {
        match int_of(s) {
            Some(n) => if n <= 65535 {
                Some(n)
            } else {
                None
            },
            None => None,
        }
    }
}

/// The number up to 65535 that a text gives.
pub(crate) fn parse_short(s: &str) -> (r: Option<u64>)
    ensures
        match r {
            Some(n) => short_of(s@) == Some(n as int) && n <= 65535,
            None => short_of(s@) is None,
        },
{
    let v = chars(s);
    if v.len() > 0 && v[0] == '-' {
        return None;
    }
    match parse_int(s) {
        Some(n) => {
            proof {
                lemma_not_negative(s@);
            }
            if n <= 65535 {
                Some(n as u64)
            } else {
                None
            }
        },
        None => None,
    }
}

/// A text without a minus sign gives no negative number.
proof fn lemma_not_negative(s: Seq<char>)
    requires
        !(s.len() > 0 && s[0] == '-'),
    ensures
        int_of(s) is Some ==> int_of(s)->0 >= 0,
{
}

/// Where a URL leads: whether over TLS, to which host and port, and to which path.
pub struct TargetV {
    pub tls: bool,
    pub host: Seq<char>,
    pub port: int,
    pub path: Seq<char>,
}

/// Where a URL leads; nowhere without `http://` or `https://`.
pub open spec fn target(url: Seq<char>) -> Option<TargetV> {
    let tls = starts(url, "https://"@);
    if !tls && !starts(url, "http://"@) {
        None
    } else {
        let rest = url.skip(if tls { "https://"@.len() as int } else { "http://"@.len() as int });
        let i = pos_of(rest, '/') as int;
        let place = rest.take(i);
        let path = if i < rest.len() {
            rest.skip(i)
        } else {
            "/"@
        };
        let standard: int = if tls { 443 } else { 80 };
        let j = pos_of(place, ':') as int;
        let port = if j < place.len() {
            match short_of(place.skip(j + 1)) {
                Some(n) => n,
                None => standard,
            }
        } else {
            standard
        };
        Some(TargetV { tls, host: place.take(j), port, path })
    }
}

/// The head of a request.
pub open spec fn request_head(method: Seq<char>, t: TargetV, body: Option<Seq<char>>) -> Seq<char> {
    let standard: int = if t.tls { 443 } else { 80 };
    let host = if t.port == standard {
        t.host
    } else {
        t.host + ":"@ + dec(t.port as nat)
    };
    let top = method + " "@ + t.path + " HTTP/1.1\r\nHost: "@ + host + "\r\nUser-Agent: hone/0.1.0\r\n"@;
    match body {
        Some(b) => top + "Content-Type: text/plain\r\nContent-Length: "@ + dec(encode_utf8(b).len())
            + "\r\nConnection: close\r\n\r\n"@,
        None => top + "Connection: close\r\n\r\n"@,
    }
}

/// A request, or the error of a URL that leads nowhere.
pub open spec fn http_call(p: PlaceV, url: Seq<char>, method: Seq<char>, body: Option<Seq<char>>) -> Result<
    HttpCallV,
    ErrV,
> {
    match target(url) {
        None => Err(
            fault(
                p,
                codes::NETWORK@,
                url + ": URL must start with `http://` or `https://`"@,
                Some("prefix the URL with `http://` or `https://`"@),
            ),
        ),
        Some(t) => Ok(
            HttpCallV {
                tls: t.tls,
                host: t.host,
                addr: t.host + ":"@ + dec(t.port as nat),
                head: request_head(method, t, body),
                body: match body {
                    Some(b) => b,
                    None => Seq::empty(),
                },
            },
        ),
    }
}

fn position(v: &Vec<char>, from: usize, c: char) -> (r: usize)
    requires
        from <= v.len(),
    ensures
        from <= r <= v.len(),
        r - from == pos_of(v@.skip(from as int), c),
{
    let mut i: usize = from;
    while i < v.len() && v[i] != c
        invariant
            from <= i <= v.len(),
            forall|k: int| from <= k < i ==> v@[k] != c,
        decreases v.len() - i,
    {
        i = i + 1;
    }
    proof {
        lemma_pos_of_is(v@.skip(from as int), c, i - from);
    }
    i
}

/// The mathematical form of a request or an error.
pub open spec fn call_r(r: Result<HttpCall, ZError>) -> Result<HttpCallV, ErrV> {
    match r {
        Ok(c) => Ok(c@),
        Err(e) => Err(e@),
    }
}

/// A request, or the error of a URL that leads nowhere.
pub fn plan(p: &Place, url: &str, method: &str, body: Option<&str>) -> (r: Result<HttpCall, ZError>)
    ensures
        call_r(r) == http_call(p@, url@, method@, crate::error::opt_str(body)),
{
    let tls = starts_with(url, "https://");
    if !tls && !starts_with(url, "http://") {
        let msg = cat2(url, ": URL must start with `http://` or `https://`");
        return Err(
            p.fault(codes::NETWORK, msg.as_str(), Some("prefix the URL with `http://` or `https://`")),
        );
    }
    proof {
        reveal_strlit("https://");
        reveal_strlit("http://");
    }
    let v = chars(url);
    let n: usize = v.len();
    let from: usize = if tls { 8 } else { 7 };
    let ghost rest = url@.skip(from as int);
    let i: usize = position(&v, from, '/');
    let place = slice(&v, from, i);
    assert(place@ =~= rest.take(i - from));
    let path = if i < n {
        let t = slice(&v, i, n);
        assert(t@ =~= rest.skip(i - from));
        t
    } else {
        "/".to_owned()
    };
    let standard: u64 = if tls { 443 } else { 80 };
    let w = chars(place.as_str());
    let m: usize = w.len();
    assert(w@.skip(0) =~= w@);
    let j: usize = position(&w, 0, ':');
    let host = slice(&w, 0, j);
    assert(host@ =~= place@.take(j as int));
    let port: u64 = if j < m {
        let digits = slice(&w, j + 1, m);
        assert(digits@ =~= place@.skip(j + 1));
        match parse_short(digits.as_str()) {
            Some(k) => k,
            None => standard,
        }
    } else {
        standard
    };
    let addr = cat3(host.as_str(), ":", dec_u64(port).as_str());
    let shown = if port == standard { host.clone() } else { addr.clone() };
    let mut head = cat5(method, " ", path.as_str(), " HTTP/1.1\r\nHost: ", shown.as_str());
    head.append("\r\nUser-Agent: hone/0.1.0\r\n");
    let sent = match body {
        Some(b) => {
            head.append("Content-Type: text/plain\r\nContent-Length: ");
            head.append(dec_usize(b.as_bytes().len()).as_str());
            head.append("\r\nConnection: close\r\n\r\n");
            b.to_owned()
        },
        None => {
            head.append("Connection: close\r\n\r\n");
            String::new()
        },
    };
    let call = HttpCall { tls, host, addr, head, body: sent };
    assert(body is None ==> call.body@ =~= Seq::empty());
    Ok(call)
}

/// Network functions: `http_get` and `http_post`.
pub open spec fn http_fn(p: PlaceV, name: Seq<char>, a: Seq<ValueV>) -> OutV {
    match text_at(p, name, a, 0) {
        Err(o) => o,
        Ok(url) => if name == "http_get"@ {
            asking(http_call(p, url, "GET"@, None), url)
        } else {
            match text_at(p, name, a, 1) {
                Err(o) => o,
                Ok(b) => asking(http_call(p, url, "POST"@, Some(b)), url),
            }
        },
    }
}

/// A request that is asked for, or its error.
pub open spec fn asking(r: Result<HttpCallV, ErrV>, url: Seq<char>) -> OutV {
    match r {
        Ok(c) => OutV::Ask(RequestV::Http(c), PendingV::Http(url)),
        Err(e) => OutV::Error(e),
    }
}

/// Calls `http_get` or `http_post`.
pub fn do_http(p: &Place, name: &str, a: &Vec<Value>) -> (r: Out)
    requires
        a.len() >= 1,
        name@ != "http_get"@ ==> a.len() >= 2,
    ensures
        r@ == http_fn(p@, name@, values_v(a@)),
{
    let url = match get_text(p, name, a, 0) {
        Err(o) => return o,
        Ok(s) => s,
    };
    let planned = if eq(name, "http_get") {
        plan(p, url, "GET", None)
    } else {
        match get_text(p, name, a, 1) {
            Err(o) => return o,
            Ok(b) => plan(p, url, "POST", Some(b)),
        }
    };
    match planned {
        Ok(c) => Out::Ask(Request::Http(c), Pending::Http(url.to_owned())),
        Err(e) => Out::Error(e),
    }
}

/// The error of a step of a request that went wrong.
pub open spec fn net_fault(p: PlaceV, url: Seq<char>, host: Seq<char>, step: NetStep, kind: IoKind, text: Seq<char>) -> ErrV {
    match step {
        NetStep::TlsSetup => fault(p, codes::NETWORK@, "TLS init failed: "@ + text, None),
        NetStep::HostName => fault(
            p,
            codes::NETWORK@,
            "invalid hostname `"@ + host + "`: "@ + text,
            None,
        ),
        NetStep::Handshake => fault(
            p,
            codes::NETWORK@,
            "TLS handshake with "@ + host + " failed: "@ + text,
            Some("the server certificate may be invalid or self-signed"@),
        ),
        _ => {
            let act = match step {
                NetStep::Connect => "connect"@,
                NetStep::Write => "write"@,
                _ => "read"@,
            };
            let (code, hint) = net_trouble(kind);
            fault(p, code, act + ": "@ + url + ": "@ + text, Some(hint))
        },
    }
}

/// The code and the advice for a network call that went wrong.
pub open spec fn net_trouble(kind: IoKind) -> (Seq<char>, Seq<char>) {
    match kind {
        IoKind::TimedOut => (codes::NET_TIMEOUT@, "the request timed out"@),
        IoKind::ConnectionRefused => (codes::NET_CONN_REFUSED@, "the connection was refused"@),
        IoKind::NotFound | IoKind::AddrNotAvailable => (codes::NET_DNS@, "DNS resolution failed"@),
        _ => (codes::NETWORK@, "check the URL or your network connection"@),
    }
}

/// The host of a URL; nothing where it leads nowhere.
pub open spec fn host_of(url: Seq<char>) -> Seq<char> {
    match target(url) {
        Some(t) => t.host,
        None => Seq::empty(),
    }
}

/// The error of a step of a request that went wrong.
pub fn net_err(p: &Place, url: &str, step: NetStep, kind: IoKind, text: &str) -> (r: ZError)
    ensures
        r@ == net_fault(p@, url@, host_of(url@), step, kind, text@),
{
    match step {
        NetStep::TlsSetup => {
            let msg = cat2("TLS init failed: ", text);
            p.fault(codes::NETWORK, msg.as_str(), None)
        },
        NetStep::HostName => {
            let host = get_host(p, url);
            let msg = cat4("invalid hostname `", host.as_str(), "`: ", text);
            p.fault(codes::NETWORK, msg.as_str(), None)
        },
        NetStep::Handshake => {
            let host = get_host(p, url);
            let msg = cat4("TLS handshake with ", host.as_str(), " failed: ", text);
            p.fault(
                codes::NETWORK,
                msg.as_str(),
                Some("the server certificate may be invalid or self-signed"),
            )
        },
        _ => {
            let act = match step {
                NetStep::Connect => "connect",
                NetStep::Write => "write",
                _ => "read",
            };
            let (code, hint) = match kind {
                IoKind::TimedOut => (codes::NET_TIMEOUT, "the request timed out"),
                IoKind::ConnectionRefused => (codes::NET_CONN_REFUSED, "the connection was refused"),
                IoKind::NotFound | IoKind::AddrNotAvailable => (codes::NET_DNS, "DNS resolution failed"),
                _ => (codes::NETWORK, "check the URL or your network connection"),
            };
            let msg = cat5(act, ": ", url, ": ", text);
            p.fault(code, msg.as_str(), Some(hint))
        },
    }
}

fn get_host(p: &Place, url: &str) -> (r: String)
    ensures
        r@ == host_of(url@),
{
    match plan(p, url, "GET", None) {
        Ok(c) => c.host,
        Err(_) => {
            let s = String::new();
            assert(s@ =~= Seq::empty());
            s
        },
    }
}

/// The end of a head: two line ends.
pub open spec fn blank_line() -> Seq<u8> {
    seq![13u8, 10u8, 13u8, 10u8]
}

/// The head of a response as text and its body.
pub open spec fn split_response(b: Seq<u8>) -> (Seq<char>, Seq<u8>) {
    match first_at(b, 0, blank_line()) {
        Some(i) => (text_of(b.take(i)), b.skip(i + 4)),
        None => (text_of(b), Seq::empty()),
    }
}

/// The status of a response: the second word of its first line.
pub open spec fn status_of(head: Seq<char>) -> int {
    let ls = lines(head);
    let first = if ls.len() > 0 {
        ls[0]
    } else {
        Seq::empty()
    };
    let ws = words_from(first, 0);
    if ws.len() > 1 {
        match short_of(ws[1]) {
            Some(n) => n,
            None => 0,
        }
    } else {
        0
    }
}

fn status(head: &str) -> (r: u64)
    ensures
        r == status_of(head@),
{
    let ls = split_lines(head);
    assert(strs(ls@).len() == ls.len());
    let first = if ls.len() > 0 {
        assert(strs(ls@)[0] == ls@[0]@);
        ls[0].clone()
    } else {
        String::new()
    };
    assert(ls.len() == 0 ==> first@ =~= Seq::empty());
    let ws = split_words(first.as_str());
    assert(strs(ws@).len() == ws.len());
    if ws.len() > 1 {
        assert(strs(ws@)[1] == ws@[1]@);
        match parse_short(ws[1].as_str()) {
            Some(n) => n,
            None => 0,
        }
    } else {
        0
    }
}

/// The value of a hexadecimal digit.
pub open spec fn hex_value(c: char) -> Option<int> {
    if '0' <= c <= '9' {
        Some(c as int - 48)
    } else if 'a' <= c <= 'f' {
        Some(c as int - 87)
    } else if 'A' <= c <= 'F' {
        Some(c as int - 55)
    } else {
        None
    }
}

/// The number that hexadecimal digits from `i` on give behind a number, where it is a size.
pub open spec fn hex_from(s: Seq<char>, i: int, n: int) -> Option<int>
    decreases s.len() - i,
{
    if i < 0 || i >= s.len() {
        Some(n)
    } else {
        match hex_value(s[i]) {
            Some(d) => if n * 16 + d <= usize::MAX {
                hex_from(s, i + 1, n * 16 + d)
            } else {
                None
            },
            None => None,
        }
    }
}

/// The size that a text gives in hexadecimal digits, behind an optional plus sign.
pub open spec fn hex_of(s: Seq<char>) -> Option<int> {
    let from: int = if s.len() > 0 && s[0] == '+' { 1 } else { 0 };
    if s.len() == from {
        None
    } else {
        hex_from(s, from, 0)
    }
}

fn parse_hex(s: &str) -> (r: Option<usize>)
    ensures
        match r {
            Some(n) => hex_of(s@) == Some(n as int),
            None => hex_of(s@) is None,
        },
{
    let v = chars(s);
    let from: usize = if v.len() > 0 && v[0] == '+' { 1 } else { 0 };
    if v.len() == from {
        return None;
    }
    let mut n: usize = 0;
    let mut i: usize = from;
    while i < v.len()
        invariant
            from <= i <= v.len(),
            v@ == s@,
            hex_of(s@) == hex_from(s@, i as int, n as int),
        decreases v.len() - i,
    {
        let c = v[i];
        let d: u128 = if '0' <= c && c <= '9' {
            c as u128 - 48
        } else if 'a' <= c && c <= 'f' {
            c as u128 - 87
        } else if 'A' <= c && c <= 'F' {
            c as u128 - 55
        } else {
            return None;
        };
        let wide: u128 = n as u128 * 16 + d;
        if wide > usize::MAX as u128 {
            return None;
        }
        n = wide as usize;
        i = i + 1;
    }
    Some(n)
}

/// A line end.
pub open spec fn line_end() -> Seq<u8> {
    seq![13u8, 10u8]
}

/// The size on the line of a chunk.
pub open spec fn chunk_size(line: Seq<u8>) -> Option<int> {
    if valid_utf8(line) {
        hex_of(trimmed(decode_utf8(line)))
    } else {
        None
    }
}

/// The content of a chunked body: of each chunk as many bytes as its line says, up to a
/// chunk of size zero, a line that gives no size, or the end.
pub open spec fn unchunked(s: Seq<u8>) -> Seq<u8>
    decreases s.len(),
{
    match first_at(s, 0, line_end()) {
        None => Seq::empty(),
        Some(i) => if i < 0 || i + 2 > s.len() {
            Seq::empty()
        } else {
            match chunk_size(s.take(i)) {
                None => Seq::empty(),
                Some(size) => {
                    let rest = s.skip(i + 2);
                    if size <= 0 {
                        Seq::empty()
                    } else if rest.len() < size + 2 {
                        rest.take(if rest.len() < size { rest.len() as int } else { size })
                    } else {
                        rest.take(size) + unchunked(rest.skip(size + 2))
                    }
                },
            }
        },
    }
}

/// Whether bytes are UTF-8 (`String::from_utf8`): they are exactly where it succeeds, and
/// then it gives the text that they encode.
#[verifier::external_body]
pub(crate) fn utf8_text(bytes: Vec<u8>) -> (r: Option<String>)
    ensures
        r is Some == valid_utf8(bytes@),
        r matches Some(t) ==> t@ == decode_utf8(bytes@),
{
    String::from_utf8(bytes).ok()
}

/// The content of a chunked body.
pub fn decode_chunked_bytes(s: &[u8]) -> (r: Vec<u8>)
    ensures
        r@ == unchunked(s@),
{
    let mut out: Vec<u8> = Vec::new();
    let mut from: usize = 0;
    let crlf: Vec<u8> = vec![13, 10];
    assert(crlf@ =~= line_end());
    assert(s@.skip(0) =~= s@);
    assert(out@ + unchunked(s@.skip(0)) =~= unchunked(s@));
    loop
        invariant
            from <= s.len(),
            crlf@ == line_end(),
            out@ + unchunked(s@.skip(from as int)) == unchunked(s@),
        decreases s.len() - from,
    {
        let ghost rest = s@.skip(from as int);
        let n: usize = s.len();
        let tail = part(s, from, n);
        assert(tail@ =~= rest);
        let i: usize = match find(tail.as_slice(), 0, crlf.as_slice()) {
            None => {
                assert(out@ =~= unchunked(s@));
                return out;
            },
            Some(i) => i,
        };
        let line = part(tail.as_slice(), 0, i);
        assert(line@ =~= rest.take(i as int));
        let size: usize = match utf8_text(line) {
            None => {
                assert(out@ =~= unchunked(s@));
                return out;
            },
            Some(t) => {
                let u = trim(t.as_str());
                match parse_hex(u.as_str()) {
                    None => {
                        assert(out@ =~= unchunked(s@));
                        return out;
                    },
                    Some(k) => k,
                }
            },
        };
        let ghost after = rest.skip(i + 2);
        let start: usize = from + i + 2;
        assert(after =~= s@.skip(start as int));
        let left: usize = n - start;
        if size == 0 {
            assert(out@ =~= unchunked(s@));
            return out;
        }
        if left < 2 || left - 2 < size {
            let k: usize = if left < size { left } else { size };
            let last = part(s, start, start + k);
            assert(last@ =~= after.take(k as int));
            push_all(&mut out, last.as_slice());
            return out;
        }
        let chunk = part(s, start, start + size);
        assert(chunk@ =~= after.take(size as int));
        let ghost before = out@;
        push_all(&mut out, chunk.as_slice());
        from = start + size + 2;
        proof {
            assert(after.skip(size + 2) =~= s@.skip(from as int));
            assert(out@ + unchunked(s@.skip(from as int)) =~= before + unchunked(rest));
        }
    }
}

/// The head of a response and its body: an error where its status is none of success.
pub open spec fn response(p: PlaceV, url: Seq<char>, b: Seq<u8>) -> Result<(Seq<char>, Seq<u8>), ErrV> {
    let (head, body) = split_response(b);
    let n = status_of(head);
    if n < 200 || n >= 300 {
        Err(
            fault(
                p,
                codes::NET_HTTP_STATUS@,
                url + ": HTTP status "@ + dec(n as nat),
                Some("the server returned an error status"@),
            ),
        )
    } else {
        Ok((head, body))
    }
}

/// Whether a head says that the body is chunked.
pub open spec fn is_chunked(head: Seq<char>) -> bool {
    has_sub(lowercase(head), "transfer-encoding: chunked"@)
}

/// The text of a body, chunked or not.
pub open spec fn body_text(body: Seq<u8>, chunked: bool) -> Seq<char> {
    let t = text_of(body);
    if chunked {
        text_of(unchunked(encode_utf8(t)))
    } else {
        t
    }
}

/// The text of a response: an error where its status is none of success, else its body,
/// unchunked where the head says that it is chunked.
pub open spec fn response_text(p: PlaceV, url: Seq<char>, b: Seq<u8>) -> Result<Seq<char>, ErrV> {
    match response(p, url, b) {
        Ok((head, body)) => Ok(body_text(body, is_chunked(head))),
        Err(e) => Err(e),
    }
}

/// The bytes of a response, likewise.
pub open spec fn response_bytes(p: PlaceV, url: Seq<char>, b: Seq<u8>) -> Result<Seq<u8>, ErrV> {
    match response(p, url, b) {
        Ok((head, body)) => Ok(if is_chunked(head) { unchunked(body) } else { body }),
        Err(e) => Err(e),
    }
}

/// The mathematical form of a text or an error.
pub open spec fn got_r(r: Result<String, ZError>) -> Result<Seq<char>, ErrV> {
    match r {
        Ok(t) => Ok(t@),
        Err(e) => Err(e@),
    }
}

/// The mathematical form of bytes or an error.
pub open spec fn loaded_r(r: Result<Vec<u8>, ZError>) -> Result<Seq<u8>, ErrV> {
    match r {
        Ok(b) => Ok(b@),
        Err(e) => Err(e@),
    }
}

/// The head of a response and its body: an error where its status is none of success.
pub fn http_fetch_raw(p: &Place, url: &str, b: &[u8]) -> (r: Result<(String, Vec<u8>), ZError>)
    ensures
        match r {
            Ok(t) => response(p@, url@, b@) == Ok::<(Seq<char>, Seq<u8>), ErrV>((t.0@, t.1@)),
            Err(e) => response(p@, url@, b@) == Err::<(Seq<char>, Seq<u8>), ErrV>(e@),
        },
{
    let mark: Vec<u8> = vec![13, 10, 13, 10];
    assert(mark@ =~= blank_line());
    let n: usize = b.len();
    let (head, body) = match find(b, 0, mark.as_slice()) {
        Some(i) => {
            let h = part(b, 0, i);
            let rest = part(b, i + 4, n);
            assert(h@ =~= b@.take(i as int));
            assert(rest@ =~= b@.skip(i + 4));
            (read_text(h.as_slice()), rest)
        },
        None => {
            let none: Vec<u8> = Vec::new();
            assert(none@ =~= Seq::empty());
            (read_text(b), none)
        },
    };
    let code: u64 = status(head.as_str());
    if code < 200 || code >= 300 {
        let msg = cat3(url, ": HTTP status ", dec_u64(code).as_str());
        return Err(
            p.fault(codes::NET_HTTP_STATUS, msg.as_str(), Some("the server returned an error status")),
        );
    }
    Ok((head, body))
}

fn chunked(head: &str) -> (r: bool)
    ensures
        r == is_chunked(head@),
{
    let low = to_lowercase(head);
    contains(low.as_str(), "transfer-encoding: chunked")
}

/// The text of a body, chunked or not.
pub fn decode_body(body: &[u8], chunked: bool) -> (r: String)
    ensures
        r@ == body_text(body@, chunked),
{
    let t = read_text(body);
    if chunked {
        let plain = decode_chunked_bytes(t.as_str().as_bytes());
        read_text(plain.as_slice())
    } else {
        t
    }
}

/// The text of a response.
pub fn http_request(p: &Place, url: &str, b: &[u8]) -> (r: Result<String, ZError>)
    ensures
        got_r(r) == response_text(p@, url@, b@),
{
    match http_fetch_raw(p, url, b) {
        Err(e) => Err(e),
        Ok((head, body)) => {
            let c = chunked(head.as_str());
            Ok(decode_body(body.as_slice(), c))
        },
    }
}

/// The bytes of a response.
pub fn http_get_bytes(p: &Place, url: &str, b: &[u8]) -> (r: Result<Vec<u8>, ZError>)
    ensures
        loaded_r(r) == response_bytes(p@, url@, b@),
{
    match http_fetch_raw(p, url, b) {
        Err(e) => Err(e),
        Ok((head, body)) => {
            if chunked(head.as_str()) {
                Ok(decode_chunked_bytes(body.as_slice()))
            } else {
                Ok(body)
            }
        },
    }
}

} // verus!
