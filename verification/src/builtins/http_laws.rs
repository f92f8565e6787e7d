//! What holds of every request and response.

use vstd::prelude::*;
use vstd::utf8::encode_utf8;

use super::http::{blank_line, hex_from, hex_of, hex_value, http_call, http_fn, line_end, net_fault, response, status_of, unchunked};
use super::world::{HttpCallV, IoKind, NetStep, OutV, PendingV, PlaceV, RequestV};
use crate::bytes::{at, first_at, lemma_text};
use crate::error::ErrV;
use crate::text::{all_digits, dec, idec, is_digit, lemma_pos_of_is, lines, nat_of};
use crate::value::ValueV;
use crate::words::{int_of, lemma_trimmed, starts, white, word_end, words_from};

verus! {

/// The digits of a number stand for it.
pub proof fn lemma_dec(n: nat)
    ensures
        dec(n).len() > 0,
        all_digits(dec(n)),
        nat_of(dec(n)) == n,
    decreases n,
{
    if n >= 10 {
        lemma_dec(n / 10);
        let d = dec(n / 10);
        let s = dec(n);
        assert(s.drop_last() =~= d);
        assert forall|i: int| 0 <= i < s.len() implies is_digit(#[trigger] s[i]) by {
            if i < d.len() {
                assert(is_digit(d[i]));
            }
        }
        assert(s.last() as nat == 48 + n % 10);
    } else {
        let s = dec(n);
        assert(s.drop_last() =~= Seq::<char>::empty());
        assert(s.last() as nat == 48 + n);
        assert(nat_of(s.drop_last()) == 0);
        assert(nat_of(s) == nat_of(s.drop_last()) * 10 + n);
    }
}

/// An integer reads back from its numeral.
pub proof fn law_numerals_read_back(n: i64)
    ensures
        int_of(idec(n as int)) == Some(n as int),
{
    if n < 0 {
        lemma_dec((-n) as nat);
        assert(idec(n as int).skip(1) =~= dec((-n) as nat));
    } else {
        lemma_dec(n as nat);
        assert(is_digit(dec(n as nat)[0]));
    }
}

/// Whether a text holds a character.
pub open spec fn holds(s: Seq<char>, c: char) -> bool {
    exists|i: int| 0 <= i < s.len() && s[i] == c
}

/// Whether a text can stand as a host in a URL.
pub open spec fn plain_host(h: Seq<char>) -> bool {
    !holds(h, '/') && !holds(h, ':')
}

/// Whether a text can stand behind the host in a URL.
pub open spec fn plain_path(path: Seq<char>) -> bool {
    path.len() == 0 || path[0] == '/'
}

/// The request line for a path.
pub open spec fn request_line(method: Seq<char>, path: Seq<char>) -> Seq<char> {
    method + " "@ + (if path.len() == 0 {
        "/"@
    } else {
        path
    }) + " HTTP/1.1\r\n"@
}

/// Whether a request is the one for a path at a host: its head has the request line, names the
/// host, says how long the body is where there is one, and ends with an empty line.
pub open spec fn asks_for(
    c: HttpCallV,
    method: Seq<char>,
    path: Seq<char>,
    host: Seq<char>,
    body: Option<Seq<char>>,
) -> bool {
    match body {
        None => {
            &&& c.head == request_line(method, path) + "Host: "@ + host
                + "\r\nUser-Agent: hone/0.1.0\r\nConnection: close\r\n\r\n"@
            &&& c.body.len() == 0
        },
        Some(b) => {
            &&& c.head == request_line(method, path) + "Host: "@ + host
                + "\r\nUser-Agent: hone/0.1.0\r\nContent-Type: text/plain\r\nContent-Length: "@ + dec(
                encode_utf8(b).len(),
            ) + "\r\nConnection: close\r\n\r\n"@
            &&& c.body == b
        },
    }
}

/// The scheme of a URL.
pub open spec fn scheme(tls: bool) -> Seq<char> {
    if tls {
        "https://"@
    } else {
        "http://"@
    }
}

/// What starts a text is its scheme alone.
proof fn lemma_scheme(tls: bool, rest: Seq<char>)
    ensures
        starts(scheme(tls) + rest, "https://"@) == tls,
        starts(scheme(tls) + rest, "http://"@) == !tls,
        (scheme(tls) + rest).skip(scheme(tls).len() as int) == rest,
{
    reveal_strlit("https://");
    reveal_strlit("http://");
    let url = scheme(tls) + rest;
    assert(url.skip(scheme(tls).len() as int) =~= rest);
    if tls {
        assert(url.take(8) =~= "https://"@);
        assert(url.take(7)[4] == 's');
    } else {
        assert(url.take(7) =~= "http://"@);
        if url.len() >= 8 {
            assert(url.take(8)[4] == ':');
        }
    }
}

/// A URL without a port: `http` goes in the clear to port 80 and `https` over TLS to port 443
/// of the host that stands in it, and the request names that host and asks for its path, or for
/// `/` where there is none.
pub proof fn law_standard_ports(
    p: PlaceV,
    tls: bool,
    host: Seq<char>,
    path: Seq<char>,
    method: Seq<char>,
    body: Option<Seq<char>>,
)
    requires
        plain_host(host),
        plain_path(path),
    ensures
        ({
            let r = http_call(p, scheme(tls) + host + path, method, body);
            &&& r is Ok
            &&& r->Ok_0.tls == tls
            &&& r->Ok_0.host == host
            &&& r->Ok_0.addr == host + (if tls { ":443"@ } else { ":80"@ })
            &&& asks_for(r->Ok_0, method, path, host, body)
        }),
{
    let url = scheme(tls) + host + path;
    let rest = host + path;
    assert(url =~= scheme(tls) + rest);
    lemma_scheme(tls, rest);
    lemma_pos_of_is(rest, '/', host.len() as int);
    assert(rest.take(host.len() as int) =~= host);
    assert(rest.skip(host.len() as int) =~= path);
    lemma_pos_of_is(host, ':', host.len() as int);
    assert(host.take(host.len() as int) =~= host);
    reveal_strlit(":");
    reveal_strlit(":443");
    reveal_strlit(":80");
    assert(dec(443) =~= seq!['4', '4', '3']) by {
        reveal_with_fuel(dec, 4);
    }
    assert(dec(80) =~= seq!['8', '0']) by {
        reveal_with_fuel(dec, 3);
    }
    assert(":"@ + dec(443) =~= ":443"@);
    assert(":"@ + dec(80) =~= ":80"@);
    let c = http_call(p, url, method, body)->Ok_0;
    assert(c.addr =~= host + (if tls { ":443"@ } else { ":80"@ }));
    lemma_head(method, path, host, body, c.head);
}

/// The head of a request, joined otherwise.
proof fn lemma_head(method: Seq<char>, path: Seq<char>, host: Seq<char>, body: Option<Seq<char>>, head: Seq<char>)
    requires
        ({
            let target = if path.len() == 0 { "/"@ } else { path };
            let top = method + " "@ + target + " HTTP/1.1\r\nHost: "@ + host + "\r\nUser-Agent: hone/0.1.0\r\n"@;
            head == match body {
                Some(b) => top + "Content-Type: text/plain\r\nContent-Length: "@ + dec(encode_utf8(b).len())
                    + "\r\nConnection: close\r\n\r\n"@,
                None => top + "Connection: close\r\n\r\n"@,
            }
        }),
    ensures
        body is None ==> head == request_line(method, path) + "Host: "@ + host
            + "\r\nUser-Agent: hone/0.1.0\r\nConnection: close\r\n\r\n"@,
        body matches Some(b) ==> head == request_line(method, path) + "Host: "@ + host
            + "\r\nUser-Agent: hone/0.1.0\r\nContent-Type: text/plain\r\nContent-Length: "@ + dec(encode_utf8(b).len())
            + "\r\nConnection: close\r\n\r\n"@,
{
    reveal_strlit(" HTTP/1.1\r\nHost: ");
    reveal_strlit(" HTTP/1.1\r\n");
    reveal_strlit("Host: ");
    assert(" HTTP/1.1\r\nHost: "@ =~= " HTTP/1.1\r\n"@ + "Host: "@);
    reveal_strlit("\r\nUser-Agent: hone/0.1.0\r\n");
    reveal_strlit("Connection: close\r\n\r\n");
    reveal_strlit("Content-Type: text/plain\r\nContent-Length: ");
    reveal_strlit("\r\nUser-Agent: hone/0.1.0\r\nConnection: close\r\n\r\n");
    reveal_strlit("\r\nUser-Agent: hone/0.1.0\r\nContent-Type: text/plain\r\nContent-Length: ");
    assert("\r\nUser-Agent: hone/0.1.0\r\nConnection: close\r\n\r\n"@ =~= "\r\nUser-Agent: hone/0.1.0\r\n"@
        + "Connection: close\r\n\r\n"@);
    assert("\r\nUser-Agent: hone/0.1.0\r\nContent-Type: text/plain\r\nContent-Length: "@
        =~= "\r\nUser-Agent: hone/0.1.0\r\n"@ + "Content-Type: text/plain\r\nContent-Length: "@);
    match body {
        None => assert(head =~= request_line(method, path) + "Host: "@ + host
            + "\r\nUser-Agent: hone/0.1.0\r\nConnection: close\r\n\r\n"@),
        Some(b) => assert(head =~= request_line(method, path) + "Host: "@ + host
            + "\r\nUser-Agent: hone/0.1.0\r\nContent-Type: text/plain\r\nContent-Length: "@ + dec(encode_utf8(b).len())
            + "\r\nConnection: close\r\n\r\n"@),
    }
}

/// A URL with a port: the request goes to that port, and names it behind the host, unless it is
/// the one that the scheme stands for.
pub proof fn law_given_port(
    p: PlaceV,
    tls: bool,
    host: Seq<char>,
    port: u16,
    path: Seq<char>,
    method: Seq<char>,
    body: Option<Seq<char>>,
)
    requires
        plain_host(host),
        plain_path(path),
    ensures
        ({
            let place = host + ":"@ + dec(port as nat);
            let r = http_call(p, scheme(tls) + place + path, method, body);
            let named = if (tls && port == 443) || (!tls && port == 80) { host } else { place };
            &&& r is Ok
            &&& r->Ok_0.tls == tls
            &&& r->Ok_0.host == host
            &&& r->Ok_0.addr == place
            &&& asks_for(r->Ok_0, method, path, named, body)
        }),
{
    let n = port as nat;
    lemma_dec(n);
    let d = dec(n);
    reveal_strlit(":");
    let place = host + ":"@ + d;
    let url = scheme(tls) + place + path;
    let rest = place + path;
    assert(url =~= scheme(tls) + rest);
    lemma_scheme(tls, rest);
    assert forall|i: int| 0 <= i < place.len() implies rest[i] != '/' by {
        if i < host.len() {
            assert(rest[i] == host[i]);
        } else if i > host.len() {
            assert(is_digit(d[i - host.len() - 1]));
        }
    }
    lemma_pos_of_is(rest, '/', place.len() as int);
    assert(rest.take(place.len() as int) =~= place);
    assert(rest.skip(place.len() as int) =~= path);
    assert forall|i: int| 0 <= i < host.len() implies place[i] != ':' by {
        assert(place[i] == host[i]);
    }
    lemma_pos_of_is(place, ':', host.len() as int);
    assert(place.take(host.len() as int) =~= host);
    assert(place.skip(host.len() as int + 1) =~= d);
    assert(is_digit(d[0]));
    assert(int_of(d) == Some(n as int));
    let named = if (tls && port == 443) || (!tls && port == 80) { host } else { place };
    let c = http_call(p, url, method, body)->Ok_0;
    lemma_head(method, path, named, body, c.head);
}

/// A URL of another scheme is refused as a network error that names it.
pub proof fn law_other_schemes_are_refused(p: PlaceV, url: Seq<char>, method: Seq<char>, body: Option<Seq<char>>)
    requires
        forall|rest: Seq<char>| url != "http://"@ + rest && url != "https://"@ + rest,
    ensures
        http_call(p, url, method, body) matches Err(e) && e.code == "H200"@ && starts(e.msg, url),
{
    if starts(url, "http://"@) {
        assert(url =~= "http://"@ + url.skip("http://"@.len() as int));
    }
    if starts(url, "https://"@) {
        assert(url =~= "https://"@ + url.skip("https://"@.len() as int));
    }
    let msg = url + ": URL must start with `http://` or `https://`"@;
    assert(msg.take(url.len() as int) =~= url);
}

/// `http_get` asks for a URL with `GET` and sends nothing; `http_post` asks with `POST` and sends
/// its text. What comes back is read for that URL.
pub proof fn law_get_and_post(p: PlaceV, tls: bool, host: Seq<char>, path: Seq<char>, text: Seq<char>)
    requires
        plain_host(host),
        plain_path(path),
    ensures
        ({
            let url = scheme(tls) + host + path;
            let get = http_fn(p, "http_get"@, seq![ValueV::Str(url)]);
            let post = http_fn(p, "http_post"@, seq![ValueV::Str(url), ValueV::Str(text)]);
            &&& get matches OutV::Ask(RequestV::Http(c), PendingV::Http(u)) && u == url && c.tls == tls && c.addr == host
                + (if tls { ":443"@ } else { ":80"@ }) && asks_for(c, "GET"@, path, host, None)
            &&& post matches OutV::Ask(RequestV::Http(c), PendingV::Http(u)) && u == url && c.tls == tls && c.addr
                == host + (if tls { ":443"@ } else { ":80"@ }) && asks_for(c, "POST"@, path, host, Some(text))
        }),
{
    reveal_strlit("http_get");
    reveal_strlit("http_post");
    assert("http_get"@.len() != "http_post"@.len());
    law_standard_ports(p, tls, host, path, "GET"@, None);
    law_standard_ports(p, tls, host, path, "POST"@, Some(text));
}

/// What goes wrong on the network is told apart: a timeout, a refused connection, a name that
/// does not resolve, and anything else, each with the step, the URL and the system's text.
pub proof fn law_network_errors(p: PlaceV, url: Seq<char>, host: Seq<char>, step: NetStep, kind: IoKind, text: Seq<char>)
    requires
        step is Connect || step is Write || step is Read,
    ensures
        ({
            let e = net_fault(p, url, host, step, kind, text);
            let act = if step is Connect { "connect"@ } else if step is Write { "write"@ } else { "read"@ };
            &&& e.code == (if kind is TimedOut {
                "H201"@
            } else if kind is ConnectionRefused {
                "H202"@
            } else if kind is NotFound || kind is AddrNotAvailable {
                "H203"@
            } else {
                "H200"@
            })
            &&& e.msg == act + ": "@ + url + ": "@ + text
            &&& e.file == p.file
            &&& e.line == p.span.line
            &&& e.col == p.span.col
        }),
{
}

/// The hexadecimal digit of a number below sixteen.
pub open spec fn hex_digit(d: nat) -> char {
    if d < 10 {
        (48 + d) as char
    } else {
        (87 + d) as char
    }
}

/// The hexadecimal numeral of a number.
pub open spec fn hex_text(n: nat) -> Seq<char>
    decreases n,
{
    if n < 16 {
        seq![hex_digit(n)]
    } else {
        hex_text(n / 16).push(hex_digit(n % 16))
    }
}

/// One more digit of a hexadecimal numeral.
proof fn lemma_hex_push(s: Seq<char>, c: char, i: int, n: int)
    requires
        0 <= i <= s.len(),
        hex_from(s, i, n) is Some,
        hex_value(c) is Some,
        hex_from(s, i, n)->0 * 16 + hex_value(c)->0 <= usize::MAX,
    ensures
        hex_from(s.push(c), i, n) == Some(hex_from(s, i, n)->0 * 16 + hex_value(c)->0),
    decreases s.len() - i,
{
    let t = s.push(c);
    if i < s.len() {
        assert(t[i] == s[i]);
        let d = hex_value(s[i])->0;
        lemma_hex_push(s, c, i + 1, n * 16 + d);
    } else {
        assert(t[i] == c);
        assert(hex_from(t, i + 1, n * 16 + hex_value(c)->0) == Some(n * 16 + hex_value(c)->0));
    }
}

/// The digits of a hexadecimal numeral stand for its number.
proof fn lemma_hex(n: nat)
    requires
        n <= usize::MAX,
    ensures
        hex_text(n).len() > 0,
        hex_from(hex_text(n), 0, 0) == Some(n as int),
        forall|i: int|
            0 <= i < hex_text(n).len() ==> ('0' <= #[trigger] hex_text(n)[i] <= '9' || 'a' <= hex_text(n)[i] <= 'f'),
    decreases n,
{
    let d = hex_digit(n % 16);
    assert(d as int == (if n % 16 < 10 { 48 + n % 16 } else { 87 + n % 16 }));
    assert(hex_value(d) == Some((n % 16) as int));
    if n >= 16 {
        lemma_hex(n / 16);
        lemma_hex_push(hex_text(n / 16), d, 0, 0);
    } else {
        let s = hex_text(n);
        assert(s[0] == d);
        assert(hex_from(s, 1, n as int) == Some(n as int));
    }
}

/// The first place of some bytes is the first at which they stand.
proof fn lemma_first_at(b: Seq<u8>, i: int, k: int, w: Seq<u8>)
    requires
        0 <= i <= k,
        at(b, k, w),
        forall|j: int| i <= j < k ==> !#[trigger] at(b, j, w),
    ensures
        first_at(b, i, w) == Some(k),
    decreases k - i,
{
    if i < k {
        assert(!at(b, i, w));
        lemma_first_at(b, i + 1, k, w);
    }
}

/// The bytes of a chunk: its size, its content and the line ends.
pub open spec fn chunk(piece: Seq<u8>) -> Seq<u8> {
    encode_utf8(hex_text(piece.len())) + line_end() + piece + line_end()
}

/// A chunked body: its pieces from a place on, each a chunk, and the chunk of size zero.
pub open spec fn chunks(ps: Seq<Seq<u8>>, k: int) -> Seq<u8>
    decreases ps.len() - k,
{
    if k < 0 || k >= ps.len() {
        chunk(Seq::empty())
    } else {
        chunk(ps[k]) + chunks(ps, k + 1)
    }
}

/// Pieces from a place on, one behind the other.
pub open spec fn put_together(ps: Seq<Seq<u8>>, k: int) -> Seq<u8>
    decreases ps.len() - k,
{
    if k < 0 || k >= ps.len() {
        Seq::empty()
    } else {
        ps[k] + put_together(ps, k + 1)
    }
}

/// The line of a chunk is read as its size.
proof fn lemma_chunk_line(n: nat, rest: Seq<u8>)
    requires
        n <= usize::MAX,
    ensures
        ({
            let line = encode_utf8(hex_text(n));
            let b = line + line_end() + rest;
            &&& first_at(b, 0, line_end()) == Some(line.len() as int)
            &&& b.take(line.len() as int) == line
            &&& b.skip(line.len() + 2int) == rest
            &&& super::http::chunk_size(line) == Some(n as int)
        }),
{
    let t = hex_text(n);
    let line = encode_utf8(t);
    let b = line + line_end() + rest;
    lemma_hex(n);
    assert(vstd::utf8::is_ascii_chars(t)) by {
        assert forall|i: int| 0 <= i < t.len() implies 0 <= (#[trigger] t[i]) as nat && (t[i] as nat) < 128 by {
            assert('0' <= t[i] <= '9' || 'a' <= t[i] <= 'f');
        }
    }
    vstd::utf8::is_ascii_chars_encode_utf8(t);
    vstd::utf8::encode_utf8_valid_utf8(t);
    vstd::utf8::encode_utf8_decode_utf8(t);
    let k = line.len() as int;
    assert(b.subrange(k, k + 2) =~= line_end());
    assert forall|j: int| 0 <= j < k implies !#[trigger] at(b, j, line_end()) by {
        if at(b, j, line_end()) {
            assert(b.subrange(j, j + 2)[0] == 13);
            assert(b[j] == line[j]);
            assert('0' <= t[j] <= '9' || 'a' <= t[j] <= 'f');
            assert(line[j] == t[j] as u8);
        }
    }
    lemma_first_at(b, 0, k, line_end());
    assert(b.take(k) =~= line);
    assert(b.skip(k + 2) =~= rest);
    assert('0' <= t[0] <= '9' || 'a' <= t[0] <= 'f');
    assert('0' <= t[t.len() - 1] <= '9' || 'a' <= t[t.len() - 1] <= 'f');
    lemma_trimmed(t);
    assert(hex_of(t) == Some(n as int));
}

/// A chunked body is read as the pieces that it was made of, one behind the other.
pub proof fn law_chunks_read_back(ps: Seq<Seq<u8>>, k: int)
    requires
        0 <= k <= ps.len(),
        forall|i: int| 0 <= i < ps.len() ==> 0 < (#[trigger] ps[i]).len() <= usize::MAX,
    ensures
        unchunked(chunks(ps, k)) == put_together(ps, k),
    decreases ps.len() - k,
{
    if k == ps.len() {
        let none = Seq::<u8>::empty();
        assert(chunk(none) =~= encode_utf8(hex_text(0)) + line_end() + (none + line_end()));
        lemma_chunk_line(0, none + line_end());
        assert(chunk(none).len() >= encode_utf8(hex_text(0)).len() + 2);
    } else {
        let piece = ps[k];
        let n = piece.len();
        let more = chunks(ps, k + 1);
        let line = encode_utf8(hex_text(n));
        let rest = piece + line_end() + more;
        let b = chunks(ps, k);
        assert(b =~= line + line_end() + rest);
        lemma_chunk_line(n, rest);
        law_chunks_read_back(ps, k + 1);
        assert(rest.take(n as int) =~= piece);
        assert(rest.skip(n + 2int) =~= more);
        assert(rest.len() >= n + 2);
    }
}

/// The end of a word.
proof fn lemma_word_to(s: Seq<char>, i: int, e: int)
    requires
        0 <= i <= e <= s.len(),
        forall|j: int| i <= j < e ==> !white(#[trigger] s[j]),
        e < s.len() ==> white(s[e]),
    ensures
        word_end(s, i) == e,
    decreases e - i,
{
    if i < e {
        assert(!white(s[i]));
        lemma_word_to(s, i + 1, e);
    }
}

/// The first line of a response with a status.
pub open spec fn status_line(n: nat, reason: Seq<char>) -> Seq<char> {
    "HTTP/1.1 "@ + dec(n) + " "@ + reason
}

/// The status stands as the second word of the first line.
proof fn lemma_status(n: nat, reason: Seq<char>, head: Seq<char>)
    requires
        n <= 65535,
        !holds(reason, '\n'),
        !holds(reason, '\r'),
        head == status_line(n, reason) || exists|more: Seq<char>| head == status_line(n, reason) + "\r\n"@ + more,
    ensures
        status_of(head) == n,
{
    let first = status_line(n, reason);
    let d = dec(n);
    lemma_dec(n);
    reveal_strlit("HTTP/1.1 ");
    reveal_strlit(" ");
    reveal_strlit("\r\n");
    assert forall|i: int| 0 <= i < first.len() implies first[i] != '\n' && first[i] != '\r' by {
        if i < 9 {
            assert(first[i] == "HTTP/1.1 "@[i]);
        } else if i < 9 + d.len() {
            assert(first[i] == d[i - 9]);
            assert(is_digit(d[i - 9]));
        } else if i > 9 + d.len() {
            assert(first[i] == reason[i - 10 - d.len()]);
        }
    }
    if head == first {
        lemma_pos_of_is(head, '\n', head.len() as int);
    } else {
        let more = choose|more: Seq<char>| head == first + "\r\n"@ + more;
        let e = first.len() + 1int;
        assert(head[e] == '\n');
        assert forall|i: int| 0 <= i < e implies head[i] != '\n' by {
            if i < first.len() {
                assert(head[i] == first[i]);
            } else {
                assert(head[i] == '\r');
            }
        }
        lemma_pos_of_is(head, '\n', e);
        assert(head.take(e).drop_last() =~= first);
        assert(head.take(e).last() == '\r');
    }
    assert(lines(head)[0] == first);
    assert forall|j: int| 0 <= j < 8 implies !white(#[trigger] first[j]) by {
        assert(first[j] == "HTTP/1.1 "@[j]);
    }
    assert(first[8] == ' ');
    lemma_word_to(first, 0, 8);
    let k = 9 + d.len() as int;
    assert forall|j: int| 9 <= j < k implies !white(#[trigger] first[j]) by {
        assert(first[j] == d[j - 9]);
        assert(is_digit(d[j - 9]));
    }
    assert(first[k] == ' ');
    lemma_word_to(first, 9, k);
    assert(first.subrange(9, k) =~= d);
    assert(!white(first[9]));
    let ws = words_from(first, 0);
    assert(words_from(first, 8) == words_from(first, 9));
    assert(words_from(first, 9)[0] == d);
    assert(ws[1] == d);
    assert(is_digit(d[0]));
    assert(int_of(d) == Some(n as int));
}

/// A response is read by its status: one of success gives its head and what stands behind the
/// first empty line, byte for byte, and any other is an error.
pub proof fn law_responses_are_read(p: PlaceV, url: Seq<char>, n: nat, reason: Seq<char>, head: Seq<char>, body: Seq<u8>)
    requires
        n <= 65535,
        !holds(reason, '\n'),
        !holds(reason, '\r'),
        head == status_line(n, reason) || exists|more: Seq<char>| head == status_line(n, reason) + "\r\n"@ + more,
        forall|j: int|
            0 <= j < encode_utf8(head).len() ==> !#[trigger] at(encode_utf8(head) + blank_line() + body, j, blank_line()),
    ensures
        ({
            let r = response(p, url, encode_utf8(head) + blank_line() + body);
            if 200 <= n < 300 {
                r == Ok::<(Seq<char>, Seq<u8>), ErrV>((head, body))
            } else {
                r matches Err(e) && e.code == "H204"@
            }
        }),
{
    let h = encode_utf8(head);
    let b = h + blank_line() + body;
    let k = h.len() as int;
    assert(b.subrange(k, k + 4) =~= blank_line());
    lemma_first_at(b, 0, k, blank_line());
    assert(b.take(k) =~= h);
    assert(b.skip(k + 4) =~= body);
    lemma_text(head);
    lemma_status(n, reason, head);
}

} // verus!
