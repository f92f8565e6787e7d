//! The local web server: requests queue up until the program polls them, and each is
//! answered at most once.

use std::collections::{HashSet, VecDeque};

use vstd::prelude::*;
use vstd::utf8::encode_utf8;

use crate::builtins::world::{fail, failed, Out, OutV, Pending, PendingV, Place, PlaceV, Request, RequestV};
use crate::bytes::{find, first_at, part, read_text, text_of};
use crate::error::codes;
use crate::text::{
    all_digits, cat3, chars, dec, dec_i64, dec_u64, dec_usize, eq, idec, is_digit, lemma_pos_of_is,
    nat_of, parse_nat, pos_of, slice, strs,
};
use crate::value::{hex_char, hex_digit, values_v, Value, ValueV};
use crate::words::{
    ascii_lower, contains, find_last, last_pos, split_words, starts, starts_with, to_ascii_lower,
    trim, trimmed, words_from,
};

verus! {

broadcast use vstd::std_specs::hash::group_hash_axioms;

/// A request that waits for the program.
pub struct PendingReq {
    pub id: u64,
    pub method: String,
    pub path: String,
    pub body: String,
}

/// A request that waits, mathematically.
pub struct PendingReqV {
    pub id: u64,
    pub method: Seq<char>,
    pub path: Seq<char>,
    pub body: Seq<char>,
}

impl View for PendingReq {
    type V = PendingReqV;

    open spec fn view(&self) -> PendingReqV {
        PendingReqV { id: self.id, method: self.method@, path: self.path@, body: self.body@ }
    }
}

/// Requests that wait, mathematically.
pub open spec fn reqs_v(s: Seq<PendingReq>) -> Seq<PendingReqV> {
    s.map_values(|r: PendingReq| r@)
}

/// How many requests may wait.
pub const QUEUE_CAP: usize = 1024;

/// The state of the server: the waiting requests, the requests without an answer, and the
/// number of the next request.
pub struct Server {
    pub queue: VecDeque<PendingReq>,
    pub open: HashSet<u64>,
    pub next: u64,
}

/// The state of the server, mathematically.
#[verifier::ext_equal]
pub struct ServerV {
    pub queue: Seq<PendingReqV>,
    pub open: Set<u64>,
    pub next: u64,
}

impl View for Server {
    type V = ServerV;

    open spec fn view(&self) -> ServerV {
        ServerV { queue: reqs_v(self.queue@), open: self.open@, next: self.next }
    }
}

impl ServerV {
    /// Whether no more requests wait than may.
    pub open spec fn wf(self) -> bool {
        self.queue.len() <= QUEUE_CAP
    }

    /// The state when a request came in: a full queue loses its oldest request.
    pub open spec fn arrived(self, method: Seq<char>, path: Seq<char>, body: Seq<char>) -> ServerV {
        let r = PendingReqV { id: self.next, method, path, body };
        let q = if self.queue.len() >= QUEUE_CAP {
            self.queue.skip(1)
        } else {
            self.queue
        };
        ServerV { queue: q.push(r), open: self.open.insert(self.next), next: self.next.wrapping_add(1) }
    }

    /// The state when a request can no longer be answered.
    pub open spec fn closed_for(self, id: u64) -> ServerV {
        ServerV { queue: self.queue, open: self.open.remove(id), next: self.next }
    }
}

impl Server {
    /// A server without requests.
    pub fn new() -> (r: Server)
        ensures
            r@ == (ServerV { queue: Seq::empty(), open: Set::empty(), next: 1 }),
            r@.wf(),
    {
        let r = Server { queue: VecDeque::new(), open: HashSet::new(), next: 1 };
        assert(reqs_v(r.queue@) =~= Seq::empty());
        r
    }

    /// Takes in a request, and gives its number.
    pub fn arrive(&mut self, method: String, path: String, body: String) -> (id: u64)
        requires
            old(self)@.wf(),
        ensures
            id == old(self)@.next,
            final(self)@ == old(self)@.arrived(method@, path@, body@),
            final(self)@.wf(),
    {
        let ghost before = self@;
        let ghost q = self.queue@;
        let id: u64 = self.next;
        self.next = id.wrapping_add(1);
        self.open.insert(id);
        if self.queue.len() >= QUEUE_CAP {
            let _ = self.queue.pop_front();
            assert(self.queue@ =~= q.skip(1));
            assert(reqs_v(self.queue@) =~= before.queue.skip(1));
        }
        let ghost mid = self.queue@;
        self.queue.push_back(PendingReq { id, method, path, body });
        assert(reqs_v(self.queue@) =~= reqs_v(mid).push(self.queue@.last()@));
        id
    }

    /// Gives up on a request: it can no longer be answered.
    pub fn cleanup(&mut self, id: u64)
        ensures
            final(self)@ == old(self)@.closed_for(id),
    {
        self.open.remove(&id);
    }
}

/// The four hexadecimal digits of a number below 65536.
pub open spec fn hex4(n: nat) -> Seq<char> {
    seq![hex_digit(n / 4096), hex_digit(n / 256), hex_digit(n / 16), hex_digit(n)]
}

/// A character inside a JSON text.
pub open spec fn escaped_char(c: char) -> Seq<char> {
    if c == '"' {
        "\\\""@
    } else if c == '\\' {
        "\\\\"@
    } else if c == '\n' {
        "\\n"@
    } else if c == '\r' {
        "\\r"@
    } else if c == '\t' {
        "\\t"@
    } else if ' ' > c {
        "\\u"@ + hex4(c as nat)
    } else {
        seq![c]
    }
}

/// The characters of a text from `i` on inside a JSON text.
pub open spec fn escaped(s: Seq<char>, n: int) -> Seq<char>
    decreases n,
{
    if n <= 0 || n > s.len() {
        Seq::empty()
    } else {
        escaped(s, n - 1) + escaped_char(s[n - 1])
    }
}

/// A text as a JSON text.
pub open spec fn json_quoted(s: Seq<char>) -> Seq<char> {
    "\""@ + escaped(s, s.len() as int) + "\""@
}

fn escape_char(out: &mut String, c: char)
    ensures
        final(out)@ == old(out)@ + escaped_char(c),
{
    let ghost before = out@;
    if c == '"' {
        out.append("\\\"");
    } else if c == '\\' {
        out.append("\\\\");
    } else if c == '\n' {
        out.append("\\n");
    } else if c == '\r' {
        out.append("\\r");
    } else if c == '\t' {
        out.append("\\t");
    } else if ' ' > c {
        let n: u64 = c as u64;
        out.append("\\u");
        out.push(hex_char(n / 4096));
        out.push(hex_char(n / 256));
        out.push(hex_char(n / 16));
        out.push(hex_char(n % 16));
        assert(out@ =~= before + ("\\u"@ + hex4(c as nat)));
    } else {
        out.push(c);
        assert(out@ =~= before + seq![c]);
    }
}

/// A text as a JSON text.
pub fn json_escape(s: &str) -> (r: String)
    ensures
        r@ == json_quoted(s@),
{
    let v = chars(s);
    let mut out = "\"".to_owned();
    let mut i: usize = 0;
    assert("\""@ + escaped(s@, 0) =~= "\""@);
    while i < v.len()
        invariant
            i <= v.len(),
            v@ == s@,
            out@ == "\""@ + escaped(s@, i as int),
        decreases v.len() - i,
    {
        let c = v[i];
        let ghost before = out@;
        escape_char(&mut out, c);
        i = i + 1;
        assert(out@ =~= "\""@ + escaped(s@, i as int));
    }
    out.append("\"");
    out
}

/// A waiting request as a JSON text.
pub open spec fn req_text(r: PendingReqV) -> Seq<char> {
    "{\"id\":"@ + dec(r.id as nat) + ",\"method\":"@ + json_quoted(r.method) + ",\"path\":"@ + json_quoted(r.path)
        + ",\"body\":"@ + json_quoted(r.body) + "}"@
}

/// The first `n` waiting requests, between commas.
pub open spec fn reqs_text(q: Seq<PendingReqV>, n: int) -> Seq<char>
    decreases n,
{
    if n <= 0 || n > q.len() {
        Seq::empty()
    } else if n == 1 {
        req_text(q[0])
    } else {
        reqs_text(q, n - 1) + ","@ + req_text(q[n - 1])
    }
}

/// The waiting requests as a JSON text.
pub open spec fn queue_text(q: Seq<PendingReqV>) -> Seq<char> {
    "["@ + reqs_text(q, q.len() as int) + "]"@
}

fn write_req(r: &PendingReq) -> (t: String)
    ensures
        t@ == req_text(r@),
{
    let mut t = cat3("{\"id\":", dec_u64(r.id).as_str(), ",\"method\":");
    t.append(json_escape(r.method.as_str()).as_str());
    t.append(",\"path\":");
    t.append(json_escape(r.path.as_str()).as_str());
    t.append(",\"body\":");
    t.append(json_escape(r.body.as_str()).as_str());
    t.append("}");
    t
}

impl Server {
    /// Takes out all waiting requests, as a JSON text.
    pub fn poll(&mut self) -> (r: String)
        ensures
            r@ == queue_text(old(self)@.queue),
            final(self)@ == (ServerV { queue: Seq::empty(), open: old(self)@.open, next: old(self)@.next }),
    {
        let ghost all = self@.queue;
        let ghost start = self.queue@;
        let mut body = String::new();
        let mut first = true;
        let ghost mut n: int = 0;
        assert(start.skip(0) =~= start);
        loop
            invariant
                0 <= n <= start.len(),
                all == reqs_v(start),
                self.queue@ == start.skip(n),
                self.open == old(self).open,
                self.next == old(self).next,
                first == (n == 0),
                body@ == reqs_text(all, n),
            ensures
                n == start.len(),
                self.queue@ == start.skip(n),
                self.open == old(self).open,
                self.next == old(self).next,
                body@ == reqs_text(all, n),
            decreases start.len() - n,
        {
            match self.queue.pop_front() {
                None => {
                    break;
                },
                Some(r) => {
                    assert(all[n] == r@);
                    let t = write_req(&r);
                    if first {
                        body = t;
                    } else {
                        body.append(",");
                        body.append(t.as_str());
                    }
                    first = false;
                    proof {
                        assert(start.skip(n).skip(1) =~= start.skip(n + 1));
                        assert(start.skip(n).drop_first() =~= start.skip(n + 1));
                        n = n + 1;
                    }
                },
            }
        }
        assert(reqs_v(self.queue@) =~= Seq::empty());
        cat3("[", body.as_str(), "]")
    }
}

/// What is known of a request while it is read.
pub enum Reading {
    /// The end of the head is not there yet.
    More,
    /// The head is too long.
    TooLong,
    /// The head ends at a position.
    Head(usize),
}

/// The two line ends behind a head.
pub open spec fn head_end() -> Seq<u8> {
    seq![13u8, 10u8, 13u8, 10u8]
}

/// Looks for the end of a head in what came so far.
pub fn read_head(buf: &[u8]) -> (r: Reading)
    ensures
        match r {
            Reading::Head(n) => first_at(buf@, 0, head_end()) == Some(n - 4),
            Reading::TooLong => first_at(buf@, 0, head_end()) is None && buf.len() > 65536,
            Reading::More => first_at(buf@, 0, head_end()) is None && buf.len() <= 65536,
        },
        r matches Reading::Head(n) ==> n <= buf.len(),
{
    let mark: Vec<u8> = vec![13, 10, 13, 10];
    assert(mark@ =~= head_end());
    match find(buf, 0, mark.as_slice()) {
        Some(i) => Reading::Head(i + 4),
        None => {
            if buf.len() > 65536 {
                Reading::TooLong
            } else {
                Reading::More
            }
        },
    }
}

/// The first place from `i` on of a carriage return with a line feed behind it, or the end.
pub open spec fn crlf_at(s: Seq<char>, i: int) -> int
    decreases s.len() - i,
{
    if i < 0 || i + 1 >= s.len() {
        s.len() as int
    } else if s[i] == '\r' && s[i + 1] == '\n' {
        i
    } else {
        crlf_at(s, i + 1)
    }
}

/// The lines of a head from `i` on, the last one being what stands behind the last line end.
pub open spec fn head_lines(s: Seq<char>, i: int) -> Seq<Seq<char>>
    decreases s.len() - i,
{
    let e = crlf_at(s, i);
    if i < 0 || i > s.len() {
        Seq::empty()
    } else if i <= e && e + 2 <= s.len() {
        seq![s.subrange(i, e)] + head_lines(s, e + 2)
    } else {
        seq![s.skip(i)]
    }
}

proof fn lemma_crlf(s: Seq<char>, i: int)
    requires
        0 <= i <= s.len(),
    ensures
        i <= crlf_at(s, i) <= s.len(),
        crlf_at(s, i) < s.len() ==> crlf_at(s, i) + 2 <= s.len(),
    decreases s.len() - i,
{
    if i + 1 < s.len() && !(s[i] == '\r' && s[i + 1] == '\n') {
        lemma_crlf(s, i + 1);
    }
}

fn split_head(head: &str) -> (r: Vec<String>)
    ensures
        strs(r@) == head_lines(head@, 0),
{
    let v = chars(head);
    let n: usize = v.len();
    let mut out: Vec<String> = Vec::new();
    let mut i: usize = 0;
    assert(strs(out@) =~= Seq::empty());
    assert(strs(out@) + head_lines(head@, 0) =~= head_lines(head@, 0));
    loop
        invariant
            i <= n,
            n == v.len(),
            v@ == head@,
            strs(out@) + head_lines(head@, i as int) == head_lines(head@, 0),
        decreases n - i,
    {
        let mut e: usize = i;
        while n - e >= 2 && !(v[e] == '\r' && v[e + 1] == '\n')
            invariant
                i <= e <= n,
                n == v.len(),
                v@ == head@,
                crlf_at(head@, i as int) == crlf_at(head@, e as int),
            decreases n - e,
        {
            e = e + 1;
        }
        let ghost was = out@;
        if n - e >= 2 {
            let line = slice(&v, i, e);
            out.push(line);
            proof {
                assert(strs(out@) =~= strs(was).push(line@));
                assert(strs(was) + head_lines(head@, i as int) =~= strs(out@) + head_lines(head@, e + 2));
            }
            i = e + 2;
        } else {
            let line = slice(&v, i, n);
            assert(line@ =~= head@.skip(i as int));
            out.push(line);
            proof {
                assert(strs(out@) =~= strs(was).push(line@));
                assert(strs(was) + head_lines(head@, i as int) =~= strs(out@));
            }
            return out;
        }
    }
}

/// The size that a text gives in decimal digits, behind an optional plus sign.
pub open spec fn size_of(s: Seq<char>) -> Option<int> {
    let d = if s.len() > 0 && s[0] == '+' { s.skip(1) } else { s };
    if d.len() == 0 || !all_digits(d) || nat_of(d) > usize::MAX {
        None
    } else {
        Some(nat_of(d) as int)
    }
}

fn parse_size(s: &str) -> (r: Option<usize>)
    ensures
        match r {
            Some(n) => size_of(s@) == Some(n as int),
            None => size_of(s@) is None,
        },
{
    let v = chars(s);
    let n: usize = v.len();
    let from: usize = if n > 0 && v[0] == '+' { 1 } else { 0 };
    let ghost d = if s@.len() > 0 && s@[0] == '+' { s@.skip(1) } else { s@ };
    assert(v@.subrange(from as int, n as int) =~= d);
    if from == n {
        return None;
    }
    let mut i: usize = from;
    while i < n
        invariant
            from <= i <= n,
            n == v.len(),
            v@.subrange(from as int, n as int) == d,
            d == (if s@.len() > 0 && s@[0] == '+' { s@.skip(1) } else { s@ }),
            forall|k: int| from <= k < i ==> is_digit(#[trigger] v@[k]),
        decreases n - i,
    {
        if v[i] < '0' || v[i] > '9' {
            assert(!is_digit(d[i - from]));
            return None;
        }
        i = i + 1;
    }
    assert forall|k: int| 0 <= k < d.len() implies is_digit(#[trigger] d[k]) by {
        assert(is_digit(v@[from + k]));
    }
    match parse_nat(&v, from, n) {
        Some(m) => {
            if m <= usize::MAX as u64 {
                Some(m as usize)
            } else {
                None
            }
        },
        None => None,
    }
}

/// The length that the lines of a head from `i` on give for the body: the last one counts,
/// and one that is no size makes the request a bad one.
pub open spec fn length_from(ls: Seq<Seq<char>>, i: int, n: int) -> Option<int>
    decreases ls.len() - i,
{
    if i < 0 || i >= ls.len() {
        Some(n)
    } else {
        let low = ascii_lower(ls[i]);
        if starts(low, "content-length:"@) {
            match size_of(trimmed(low.skip("content-length:"@.len() as int))) {
                Some(m) => length_from(ls, i + 1, m),
                None => None,
            }
        } else {
            length_from(ls, i + 1, n)
        }
    }
}

/// The method, the path and the length of the body that a head gives.
pub open spec fn head_of(head: Seq<char>) -> Option<(Seq<char>, Seq<char>, int)> {
    let ls = head_lines(head, 0);
    let ws = words_from(ls[0], 0);
    if ws.len() < 2 {
        None
    } else {
        match length_from(ls, 1, 0) {
            Some(n) => Some((ws[0], ws[1], n)),
            None => None,
        }
    }
}

/// The method, the path and the length of the body that the bytes of a head give.
pub fn parse_head(head: &[u8]) -> (r: Option<(String, String, usize)>)
    ensures
        match r {
            Some(t) => head_of(text_of(head@)) == Some((t.0@, t.1@, t.2 as int)),
            None => head_of(text_of(head@)) is None,
        },
{
    let text = read_text(head);
    let ls = split_head(text.as_str());
    let ghost all = head_lines(text@, 0);
    proof {
        lemma_crlf(text@, 0);
        assert(all.len() > 0);
        assert(strs(ls@).len() == ls.len());
        assert(all[0] == ls@[0]@);
    }
    let ws = split_words(ls[0].as_str());
    assert(strs(ws@).len() == ws.len());
    if ws.len() < 2 {
        return None;
    }
    assert(strs(ws@)[0] == ws@[0]@);
    assert(strs(ws@)[1] == ws@[1]@);
    let mut n: usize = 0;
    let mut i: usize = 1;
    while i < ls.len()
        invariant
            1 <= i <= ls.len(),
            all == strs(ls@),
            all == head_lines(text@, 0),
            text@ == text_of(head@),
            ws.len() >= 2,
            strs(ws@) == words_from(all[0], 0),
            length_from(all, 1, 0) == length_from(all, i as int, n as int),
        decreases ls.len() - i,
    {
        assert(all[i as int] == ls@[i as int]@);
        let low = to_ascii_lower(ls[i].as_str());
        if starts_with(low.as_str(), "content-length:") {
            proof {
                reveal_strlit("content-length:");
            }
            let v = chars(low.as_str());
            let m: usize = v.len();
            let rest = slice(&v, 15, m);
            assert(rest@ =~= low@.skip(15));
            let t = trim(rest.as_str());
            match parse_size(t.as_str()) {
                Some(k) => {
                    n = k;
                },
                None => return None,
            }
        }
        i = i + 1;
    }
    Some((ws[0].clone(), ws[1].clone(), n))
}

/// The body of a request: at most so many of the bytes that came, as text.
pub fn request_body(bytes: &[u8], length: usize) -> (r: String)
    ensures
        r@ == text_of(bytes@.take(if bytes.len() < length { bytes.len() as int } else { length as int })),
{
    let n: usize = if bytes.len() < length { bytes.len() } else { length };
    let b = part(bytes, 0, n);
    assert(b@ =~= bytes@.take(n as int));
    read_text(b.as_slice())
}

/// The type of content that a path names by its ending.
pub open spec fn media_type(ext: Seq<char>) -> Seq<char> {
    if ext == "js"@ || ext == "mjs"@ {
        "text/javascript; charset=utf-8"@
    } else if ext == "css"@ {
        "text/css; charset=utf-8"@
    } else if ext == "json"@ {
        "application/json; charset=utf-8"@
    } else if ext == "svg"@ {
        "image/svg+xml; charset=utf-8"@
    } else if ext == "png"@ {
        "image/png"@
    } else if ext == "jpg"@ || ext == "jpeg"@ {
        "image/jpeg"@
    } else if ext == "gif"@ {
        "image/gif"@
    } else if ext == "ico"@ {
        "image/x-icon"@
    } else if ext == "txt"@ {
        "text/plain; charset=utf-8"@
    } else {
        "text/html; charset=utf-8"@
    }
}

/// What stands behind the last point of a path in front of a question mark.
pub open spec fn ending(path: Seq<char>) -> Seq<char> {
    let p = path.take(pos_of(path, '?') as int);
    let e = match last_pos(p, '.', p.len() as int) {
        Some(i) => p.skip(i + 1),
        None => p,
    };
    ascii_lower(e)
}

/// The type of content that a path names by its ending.
pub fn content_type(path: &str) -> (r: String)
    ensures
        r@ == media_type(ending(path@)),
{
    let v = chars(path);
    let mut q: usize = 0;
    while q < v.len() && v[q] != '?'
        invariant
            q <= v.len(),
            v@ == path@,
            forall|k: int| 0 <= k < q ==> v@[k] != '?',
        decreases v.len() - q,
    {
        q = q + 1;
    }
    proof {
        lemma_pos_of_is(path@, '?', q as int);
    }
    let p = slice(&v, 0, q);
    assert(p@ =~= path@.take(q as int));
    let w = chars(p.as_str());
    let m: usize = w.len();
    let e = match find_last(&w, '.') {
        Some(i) => {
            let t = slice(&w, i + 1, m);
            assert(t@ =~= p@.skip(i + 1));
            t
        },
        None => p.clone(),
    };
    let x = to_ascii_lower(e.as_str());
    let ext = x.as_str();
    if eq(ext, "js") || eq(ext, "mjs") {
        "text/javascript; charset=utf-8".to_owned()
    } else if eq(ext, "css") {
        "text/css; charset=utf-8".to_owned()
    } else if eq(ext, "json") {
        "application/json; charset=utf-8".to_owned()
    } else if eq(ext, "svg") {
        "image/svg+xml; charset=utf-8".to_owned()
    } else if eq(ext, "png") {
        "image/png".to_owned()
    } else if eq(ext, "jpg") || eq(ext, "jpeg") {
        "image/jpeg".to_owned()
    } else if eq(ext, "gif") {
        "image/gif".to_owned()
    } else if eq(ext, "ico") {
        "image/x-icon".to_owned()
    } else if eq(ext, "txt") {
        "text/plain; charset=utf-8".to_owned()
    } else {
        "text/html; charset=utf-8".to_owned()
    }
}

/// The words for a status.
pub open spec fn reason(status: u16) -> Seq<char> {
    match status {
        200 => "OK"@,
        201 => "Created"@,
        204 => "No Content"@,
        301 => "Moved Permanently"@,
        302 => "Found"@,
        304 => "Not Modified"@,
        400 => "Bad Request"@,
        401 => "Unauthorized"@,
        403 => "Forbidden"@,
        404 => "Not Found"@,
        405 => "Method Not Allowed"@,
        409 => "Conflict"@,
        429 => "Too Many Requests"@,
        500 => "Internal Server Error"@,
        501 => "Not Implemented"@,
        502 => "Bad Gateway"@,
        503 => "Service Unavailable"@,
        504 => "Gateway Timeout"@,
        _ => "Status"@,
    }
}

fn reason_words(status: u16) -> (r: &'static str)
    ensures
        r@ == reason(status),
{
    match status {
        200 => "OK",
        201 => "Created",
        204 => "No Content",
        301 => "Moved Permanently",
        302 => "Found",
        304 => "Not Modified",
        400 => "Bad Request",
        401 => "Unauthorized",
        403 => "Forbidden",
        404 => "Not Found",
        405 => "Method Not Allowed",
        409 => "Conflict",
        429 => "Too Many Requests",
        500 => "Internal Server Error",
        501 => "Not Implemented",
        502 => "Bad Gateway",
        503 => "Service Unavailable",
        504 => "Gateway Timeout",
        _ => "Status",
    }
}

/// The head of an answer.
pub open spec fn answer_head(status: u16, media: Seq<char>, body: Seq<char>) -> Seq<char> {
    "HTTP/1.1 "@ + dec(status as nat) + " "@ + reason(status) + "\r\nContent-Type: "@ + media
        + "\r\nContent-Length: "@ + dec(encode_utf8(body).len())
        + "\r\nAccess-Control-Allow-Origin: *\r\nConnection: close\r\n\r\n"@
}

/// The head of an answer.
pub fn write_resp(status: u16, media: &str, body: &str) -> (r: String)
    ensures
        r@ == answer_head(status, media@, body@),
{
    let mut t = cat3("HTTP/1.1 ", dec_u64(status as u64).as_str(), " ");
    t.append(reason_words(status));
    t.append("\r\nContent-Type: ");
    t.append(media);
    t.append("\r\nContent-Length: ");
    t.append(dec_usize(body.as_bytes().len()).as_str());
    t.append("\r\nAccess-Control-Allow-Origin: *\r\nConnection: close\r\n\r\n");
    t
}

/// Answering a request: its number, the body and an optional status.
pub open spec fn respond_fn(s: ServerV, p: PlaceV, a: Seq<ValueV>) -> (ServerV, OutV) {
    if a.len() < 1 {
        (
            s,
            failed(
                p,
                codes::ARG_COUNT@,
                "`server.respond` expects 2-3 arguments (id, body[, status])"@,
                None,
            ),
        )
    } else {
        match a[0] {
            ValueV::Int(id) => if a.len() < 2 {
                (
                    s,
                    failed(
                        p,
                        codes::ARG_COUNT@,
                        "`server.respond` expects 2-3 arguments (id, body[, status])"@,
                        None,
                    ),
                )
            } else {
                match a[1] {
                    ValueV::Str(body) => if a.len() < 3 {
                        answered(s, id, 200, body)
                    } else {
                        match a[2] {
                            ValueV::Int(n) => if 100 <= n <= 599 {
                                answered(s, id, n as u16, body)
                            } else {
                                (
                                    s,
                                    failed(
                                        p,
                                        codes::TYPE_MISMATCH@,
                                        "`server.respond` expects an HTTP status code in 100..=599, got `"@ + idec(
                                            n as int,
                                        ) + "`"@,
                                        Some("common codes: 200, 404, 500"@),
                                    ),
                                )
                            },
                            v => (
                                s,
                                failed(
                                    p,
                                    codes::TYPE_MISMATCH@,
                                    "`server.respond` expects an integer status code, got `"@ + v.type_text() + "`"@,
                                    Some(
                                        "pass the status code as the 3rd argument, e.g. `server.respond(id, body, 404)`"@,
                                    ),
                                ),
                            ),
                        }
                    },
                    v => (
                        s,
                        failed(
                            p,
                            codes::TYPE_MISMATCH@,
                            "`server.respond` expects a string for argument 2, got `"@ + v.type_text() + "`"@,
                            Some("pass a string value"@),
                        ),
                    ),
                }
            },
            v => (
                s,
                failed(
                    p,
                    codes::TYPE_MISMATCH@,
                    "`server.respond` expects an integer request id, got `"@ + v.type_text() + "`"@,
                    Some("pass the `id` from `server.poll`"@),
                ),
            ),
        }
    }
}

/// An answer: delivered where the request is without one, which it then no longer is.
pub open spec fn answered(s: ServerV, id: i64, status: u16, body: Seq<char>) -> (ServerV, OutV) {
    let k = id as u64;
    if s.open.contains(k) {
        (s.closed_for(k), OutV::Ask(RequestV::Deliver(k, status, body), PendingV::True))
    } else {
        (s, OutV::Value(ValueV::Bool(false)))
    }
}

/// Answers a request that is without an answer.
pub fn respond(s: &mut Server, id: i64, status: u16, body: &str) -> (r: Out)
    ensures
        (final(s)@, r@) == answered(old(s)@, id, status, body@),
{
    let k: u64 = id as u64;
    if s.open.remove(&k) {
        Out::Ask(Request::Deliver(k, status, body.to_owned()), Pending::True)
    } else {
        assert(s.open@ =~= old(s).open@);
        Out::Value(Value::Bool(false))
    }
}

fn do_respond(s: &mut Server, p: &Place, a: &Vec<Value>) -> (r: Out)
    ensures
        (final(s)@, r@) == respond_fn(old(s)@, p@, values_v(a@)),
{
    let count = "`server.respond` expects 2-3 arguments (id, body[, status])";
    if a.len() < 1 {
        return fail(p, codes::ARG_COUNT, count, None);
    }
    assert(values_v(a@)[0] == a@[0]@);
    let id: i64 = match &a[0] {
        Value::Int(n) => *n,
        v => {
            let msg = cat3("`server.respond` expects an integer request id, got `", v.kind_name(), "`");
            return fail(p, codes::TYPE_MISMATCH, msg.as_str(), Some("pass the `id` from `server.poll`"));
        },
    };
    if a.len() < 2 {
        return fail(p, codes::ARG_COUNT, count, None);
    }
    assert(values_v(a@)[1] == a@[1]@);
    let body = match &a[1] {
        Value::Str(b) => b.as_str(),
        v => {
            let msg = cat3("`server.respond` expects a string for argument 2, got `", v.kind_name(), "`");
            return fail(p, codes::TYPE_MISMATCH, msg.as_str(), Some("pass a string value"));
        },
    };
    if a.len() < 3 {
        return respond(s, id, 200, body);
    }
    assert(values_v(a@)[2] == a@[2]@);
    match &a[2] {
        Value::Int(n) => {
            if 100 <= *n && *n <= 599 {
                respond(s, id, *n as u16, body)
            } else {
                let msg = cat3(
                    "`server.respond` expects an HTTP status code in 100..=599, got `",
                    dec_i64(*n).as_str(),
                    "`",
                );
                fail(p, codes::TYPE_MISMATCH, msg.as_str(), Some("common codes: 200, 404, 500"))
            }
        },
        v => {
            let msg = cat3("`server.respond` expects an integer status code, got `", v.kind_name(), "`");
            fail(
                p,
                codes::TYPE_MISMATCH,
                msg.as_str(),
                Some("pass the status code as the 3rd argument, e.g. `server.respond(id, body, 404)`"),
            )
        },
    }
}

/// The functions of the server: its state behind the call, and the outcome.
pub open spec fn server_fn(s: ServerV, p: PlaceV, name: Seq<char>, a: Seq<ValueV>) -> (ServerV, OutV) {
    if name == "server.listen"@ {
        if a.len() < 1 {
            (s, failed(p, codes::ARG_COUNT@, "`server.listen` expects 1 argument (port)"@, None))
        } else {
            match a[0] {
                ValueV::Int(n) => if n < 0 || n > 65535 {
                    (
                        s,
                        failed(
                            p,
                            codes::SYSCALL@,
                            "invalid port `"@ + idec(n as int) + "`"@,
                            Some("port must be in 0..=65535"@),
                        ),
                    )
                } else {
                    (s, OutV::Ask(RequestV::Listen(n as u16), PendingV::Listen(n)))
                },
                v => (
                    s,
                    failed(
                        p,
                        codes::TYPE_MISMATCH@,
                        "`server.listen` expects an integer port, got `"@ + v.type_text() + "`"@,
                        Some("pass `0` to auto-assign a free port"@),
                    ),
                ),
            }
        }
    } else if name == "server.poll"@ {
        (
            ServerV { queue: Seq::empty(), open: s.open, next: s.next },
            OutV::Value(ValueV::Str(queue_text(s.queue))),
        )
    } else if name == "server.respond"@ {
        respond_fn(s, p, a)
    } else {
        (s, failed(p, codes::NOT_IMPLEMENTED@, "unknown server function `"@ + name + "`"@, None))
    }
}

/// Calls a function of the server.
pub fn call(s: &mut Server, p: &Place, name: &str, a: &Vec<Value>) -> (r: Out)
    ensures
        (final(s)@, r@) == server_fn(old(s)@, p@, name@, values_v(a@)),
{
    if eq(name, "server.listen") {
        if a.len() < 1 {
            return fail(p, codes::ARG_COUNT, "`server.listen` expects 1 argument (port)", None);
        }
        assert(values_v(a@)[0] == a@[0]@);
        match &a[0] {
            Value::Int(n) => {
                if *n < 0 || *n > 65535 {
                    let msg = cat3("invalid port `", dec_i64(*n).as_str(), "`");
                    fail(p, codes::SYSCALL, msg.as_str(), Some("port must be in 0..=65535"))
                } else {
                    Out::Ask(Request::Listen(*n as u16), Pending::Listen(*n))
                }
            },
            v => {
                let msg = cat3("`server.listen` expects an integer port, got `", v.kind_name(), "`");
                fail(p, codes::TYPE_MISMATCH, msg.as_str(), Some("pass `0` to auto-assign a free port"))
            },
        }
    } else if eq(name, "server.poll") {
        Out::Value(Value::Str(s.poll()))
    } else if eq(name, "server.respond") {
        do_respond(s, p, a)
    } else {
        let msg = cat3("unknown server function `", name, "`");
        fail(p, codes::NOT_IMPLEMENTED, msg.as_str(), None)
    }
}

/// The queue never holds more requests than may wait, whatever the program calls.
pub proof fn law_queue_is_bounded(
    s: ServerV,
    p: PlaceV,
    name: Seq<char>,
    a: Seq<ValueV>,
    method: Seq<char>,
    path: Seq<char>,
    body: Seq<char>,
)
    requires
        s.wf(),
    ensures
        s.arrived(method, path, body).wf(),
        server_fn(s, p, name, a).0.wf(),
{
}

/// Requests are polled in the order in which they came.
pub proof fn law_first_in_first_out(s: ServerV, method: Seq<char>, path: Seq<char>, body: Seq<char>, i: int)
    requires
        s.queue.len() < QUEUE_CAP,
        0 <= i < s.queue.len(),
    ensures
        s.arrived(method, path, body).queue[i] == s.queue[i],
        s.arrived(method, path, body).queue.last() == (PendingReqV { id: s.next, method, path, body }),
{
}

/// A request is answered at most once.
pub proof fn law_answered_once(s: ServerV, id: i64, status: u16, body: Seq<char>, status2: u16, body2: Seq<char>)
    ensures
        ({
            let s2 = answered(s, id, status, body).0;
            answered(s2, id, status2, body2) == (s2, OutV::Value(ValueV::Bool(false)))
        }),
{
}

/// An answer to one request leaves all others as they are: those that wait in the queue, and
/// those that wait for their answers.
pub proof fn law_answer_leaves_others(s: ServerV, id: i64, status: u16, body: Seq<char>, other: u64)
    requires
        other != id as u64,
    ensures
        answered(s, id, status, body).0.queue == s.queue,
        answered(s, id, status, body).0.next == s.next,
        answered(s, id, status, body).0.open.contains(other) == s.open.contains(other),
{
}

} // verus!
