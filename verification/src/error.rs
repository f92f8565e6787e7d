//! Errors with a code, a place in the source and advice.

use vstd::prelude::*;

use crate::text::{cat5, cat7, chars, dec, dec_usize, eq, lines, rep, repeat, split_lines, strs};

pub mod codes;
pub mod help;
pub mod shape;

verus! {

/// An error: its code (`Hxxx`), a description, the place in the source and advice.
pub struct ZError {
    pub code: &'static str,
    pub msg: String,
    pub file: String,
    pub line: usize,
    pub col: usize,
    pub len: usize,
    pub line_text: String,
    pub help: Option<String>,
}

/// What an error says.
pub struct ErrV {
    pub code: Seq<char>,
    pub msg: Seq<char>,
    pub file: Seq<char>,
    pub line: nat,
    pub col: nat,
    pub len: nat,
    pub line_text: Seq<char>,
    pub help: Option<Seq<char>>,
}

/// An optional text.
pub open spec fn opt_text(t: Option<String>) -> Option<Seq<char>> {
    match t {
        Some(s) => Some(s@),
        None => None,
    }
}

impl View for ZError {
    type V = ErrV;

    open spec fn view(&self) -> ErrV {
        ErrV {
            code: self.code@,
            msg: self.msg@,
            file: self.file@,
            line: self.line as nat,
            col: self.col as nat,
            len: self.len as nat,
            line_text: self.line_text@,
            help: opt_text(self.help),
        }
    }
}

/// Line `n` of a source text, counted from one; line zero is read as line one, and a
/// line that the text does not have is empty.
pub open spec fn source_line(src: Seq<char>, n: nat) -> Seq<char> {
    let k = if n == 0 { 0 } else { (n - 1) as nat };
    if k < lines(src).len() {
        lines(src)[k as int]
    } else {
        Seq::empty()
    }
}

/// The error at a place of a source text.
pub open spec fn err_at(
    code: Seq<char>,
    msg: Seq<char>,
    file: Seq<char>,
    src: Seq<char>,
    line: nat,
    col: nat,
    len: nat,
    help: Option<Seq<char>>,
) -> ErrV {
    ErrV { code, msg, file, line, col, len, line_text: source_line(src, line), help }
}

/// The error without a place.
pub open spec fn err_plain(code: Seq<char>, msg: Seq<char>, help: Option<Seq<char>>) -> ErrV {
    ErrV {
        code,
        msg,
        file: Seq::empty(),
        line: 0,
        col: 0,
        len: 0,
        line_text: Seq::empty(),
        help,
    }
}

/// An optional text slice.
pub open spec fn opt_str(t: Option<&str>) -> Option<Seq<char>> {
    match t {
        Some(s) => Some(s@),
        None => None,
    }
}

/// An owned copy of an optional text.
pub fn own(t: Option<&str>) -> (r: Option<String>)
    ensures
        opt_text(r) == opt_str(t),
{
    match t {
        Some(s) => Some(s.to_owned()),
        None => None,
    }
}

impl ZError {
    /// An error at line `line` and column `col` (both counted from one), marking `len`
    /// characters; the source line is kept for the report.
    pub fn new(
        code: &'static str,
        msg: &str,
        file: &str,
        src: &str,
        line: usize,
        col: usize,
        len: usize,
        help: Option<&str>,
    ) -> (r: ZError)
        ensures
            r@ == err_at(code@, msg@, file@, src@, line as nat, col as nat, len as nat, opt_str(help)),
    {
        let ls = split_lines(src);
        let k: usize = if line == 0 { 0 } else { line - 1 };
        assert(strs(ls@).len() == ls@.len());
        let line_text = if k < ls.len() {
            assert(strs(ls@)[k as int] == ls@[k as int]@);
            ls[k].clone()
        } else {
            String::new()
        };
        ZError {
            code,
            msg: msg.to_owned(),
            file: file.to_owned(),
            line,
            col,
            len,
            line_text,
            help: own(help),
        }
    }

    /// An error without a place in a source text.
    pub fn plain(code: &'static str, msg: &str, help: Option<&str>) -> (r: ZError)
        ensures
            r@ == err_plain(code@, msg@, opt_str(help)),
    {
        ZError {
            code,
            msg: msg.to_owned(),
            file: String::new(),
            line: 0,
            col: 0,
            len: 0,
            line_text: String::new(),
            help: own(help),
        }
    }
}

/// A text with each tab written as four spaces.
pub open spec fn expand_tabs(s: Seq<char>) -> Seq<char>
    decreases s.len(),
{
    if s.len() == 0 {
        Seq::empty()
    } else if s.last() == '\t' {
        expand_tabs(s.drop_last()) + rep(' ', 4)
    } else {
        expand_tabs(s.drop_last()).push(s.last())
    }
}

/// The advice line of a report.
pub open spec fn help_line(help: Option<Seq<char>>) -> Seq<char> {
    match help {
        Some(h) => "help: "@ + h + "\n"@,
        None => Seq::empty(),
    }
}

/// The first line of a report.
pub open spec fn head_line(code: Seq<char>, msg: Seq<char>) -> Seq<char> {
    "error["@ + code + "]: "@ + msg + "\n"@
}

/// How many characters of the source line stand before the marked place.
pub open spec fn marked_from(e: ErrV) -> nat {
    let before: int = if e.col == 0 { 0 } else { e.col - 1 };
    if before < e.line_text.len() { before as nat } else { e.line_text.len() }
}

/// How many carets mark the place: the length of the marked piece, at least one, and
/// no more than what is left of the line (at least one).
pub open spec fn caret_count(e: ErrV) -> nat {
    let want = if e.len == 0 { 1 } else { e.len };
    let left = (e.line_text.len() - marked_from(e)) as nat;
    let room = if left == 0 { 1 } else { left };
    if want < room { want } else { room }
}

/// The report of an error: what happened, where, the source line with the place
/// marked, and advice. An error without a place has the first line and the advice.
pub open spec fn report(e: ErrV) -> Seq<char> {
    if e.line == 0 {
        head_line(e.code, e.msg) + help_line(e.help)
    } else {
        let k = marked_from(e) as int;
        let lead = expand_tabs(e.line_text.take(k));
        let no = dec(e.line);
        head_line(e.code, e.msg)
            + ("  --> "@ + e.file + ":"@ + no + ":"@ + dec(e.col) + "\n"@)
            + (no + " | "@ + lead + e.line_text.skip(k) + "\n"@)
            + (rep(' ', no.len()) + " | "@ + rep(' ', lead.len()) + rep('^', caret_count(e)) + "\n"@)
            + help_line(e.help)
    }
}

impl ZError {
    /// The report of this error, one line per part, each ended by a line feed.
    pub fn render(&self) -> (r: String)
        ensures
            r@ == report(self@),
    {
        let mut out = cat5("error[", self.code, "]: ", self.msg.as_str(), "\n");
        if self.line != 0 {
            let cs = chars(self.line_text.as_str());
            let before: usize = if self.col == 0 { 0 } else { self.col - 1 };
            let k: usize = if before < cs.len() { before } else { cs.len() };
            let mut lead = String::new();
            let mut pad = String::new();
            let mut i: usize = 0;
            while i < k
                invariant
                    i <= k <= cs.len(),
                    lead@ == expand_tabs(cs@.take(i as int)),
                    pad@ == rep(' ', lead@.len()),
                decreases k - i,
            {
                let ghost lead0 = lead@;
                proof {
                    assert(cs@.take(i + 1).drop_last() =~= cs@.take(i as int));
                    reveal_strlit("    ");
                    assert("    "@ =~= rep(' ', 4));
                }
                if cs[i] == '\t' {
                    lead.append("    ");
                    pad.append("    ");
                } else {
                    lead.push(cs[i]);
                    pad.push(' ');
                }
                assert(pad@ =~= rep(' ', lead@.len()));
                i = i + 1;
            }
            let mut tail = String::new();
            let mut j: usize = k;
            while j < cs.len()
                invariant
                    k <= j <= cs.len(),
                    tail@ =~= cs@.subrange(k as int, j as int),
                decreases cs.len() - j,
            {
                tail.push(cs[j]);
                j = j + 1;
            }
            assert(tail@ =~= cs@.skip(k as int));
            let want: usize = if self.len == 0 { 1 } else { self.len };
            let left: usize = cs.len() - k;
            let room: usize = if left == 0 { 1 } else { left };
            let carets: usize = if want < room { want } else { room };
            let no = dec_usize(self.line);
            let no_len = no.as_str().unicode_len();
            let place = cat7(
                "  --> ",
                self.file.as_str(),
                ":",
                no.as_str(),
                ":",
                dec_usize(self.col).as_str(),
                "\n",
            );
            let shown = cat5(no.as_str(), " | ", lead.as_str(), tail.as_str(), "\n");
            let marks = cat5(
                repeat(' ', no_len).as_str(),
                " | ",
                pad.as_str(),
                repeat('^', carets).as_str(),
                "\n",
            );
            out.append(place.as_str());
            out.append(shown.as_str());
            out.append(marks.as_str());
        }
        match &self.help {
            Some(h) => {
                let line = crate::text::cat3("help: ", h.as_str(), "\n");
                out.append(line.as_str());
            },
            None => {
                assert(out@ + Seq::<char>::empty() =~= out@);
            },
        }
        out
    }
}

/// The explanation of an error code; `None` for a code that does not exist.
pub open spec fn explanation(code: Seq<char>) -> Option<Seq<char>> {
    if code == codes::TYPE_MISMATCH@ {
        Some(help::TYPE_MISMATCH@)
    } else if code == codes::UNDEFINED@ {
        Some(help::UNDEFINED@)
    } else if code == codes::CANNOT_INFER@ {
        Some(help::CANNOT_INFER@)
    } else if code == codes::AMBIGUOUS_OP@ {
        Some(help::AMBIGUOUS_OP@)
    } else if code == codes::SYNTAX@ {
        Some(help::SYNTAX@)
    } else if code == codes::STR_TO_INT@ {
        Some(help::STR_TO_INT@)
    } else if code == codes::STR_TO_FLOAT@ {
        Some(help::STR_TO_FLOAT@)
    } else if code == codes::COND_NOT_BOOL@ {
        Some(help::COND_NOT_BOOL@)
    } else if code == codes::DIV_ZERO@ {
        Some(help::DIV_ZERO@)
    } else if code == codes::INTEGER_OVERFLOW@ {
        Some(help::INTEGER_OVERFLOW@)
    } else if code == codes::ARG_COUNT@ {
        Some(help::ARG_COUNT@)
    } else if code == codes::RECURSION_DEPTH@ {
        Some(help::RECURSION_DEPTH@)
    } else if code == codes::LIB_LOAD@ {
        Some(help::LIB_LOAD@)
    } else if code == codes::LAZY_MISSING@ {
        Some(help::LAZY_MISSING@)
    } else if code == codes::ILLEGAL_CHAR@ {
        Some(help::ILLEGAL_CHAR@)
    } else if code == codes::UNTERMINATED_STRING@ {
        Some(help::UNTERMINATED_STRING@)
    } else if code == codes::UNTERMINATED_COMMENT@ {
        Some(help::UNTERMINATED_COMMENT@)
    } else if code == codes::MISSING_SEMI@ {
        Some(help::MISSING_SEMI@)
    } else if code == codes::NETWORK@ {
        Some(help::NETWORK@)
    } else if code == codes::NET_TIMEOUT@ {
        Some(help::NET_TIMEOUT@)
    } else if code == codes::NET_CONN_REFUSED@ {
        Some(help::NET_CONN_REFUSED@)
    } else if code == codes::NET_DNS@ {
        Some(help::NET_DNS@)
    } else if code == codes::NET_HTTP_STATUS@ {
        Some(help::NET_HTTP_STATUS@)
    } else if code == codes::SYSCALL@ {
        Some(help::SYSCALL@)
    } else if code == codes::DLL_LOAD@ {
        Some(help::DLL_LOAD@)
    } else if code == codes::DLL_ARG@ {
        Some(help::DLL_ARG@)
    } else if code == codes::PERMISSION@ {
        Some(help::PERMISSION@)
    } else if code == codes::PTR_INVALID@ {
        Some(help::PTR_INVALID@)
    } else if code == codes::PTR_OOB@ {
        Some(help::PTR_OOB@)
    } else if code == codes::FILE_NOT_FOUND@ {
        Some(help::FILE_NOT_FOUND@)
    } else if code == codes::FILE_PERMISSION@ {
        Some(help::FILE_PERMISSION@)
    } else if code == codes::FILE_LOCKED@ {
        Some(help::FILE_LOCKED@)
    } else if code == codes::NOT_FOUND@ {
        Some(help::NOT_FOUND@)
    } else if code == codes::THROW@ {
        Some(help::THROW@)
    } else if code == codes::ASSERT@ {
        Some(help::ASSERT@)
    } else if code == codes::NOT_IMPLEMENTED@ {
        Some(help::NOT_IMPLEMENTED@)
    } else {
        None
    }
}

/// The explanation table of the error codes.
pub fn explain(code: &str) -> (r: Option<&'static str>)
    ensures
        match r {
            Some(t) => explanation(code@) == Some(t@),
            None => explanation(code@) is None,
        },
{
    if eq(code, codes::TYPE_MISMATCH) {
        Some(help::TYPE_MISMATCH)
    } else if eq(code, codes::UNDEFINED) {
        Some(help::UNDEFINED)
    } else if eq(code, codes::CANNOT_INFER) {
        Some(help::CANNOT_INFER)
    } else if eq(code, codes::AMBIGUOUS_OP) {
        Some(help::AMBIGUOUS_OP)
    } else if eq(code, codes::SYNTAX) {
        Some(help::SYNTAX)
    } else if eq(code, codes::STR_TO_INT) {
        Some(help::STR_TO_INT)
    } else if eq(code, codes::STR_TO_FLOAT) {
        Some(help::STR_TO_FLOAT)
    } else if eq(code, codes::COND_NOT_BOOL) {
        Some(help::COND_NOT_BOOL)
    } else if eq(code, codes::DIV_ZERO) {
        Some(help::DIV_ZERO)
    } else if eq(code, codes::INTEGER_OVERFLOW) {
        Some(help::INTEGER_OVERFLOW)
    } else if eq(code, codes::ARG_COUNT) {
        Some(help::ARG_COUNT)
    } else if eq(code, codes::RECURSION_DEPTH) {
        Some(help::RECURSION_DEPTH)
    } else if eq(code, codes::LIB_LOAD) {
        Some(help::LIB_LOAD)
    } else if eq(code, codes::LAZY_MISSING) {
        Some(help::LAZY_MISSING)
    } else if eq(code, codes::ILLEGAL_CHAR) {
        Some(help::ILLEGAL_CHAR)
    } else if eq(code, codes::UNTERMINATED_STRING) {
        Some(help::UNTERMINATED_STRING)
    } else if eq(code, codes::UNTERMINATED_COMMENT) {
        Some(help::UNTERMINATED_COMMENT)
    } else if eq(code, codes::MISSING_SEMI) {
        Some(help::MISSING_SEMI)
    } else if eq(code, codes::NETWORK) {
        Some(help::NETWORK)
    } else if eq(code, codes::NET_TIMEOUT) {
        Some(help::NET_TIMEOUT)
    } else if eq(code, codes::NET_CONN_REFUSED) {
        Some(help::NET_CONN_REFUSED)
    } else if eq(code, codes::NET_DNS) {
        Some(help::NET_DNS)
    } else if eq(code, codes::NET_HTTP_STATUS) {
        Some(help::NET_HTTP_STATUS)
    } else if eq(code, codes::SYSCALL) {
        Some(help::SYSCALL)
    } else if eq(code, codes::DLL_LOAD) {
        Some(help::DLL_LOAD)
    } else if eq(code, codes::DLL_ARG) {
        Some(help::DLL_ARG)
    } else if eq(code, codes::PERMISSION) {
        Some(help::PERMISSION)
    } else if eq(code, codes::PTR_INVALID) {
        Some(help::PTR_INVALID)
    } else if eq(code, codes::PTR_OOB) {
        Some(help::PTR_OOB)
    } else if eq(code, codes::FILE_NOT_FOUND) {
        Some(help::FILE_NOT_FOUND)
    } else if eq(code, codes::FILE_PERMISSION) {
        Some(help::FILE_PERMISSION)
    } else if eq(code, codes::FILE_LOCKED) {
        Some(help::FILE_LOCKED)
    } else if eq(code, codes::NOT_FOUND) {
        Some(help::NOT_FOUND)
    } else if eq(code, codes::THROW) {
        Some(help::THROW)
    } else if eq(code, codes::ASSERT) {
        Some(help::ASSERT)
    } else if eq(code, codes::NOT_IMPLEMENTED) {
        Some(help::NOT_IMPLEMENTED)
    } else {
        None
    }
}

/// All error codes.
pub open spec fn all_codes() -> Seq<Seq<char>> {
    seq![
        codes::TYPE_MISMATCH@,
        codes::UNDEFINED@,
        codes::CANNOT_INFER@,
        codes::AMBIGUOUS_OP@,
        codes::SYNTAX@,
        codes::STR_TO_INT@,
        codes::STR_TO_FLOAT@,
        codes::COND_NOT_BOOL@,
        codes::DIV_ZERO@,
        codes::INTEGER_OVERFLOW@,
        codes::ARG_COUNT@,
        codes::RECURSION_DEPTH@,
        codes::ILLEGAL_CHAR@,
        codes::UNTERMINATED_STRING@,
        codes::UNTERMINATED_COMMENT@,
        codes::MISSING_SEMI@,
        codes::NETWORK@,
        codes::NET_TIMEOUT@,
        codes::NET_CONN_REFUSED@,
        codes::NET_DNS@,
        codes::NET_HTTP_STATUS@,
        codes::SYSCALL@,
        codes::DLL_LOAD@,
        codes::DLL_ARG@,
        codes::PERMISSION@,
        codes::PTR_INVALID@,
        codes::PTR_OOB@,
        codes::FILE_NOT_FOUND@,
        codes::FILE_PERMISSION@,
        codes::FILE_LOCKED@,
        codes::NOT_FOUND@,
        codes::THROW@,
        codes::ASSERT@,
        codes::NOT_IMPLEMENTED@,
        codes::LIB_LOAD@,
        codes::LAZY_MISSING@,
    ]
}

/// Every error code is explained, and nothing else is.
pub proof fn law_every_code_is_explained(code: Seq<char>)
    ensures
        all_codes().contains(code) <==> explanation(code) is Some,
{
    if all_codes().contains(code) {
        let i = choose|i: int| 0 <= i < all_codes().len() && all_codes()[i] == code;
    }
    if explanation(code) is Some {
        assert(all_codes()[0] == codes::TYPE_MISMATCH@);
        assert(all_codes()[1] == codes::UNDEFINED@);
        assert(all_codes()[2] == codes::CANNOT_INFER@);
        assert(all_codes()[3] == codes::AMBIGUOUS_OP@);
        assert(all_codes()[4] == codes::SYNTAX@);
        assert(all_codes()[5] == codes::STR_TO_INT@);
        assert(all_codes()[6] == codes::STR_TO_FLOAT@);
        assert(all_codes()[7] == codes::COND_NOT_BOOL@);
        assert(all_codes()[8] == codes::DIV_ZERO@);
        assert(all_codes()[9] == codes::INTEGER_OVERFLOW@);
        assert(all_codes()[10] == codes::ARG_COUNT@);
        assert(all_codes()[11] == codes::RECURSION_DEPTH@);
        assert(all_codes()[12] == codes::ILLEGAL_CHAR@);
        assert(all_codes()[13] == codes::UNTERMINATED_STRING@);
        assert(all_codes()[14] == codes::UNTERMINATED_COMMENT@);
        assert(all_codes()[15] == codes::MISSING_SEMI@);
        assert(all_codes()[16] == codes::NETWORK@);
        assert(all_codes()[17] == codes::NET_TIMEOUT@);
        assert(all_codes()[18] == codes::NET_CONN_REFUSED@);
        assert(all_codes()[19] == codes::NET_DNS@);
        assert(all_codes()[20] == codes::NET_HTTP_STATUS@);
        assert(all_codes()[21] == codes::SYSCALL@);
        assert(all_codes()[22] == codes::DLL_LOAD@);
        assert(all_codes()[23] == codes::DLL_ARG@);
        assert(all_codes()[24] == codes::PERMISSION@);
        assert(all_codes()[25] == codes::PTR_INVALID@);
        assert(all_codes()[26] == codes::PTR_OOB@);
        assert(all_codes()[27] == codes::FILE_NOT_FOUND@);
        assert(all_codes()[28] == codes::FILE_PERMISSION@);
        assert(all_codes()[29] == codes::FILE_LOCKED@);
        assert(all_codes()[30] == codes::NOT_FOUND@);
        assert(all_codes()[31] == codes::THROW@);
        assert(all_codes()[32] == codes::ASSERT@);
        assert(all_codes()[33] == codes::NOT_IMPLEMENTED@);
        assert(all_codes()[34] == codes::LIB_LOAD@);
        assert(all_codes()[35] == codes::LAZY_MISSING@);
    }
}

} // verus!
