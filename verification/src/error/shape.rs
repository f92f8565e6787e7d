//! What holds of every error report.

use vstd::prelude::*;

use super::{caret_count, codes, expand_tabs, head_line, help_line, marked_from, report, ErrV};
use crate::text::{dec, rep};

verus! {

/// The codes of errors.
pub proof fn law_codes()
    ensures
        codes::TYPE_MISMATCH@ == "H001"@,
        codes::UNDEFINED@ == "H002"@,
        codes::CANNOT_INFER@ == "H003"@,
        codes::AMBIGUOUS_OP@ == "H004"@,
        codes::SYNTAX@ == "H005"@,
        codes::STR_TO_INT@ == "H006"@,
        codes::STR_TO_FLOAT@ == "H007"@,
        codes::COND_NOT_BOOL@ == "H008"@,
        codes::DIV_ZERO@ == "H009"@,
        codes::INTEGER_OVERFLOW@ == "H010"@,
        codes::ARG_COUNT@ == "H011"@,
        codes::RECURSION_DEPTH@ == "H012"@,
        codes::NETWORK@ == "H200"@,
        codes::SYSCALL@ == "H300"@,
        codes::NOT_FOUND@ == "H404"@,
        codes::NOT_IMPLEMENTED@ == "H999"@,
{
}

/// Whether a text has no tabs.
pub open spec fn no_tabs(s: Seq<char>) -> bool {
    forall|i: int| 0 <= i < s.len() ==> #[trigger] s[i] != '\t'
}

proof fn lemma_no_tabs(s: Seq<char>)
    requires
        no_tabs(s),
    ensures
        expand_tabs(s) == s,
    decreases s.len(),
{
    if s.len() > 0 {
        let t = s.drop_last();
        assert(s.last() != '\t');
        assert(no_tabs(t)) by {
            assert forall|i: int| 0 <= i < t.len() implies #[trigger] t[i] != '\t' by {
                assert(t[i] == s[i]);
            }
        }
        lemma_no_tabs(t);
        assert(t.push(s.last()) =~= s);
    }
}

/// The smaller of two numbers.
pub open spec fn smaller(a: int, b: int) -> int {
    if a <= b {
        a
    } else {
        b
    }
}

/// A report names the code, the message and the place of an error, shows its line, and below that line
/// marks the place: the carets stand below the characters from the column on, as many as the error is
/// long, at least one, and none behind the line. The line that is shown and the one below it are given
/// back. The column lies in the line, and no tab stands in front of it.
pub proof fn law_carets_mark_the_place(e: ErrV) -> (r: (Seq<char>, Seq<char>))
    requires
        e.line > 0,
        1 <= e.col <= e.line_text.len(),
        no_tabs(e.line_text.take(e.col - 1)),
    ensures
        report(e) == "error["@ + e.code + "]: "@ + e.msg + "\n"@ + ("  --> "@ + e.file + ":"@ + dec(e.line) + ":"@ + dec(
            e.col,
        ) + "\n"@) + (r.0 + "\n"@) + (r.1 + "\n"@) + (match e.help {
            Some(h) => "help: "@ + h + "\n"@,
            None => Seq::empty(),
        }),
        r.0 == dec(e.line) + " | "@ + e.line_text,
        ({
            let k = dec(e.line).len() + 3;
            let n = smaller(if e.len == 0 { 1 } else { e.len as int }, e.line_text.len() - (e.col - 1));
            &&& forall|i: int| 0 <= i < e.line_text.len() ==> r.0[k + i] == #[trigger] e.line_text[i]
            &&& r.1.len() == k + (e.col - 1) + n
            &&& forall|i: int| 0 <= i < r.1.len() ==> (#[trigger] r.1[i] == '^') == (i >= k + (e.col - 1))
        }),
{
    let no = dec(e.line);
    let k = marked_from(e) as int;
    let front = e.line_text.take(k);
    lemma_no_tabs(front);
    reveal_strlit(" | ");
    let shown = no + " | "@ + front + e.line_text.skip(k);
    let under = rep(' ', no.len()) + " | "@ + rep(' ', front.len()) + rep('^', caret_count(e));
    assert(front + e.line_text.skip(k) =~= e.line_text);
    assert(shown =~= no + " | "@ + e.line_text);
    assert(report(e) == head_line(e.code, e.msg) + ("  --> "@ + e.file + ":"@ + no + ":"@ + dec(e.col) + "\n"@) + (shown
        + "\n"@) + (under + "\n"@) + help_line(e.help));
    assert forall|i: int| 0 <= i < under.len() implies (#[trigger] under[i] == '^') == (i >= no.len() + 3 + (e.col - 1)) by {
        if i < no.len() {
            assert(under[i] == rep(' ', no.len())[i]);
        } else if i < no.len() + 3 {
            assert(under[i] == " | "@[i - no.len()]);
        } else if i < no.len() + 3 + (e.col - 1) {
            assert(under[i] == rep(' ', front.len())[i - no.len() - 3]);
        } else {
            assert(under[i] == rep('^', caret_count(e))[i - no.len() - 3 - (e.col - 1)]);
        }
    }
    (shown, under)
}

} // verus!
