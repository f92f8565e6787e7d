//! What the tokens of a script name: the headers of its libraries and its floating-point
//! literals.

use vstd::prelude::*;

use crate::lexer::{toks_v, Key, Span, Tok, TokV};
use crate::text::strs;

verus! {

/// The header that is named at token `i`: a text behind `from`.
pub open spec fn header_at(ts: Seq<(TokV, Span)>, i: int) -> Option<Seq<char>> {
    if 0 <= i && i + 1 < ts.len() && ts[i].0 == TokV::Key(Key::From) {
        match ts[i + 1].0 {
            TokV::StrLit(s) => Some(s),
            _ => None,
        }
    } else {
        None
    }
}

/// The headers that are named at the first `n` tokens, in order.
pub open spec fn headers(ts: Seq<(TokV, Span)>, n: int) -> Seq<Seq<char>>
    decreases n,
{
    if n <= 0 {
        Seq::empty()
    } else {
        match header_at(ts, n - 1) {
            Some(s) => headers(ts, n - 1).push(s),
            None => headers(ts, n - 1),
        }
    }
}

/// The texts of the floating-point literals among the first `n` tokens, in order.
pub open spec fn floats(ts: Seq<(TokV, Span)>, n: int) -> Seq<Seq<char>>
    decreases n,
{
    if n <= 0 || n > ts.len() {
        Seq::empty()
    } else {
        match ts[n - 1].0 {
            TokV::FloatLit(s) => floats(ts, n - 1).push(s),
            _ => floats(ts, n - 1),
        }
    }
}

/// The headers that tokens name.
pub fn headers_in(ts: &Vec<(Tok, Span)>) -> (r: Vec<String>)
    ensures
        strs(r@) == headers(toks_v(ts@), ts.len() as int),
{
    let mut out: Vec<String> = Vec::new();
    assert(strs(out@) =~= Seq::empty());
    let mut i: usize = 0;
    while i < ts.len()
        invariant
            i <= ts.len(),
            strs(out@) == headers(toks_v(ts@), i as int),
        decreases ts.len() - i,
    {
        let ghost was = strs(out@);
        assert(toks_v(ts@)[i as int] == (ts@[i as int].0@, ts@[i as int].1));
        let from = match &ts[i].0 {
            Tok::Key(Key::From) => true,
            _ => false,
        };
        if from && i < ts.len() - 1 {
            assert(toks_v(ts@)[i + 1] == (ts@[i + 1].0@, ts@[i + 1].1));
            if let Tok::StrLit(s) = &ts[i + 1].0 {
                out.push(s.clone());
                assert(strs(out@) =~= was.push(s@));
            }
        }
        i = i + 1;
    }
    out
}

/// The texts of the floating-point literals among tokens.
pub fn floats_in(ts: &Vec<(Tok, Span)>) -> (r: Vec<String>)
    ensures
        strs(r@) == floats(toks_v(ts@), ts.len() as int),
{
    let mut out: Vec<String> = Vec::new();
    assert(strs(out@) =~= Seq::empty());
    let mut i: usize = 0;
    while i < ts.len()
        invariant
            i <= ts.len(),
            strs(out@) == floats(toks_v(ts@), i as int),
        decreases ts.len() - i,
    {
        let ghost was = strs(out@);
        assert(toks_v(ts@)[i as int] == (ts@[i as int].0@, ts@[i as int].1));
        if let Tok::FloatLit(s) = &ts[i].0 {
            out.push(s.clone());
            assert(strs(out@) =~= was.push(s@));
        }
        i = i + 1;
    }
    out
}

} // verus!
