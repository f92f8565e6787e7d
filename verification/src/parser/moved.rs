//! The same tokens give the same expression wherever they stand, up to places in the text.

use vstd::prelude::*;

use super::grammar::{
    field_chain, g_arms, g_binary, g_binary_tail, g_code, g_dotted, g_entries, g_expr, g_list,
    g_match, g_operand, g_pattern, g_pipes, g_primary, g_segs, g_unary, infix, prefix, Cx,
};
use crate::ast::ExprV;
use crate::error::ErrV;
use crate::lexer::{all_short, codes_short, Key, PartV, Span, TokV};

verus! {

/// Whether two patterns are the same, up to places in the text.
pub open spec fn same_pattern(a: Option<ExprV>, b: Option<ExprV>) -> bool {
    match (a, b) {
        (None, None) => true,
        (Some(ExprV::IntLit(x, _)), Some(ExprV::IntLit(y, _))) => x == y,
        (Some(ExprV::FloatLit(x, _)), Some(ExprV::FloatLit(y, _))) => x == y,
        (Some(ExprV::BoolLit(x, _)), Some(ExprV::BoolLit(y, _))) => x == y,
        (Some(ExprV::StrLit(x, _)), Some(ExprV::StrLit(y, _))) => x == y,
        _ => false,
    }
}

/// Whether two expressions are the same, up to places in the text.
pub open spec fn same_expr(a: ExprV, b: ExprV) -> bool
    decreases a,
{
    match (a, b) {
        (ExprV::IntLit(x, _), ExprV::IntLit(y, _)) => x == y,
        (ExprV::FloatLit(x, _), ExprV::FloatLit(y, _)) => x == y,
        (ExprV::BoolLit(x, _), ExprV::BoolLit(y, _)) => x == y,
        (ExprV::StrLit(x, _), ExprV::StrLit(y, _)) => x == y,
        (ExprV::FStr(x, _), ExprV::FStr(y, _)) => x == y,
        (ExprV::Ident { name: x, .. }, ExprV::Ident { name: y, .. }) => x == y,
        (ExprV::ListLit(x, _), ExprV::ListLit(y, _)) => x.len() == y.len() && forall|i: int|
            0 <= i < x.len() ==> same_expr(#[trigger] x[i], y[i]),
        (ExprV::DictLit(x, _), ExprV::DictLit(y, _)) => x.len() == y.len() && forall|i: int|
            0 <= i < x.len() ==> (#[trigger] x[i]).0 == y[i].0 && same_expr(x[i].1, y[i].1),
        (ExprV::Field { obj: x, field: f, .. }, ExprV::Field { obj: y, field: g, .. }) => f == g && same_expr(*x, *y),
        (ExprV::Unary { op: f, expr: x, .. }, ExprV::Unary { op: g, expr: y, .. }) => f == g && same_expr(*x, *y),
        (ExprV::Binary { op: f, lhs: x, rhs: u, .. }, ExprV::Binary { op: g, lhs: y, rhs: v, .. }) => f == g
            && same_expr(*x, *y) && same_expr(*u, *v),
        (ExprV::Call { callee: f, args: x, .. }, ExprV::Call { callee: g, args: y, .. }) => f == g && x.len() == y.len()
            && forall|i: int| 0 <= i < x.len() ==> same_expr(#[trigger] x[i], y[i]),
        (ExprV::Match { value: u, arms: x, .. }, ExprV::Match { value: v, arms: y, .. }) => same_expr(*u, *v)
            && x.len() == y.len() && forall|i: int|
            0 <= i < x.len() ==> same_pattern((#[trigger] x[i]).0, y[i].0) && same_expr(x[i].1, y[i].1),
        _ => false,
    }
}

/// Whether two rows of expressions are the same, up to places in the text.
pub open spec fn same_exprs(x: Seq<ExprV>, y: Seq<ExprV>) -> bool {
    x.len() == y.len() && forall|i: int| 0 <= i < x.len() ==> same_expr(#[trigger] x[i], y[i])
}

/// Whether two rows of entries are the same, up to places in the text.
pub open spec fn same_entries(x: Seq<(Seq<char>, ExprV)>, y: Seq<(Seq<char>, ExprV)>) -> bool {
    x.len() == y.len() && forall|i: int| 0 <= i < x.len() ==> (#[trigger] x[i]).0 == y[i].0 && same_expr(x[i].1, y[i].1)
}

/// Whether two rows of arms are the same, up to places in the text.
pub open spec fn same_arms(x: Seq<(Option<ExprV>, ExprV)>, y: Seq<(Option<ExprV>, ExprV)>) -> bool {
    x.len() == y.len() && forall|i: int|
        0 <= i < x.len() ==> same_pattern((#[trigger] x[i]).0, y[i].0) && same_expr(x[i].1, y[i].1)
}

/// Whether a token ends an operand.
pub open spec fn ends_operand(t: TokV) -> bool {
    t == TokV::Key(Key::RParen) || t == TokV::Key(Key::Comma) || t == TokV::Key(Key::Semi) || t == TokV::Key(Key::Pipe)
}

/// Whether a token ends an expression.
pub open spec fn ends_expr(t: TokV) -> bool {
    t == TokV::Key(Key::RParen) || t == TokV::Key(Key::Comma) || t == TokV::Key(Key::Semi)
}

/// Whether both are texts of one file, of which the first ends.
pub open spec fn fit(cx: Cx, cx2: Cx) -> bool {
    &&& cx.toks.len() > 0
    &&& cx.at(cx.toks.len() - 1, Key::Eof)
    &&& cx.file == cx2.file
    &&& all_short(cx2.toks, cx2.src.len())
}

/// Whether the tokens from `pos` to `end` stand `sh` places further in another row.
pub open spec fn agree(cx: Cx, cx2: Cx, pos: int, end: int, sh: int) -> bool {
    &&& 0 <= pos + sh
    &&& end + sh < cx2.toks.len()
    &&& forall|i: int| pos <= i < end ==> #[trigger] cx.tok(i) == cx2.tok(i + sh)
}

/// Whether the same token stands behind them.
pub open spec fn follow(cx: Cx, cx2: Cx, end: int, sh: int) -> bool {
    cx.tok(end) == cx2.tok(end + sh)
}

/// Whether an operand ends there as well.
pub open spec fn follow_operand(cx: Cx, cx2: Cx, end: int, sh: int) -> bool {
    follow(cx, cx2, end, sh) || ends_operand(cx2.tok(end + sh))
}

/// Whether an expression ends there as well.
pub open spec fn follow_expr(cx: Cx, cx2: Cx, end: int, sh: int) -> bool {
    follow(cx, cx2, end, sh) || ends_expr(cx2.tok(end + sh))
}

/// Whether a result is the same, `sh` places further.
pub open spec fn moved(r: Result<(ExprV, int), ErrV>, r2: Result<(ExprV, int), ErrV>, sh: int) -> bool {
    match (r, r2) {
        (Ok((e, p)), Ok((e2, p2))) => p2 == p + sh && same_expr(e, e2),
        _ => false,
    }
}

/// The same tokens give the same members, wherever they stand.
pub proof fn lemma_dotted(cx: Cx, cx2: Cx, pos: int, parts: Seq<Seq<char>>, sh: int)
    requires
        fit(cx, cx2),
        0 <= pos < cx.toks.len(),
        g_dotted(cx, pos, parts) is Ok,
    ensures
        ({
            let p = g_dotted(cx, pos, parts)->Ok_0.1;
            &&& pos <= p < cx.toks.len()
            &&& !cx.at(p, Key::Dot)
            &&& agree(cx, cx2, pos, p, sh) && (follow(cx, cx2, p, sh) || !cx2.at(p + sh, Key::Dot)) ==> g_dotted(
                cx2,
                pos + sh,
                parts,
            ) == Ok::<(Seq<Seq<char>>, int), ErrV>((g_dotted(cx, pos, parts)->Ok_0.0, p + sh))
        }),
    decreases cx.toks.len() - pos,
{
    if cx.at(pos, Key::Dot) {
        let q = cx.next(pos);
        let m = crate::parser::grammar::member_of(cx.tok(q))->0;
        lemma_dotted(cx, cx2, cx.next(q), parts.push(m), sh);
        let p = g_dotted(cx, pos, parts)->Ok_0.1;
        if agree(cx, cx2, pos, p, sh) {
            assert(cx.tok(pos) == cx2.tok(pos + sh));
            assert(cx.tok(q) == cx2.tok(q + sh));
        }
    }
}

proof fn lemma_chain(parts: Seq<Seq<char>>, s: Span, s2: Span)
    ensures
        same_expr(field_chain(parts, s), field_chain(parts, s2)),
    decreases parts.len(),
{
    if parts.len() > 1 {
        lemma_chain(parts.drop_last(), s, s2);
    }
}

proof fn lemma_segs(cx: Cx, cx2: Cx, parts: Seq<PartV>, s: Span, s2: Span)
    requires
        fit(cx, cx2),
        codes_short(parts, cx2.src.len()),
        g_segs(cx, parts, s) is Ok,
    ensures
        g_segs(cx2, parts, s2) == g_segs(cx, parts, s),
    decreases parts.len(),
{
    if parts.len() > 0 {
        assert(parts.last() == parts[parts.len() - 1]);
        lemma_segs(cx, cx2, parts.drop_last(), s, s2);
        if let PartV::Code(code) = parts.last() {
            assert(g_code(cx2, code, s2) == g_code(cx, code, s));
        }
    }
}

proof fn lemma_name(cx: Cx, cx2: Cx, pos: int, sh: int)
    requires
        fit(cx, cx2),
        0 <= pos < cx.toks.len(),
        cx.tok(pos) is Ident,
        g_primary(cx, pos) is Ok,
    ensures
        ({
            let p = g_primary(cx, pos)->Ok_0.1;
            &&& pos < p < cx.toks.len()
            &&& agree(cx, cx2, pos, p, sh) && follow_operand(cx, cx2, p, sh) ==> moved(
                g_primary(cx, pos),
                g_primary(cx2, pos + sh),
                sh,
            )
        }),
    decreases cx.src.len(), cx.toks.len() - pos, 0nat,
{
    let p = g_primary(cx, pos)->Ok_0.1;
    let q = cx.next(pos);
    let first = cx.tok(pos)->Ident_0;
    let ok = agree(cx, cx2, pos, p, sh) && follow_operand(cx, cx2, p, sh);
    lemma_dotted(cx, cx2, q, seq![first], sh);
    let (parts, p1) = g_dotted(cx, q, seq![first])->Ok_0;
    if cx.at(p1, Key::LParen) {
        lemma_list(cx, cx2, cx.next(p1), Key::RParen, Seq::empty(), Seq::empty(), sh);
        let p2 = g_list(cx, cx.next(p1), Key::RParen, Seq::empty())->Ok_0.1;
        if ok {
            assert(cx.tok(pos) == cx2.tok(pos + sh));
            assert(cx.tok(p1) == cx2.tok(p1 + sh));
            assert(cx.tok(p2) == cx2.tok(p2 + sh));
        }
    } else {
        lemma_chain(parts, cx.span(pos), cx2.span(pos + sh));
        if ok {
            assert(cx.tok(pos) == cx2.tok(pos + sh));
        }
    }
}

proof fn lemma_key(cx: Cx, cx2: Cx, pos: int, sh: int)
    requires
        fit(cx, cx2),
        0 <= pos < cx.toks.len(),
        cx.tok(pos) is Key,
        g_primary(cx, pos) is Ok,
    ensures
        ({
            let p = g_primary(cx, pos)->Ok_0.1;
            &&& pos < p < cx.toks.len()
            &&& agree(cx, cx2, pos, p, sh) ==> moved(g_primary(cx, pos), g_primary(cx2, pos + sh), sh)
        }),
    decreases cx.src.len(), cx.toks.len() - pos, 0nat,
{
    let p = g_primary(cx, pos)->Ok_0.1;
    let q = cx.next(pos);
    let k = cx.tok(pos)->Key_0;
    assert(pos < cx.toks.len() - 1);
    if k == Key::LBracket {
        lemma_list(cx, cx2, q, Key::RBracket, Seq::empty(), Seq::empty(), sh);
        let p1 = g_list(cx, q, Key::RBracket, Seq::empty())->Ok_0.1;
        if agree(cx, cx2, pos, p, sh) {
            assert(cx.tok(pos) == cx2.tok(pos + sh));
            assert(cx.tok(p1) == cx2.tok(p1 + sh));
        }
    } else if k == Key::LBrace {
        lemma_entries(cx, cx2, q, Seq::empty(), Seq::empty(), sh);
        let p1 = g_entries(cx, q, Seq::empty())->Ok_0.1;
        if agree(cx, cx2, pos, p, sh) {
            assert(cx.tok(pos) == cx2.tok(pos + sh));
            assert(cx.tok(p1) == cx2.tok(p1 + sh));
        }
    } else if k == Key::LParen {
        lemma_expr(cx, cx2, q, sh);
        let p1 = g_expr(cx, q)->Ok_0.1;
        if agree(cx, cx2, pos, p, sh) {
            assert(cx.tok(pos) == cx2.tok(pos + sh));
            assert(cx.tok(p1) == cx2.tok(p1 + sh));
        }
    } else if k == Key::Match {
        lemma_match(cx, cx2, q, cx.span(pos), cx2.span(pos + sh), sh);
        if agree(cx, cx2, pos, p, sh) {
            assert(cx.tok(pos) == cx2.tok(pos + sh));
        }
    } else if agree(cx, cx2, pos, p, sh) {
        assert(cx.tok(pos) == cx2.tok(pos + sh));
    }
}

proof fn lemma_primary(cx: Cx, cx2: Cx, pos: int, sh: int)
    requires
        fit(cx, cx2),
        0 <= pos < cx.toks.len(),
        g_primary(cx, pos) is Ok,
    ensures
        ({
            let p = g_primary(cx, pos)->Ok_0.1;
            &&& pos < p < cx.toks.len()
            &&& agree(cx, cx2, pos, p, sh) && follow_operand(cx, cx2, p, sh) ==> moved(
                g_primary(cx, pos),
                g_primary(cx2, pos + sh),
                sh,
            )
        }),
    decreases cx.src.len(), cx.toks.len() - pos, 1nat,
{
    if cx.tok(pos) is Ident {
        lemma_name(cx, cx2, pos, sh);
    } else if cx.tok(pos) is Key {
        lemma_key(cx, cx2, pos, sh);
    } else {
        let p = g_primary(cx, pos)->Ok_0.1;
        if agree(cx, cx2, pos, p, sh) {
            assert(cx.tok(pos) == cx2.tok(pos + sh));
            if let TokV::FStr(parts) = cx.tok(pos) {
                assert(cx2.toks[pos + sh].0 == cx.tok(pos));
                lemma_segs(cx, cx2, parts, cx.span(pos), cx2.span(pos + sh));
            }
        }
    }
}

proof fn lemma_unary(cx: Cx, cx2: Cx, pos: int, sh: int)
    requires
        fit(cx, cx2),
        0 <= pos < cx.toks.len(),
        g_unary(cx, pos) is Ok,
    ensures
        ({
            let p = g_unary(cx, pos)->Ok_0.1;
            &&& pos < p < cx.toks.len()
            &&& agree(cx, cx2, pos, p, sh) && follow_operand(cx, cx2, p, sh) ==> moved(
                g_unary(cx, pos),
                g_unary(cx2, pos + sh),
                sh,
            )
        }),
    decreases cx.src.len(), cx.toks.len() - pos, 2nat,
{
    match prefix(cx.tok(pos)) {
        Some(_) => {
            lemma_unary(cx, cx2, cx.next(pos), sh);
        },
        None => {
            lemma_primary(cx, cx2, pos, sh);
        },
    }
    let p = g_unary(cx, pos)->Ok_0.1;
    if agree(cx, cx2, pos, p, sh) {
        assert(cx.tok(pos) == cx2.tok(pos + sh));
    }
}

proof fn lemma_operand(cx: Cx, cx2: Cx, pos: int, level: nat, sh: int)
    requires
        fit(cx, cx2),
        0 <= pos < cx.toks.len(),
        g_operand(cx, pos, level) is Ok,
    ensures
        ({
            let p = g_operand(cx, pos, level)->Ok_0.1;
            &&& pos < p < cx.toks.len()
            &&& agree(cx, cx2, pos, p, sh) && follow_operand(cx, cx2, p, sh) ==> moved(
                g_operand(cx, pos, level),
                g_operand(cx2, pos + sh, level),
                sh,
            )
        }),
    decreases cx.src.len(), cx.toks.len() - pos, 2 * level + 3,
{
    if level == 0 {
        lemma_unary(cx, cx2, pos, sh);
    } else {
        lemma_binary(cx, cx2, pos, (level - 1) as nat, sh);
    }
}

/// The same tokens give the same operands and operators, wherever they stand.
pub proof fn lemma_binary(cx: Cx, cx2: Cx, pos: int, level: nat, sh: int)
    requires
        fit(cx, cx2),
        0 <= pos < cx.toks.len(),
        g_binary(cx, pos, level) is Ok,
    ensures
        ({
            let p = g_binary(cx, pos, level)->Ok_0.1;
            &&& pos < p < cx.toks.len()
            &&& agree(cx, cx2, pos, p, sh) && follow_operand(cx, cx2, p, sh) ==> moved(
                g_binary(cx, pos, level),
                g_binary(cx2, pos + sh, level),
                sh,
            )
        }),
    decreases cx.src.len(), cx.toks.len() - pos, 2 * level + 4,
{
    lemma_operand(cx, cx2, pos, level, sh);
    let (e, q) = g_operand(cx, pos, level)->Ok_0;
    let p = g_binary(cx, pos, level)->Ok_0.1;
    lemma_tail(cx, cx2, q, level, e, e, sh);
    if agree(cx, cx2, pos, p, sh) && follow_operand(cx, cx2, p, sh) {
        if q < p {
            assert(cx.tok(q) == cx2.tok(q + sh));
        }
        let e2 = g_operand(cx2, pos + sh, level)->Ok_0.0;
        lemma_tail(cx, cx2, q, level, e, e2, sh);
    }
}

proof fn lemma_tail(cx: Cx, cx2: Cx, pos: int, level: nat, lhs: ExprV, lhs2: ExprV, sh: int)
    requires
        fit(cx, cx2),
        0 <= pos < cx.toks.len(),
        g_binary_tail(cx, pos, level, lhs) is Ok,
    ensures
        ({
            let p = g_binary_tail(cx, pos, level, lhs)->Ok_0.1;
            &&& pos <= p < cx.toks.len()
            &&& same_expr(lhs, lhs2) && agree(cx, cx2, pos, p, sh) && follow_operand(cx, cx2, p, sh) ==> moved(
                g_binary_tail(cx, pos, level, lhs),
                g_binary_tail(cx2, pos + sh, level, lhs2),
                sh,
            )
        }),
    decreases cx.src.len(), cx.toks.len() - pos, 1nat,
{
    let p = g_binary_tail(cx, pos, level, lhs)->Ok_0.1;
    let ok = same_expr(lhs, lhs2) && agree(cx, cx2, pos, p, sh) && follow_operand(cx, cx2, p, sh);
    if let Some(op) = infix(level, cx.tok(pos)) {
        let n = cx.next(pos);
        lemma_operand(cx, cx2, n, level, sh);
        let (rhs, q) = g_operand(cx, n, level)->Ok_0;
        let both = ExprV::Binary { op, lhs: Box::new(lhs), rhs: Box::new(rhs), span: cx.span(pos) };
        lemma_tail(cx, cx2, q, level, both, both, sh);
        if ok {
            assert(cx.tok(pos) == cx2.tok(pos + sh));
            if q < p {
                assert(cx.tok(q) == cx2.tok(q + sh));
            }
            let rhs2 = g_operand(cx2, n + sh, level)->Ok_0.0;
            let both2 = ExprV::Binary {
                op,
                lhs: Box::new(lhs2),
                rhs: Box::new(rhs2),
                span: cx2.span(pos + sh),
            };
            assert(same_expr(both, both2));
            lemma_tail(cx, cx2, q, level, both, both2, sh);
        }
    }
}

/// The same tokens give the same expression, wherever they stand.
pub proof fn lemma_expr(cx: Cx, cx2: Cx, pos: int, sh: int)
    requires
        fit(cx, cx2),
        0 <= pos < cx.toks.len(),
        g_expr(cx, pos) is Ok,
    ensures
        ({
            let p = g_expr(cx, pos)->Ok_0.1;
            &&& pos < p < cx.toks.len()
            &&& agree(cx, cx2, pos, p, sh) && follow_expr(cx, cx2, p, sh) ==> moved(
                g_expr(cx, pos),
                g_expr(cx2, pos + sh),
                sh,
            )
        }),
    decreases cx.src.len(), cx.toks.len() - pos, 20nat,
{
    lemma_binary(cx, cx2, pos, 5, sh);
    let (e, q) = g_binary(cx, pos, 5)->Ok_0;
    let p = g_expr(cx, pos)->Ok_0.1;
    lemma_pipes(cx, cx2, q, e, e, sh);
    if agree(cx, cx2, pos, p, sh) && follow_expr(cx, cx2, p, sh) {
        if q < p {
            assert(cx.tok(q) == cx2.tok(q + sh));
        }
        let e2 = g_binary(cx2, pos + sh, 5)->Ok_0.0;
        lemma_pipes(cx, cx2, q, e, e2, sh);
    }
}

/// The same tokens give the same pipes, wherever they stand.
pub proof fn lemma_pipes(cx: Cx, cx2: Cx, pos: int, lhs: ExprV, lhs2: ExprV, sh: int)
    requires
        fit(cx, cx2),
        0 <= pos < cx.toks.len(),
        g_pipes(cx, pos, lhs) is Ok,
    ensures
        ({
            let p = g_pipes(cx, pos, lhs)->Ok_0.1;
            &&& pos <= p < cx.toks.len()
            &&& same_expr(lhs, lhs2) && agree(cx, cx2, pos, p, sh) && follow_expr(cx, cx2, p, sh) ==> moved(
                g_pipes(cx, pos, lhs),
                g_pipes(cx2, pos + sh, lhs2),
                sh,
            )
        }),
    decreases cx.src.len(), cx.toks.len() - pos, 1nat,
{
    let p = g_pipes(cx, pos, lhs)->Ok_0.1;
    let ok = same_expr(lhs, lhs2) && agree(cx, cx2, pos, p, sh) && follow_expr(cx, cx2, p, sh);
    if cx.at(pos, Key::Pipe) {
        let p0 = cx.next(pos);
        let first = cx.tok(p0)->Ident_0;
        let p1 = cx.next(p0);
        lemma_dotted(cx, cx2, p1, seq![first], sh);
        let (parts, p2) = g_dotted(cx, p1, seq![first])->Ok_0;
        let name = crate::parser::grammar::joined(parts);
        if cx.at(p2, Key::LParen) {
            lemma_list(cx, cx2, cx.next(p2), Key::RParen, Seq::empty(), Seq::empty(), sh);
            let (args, p3) = g_list(cx, cx.next(p2), Key::RParen, Seq::empty())->Ok_0;
            let p4 = cx.next(p3);
            let c = ExprV::Call { callee: name, args: seq![lhs] + args, span: cx.span(pos) };
            lemma_pipes(cx, cx2, p4, c, c, sh);
            if ok {
                assert(cx.tok(pos) == cx2.tok(pos + sh));
                assert(cx.tok(p0) == cx2.tok(p0 + sh));
                assert(cx.tok(p2) == cx2.tok(p2 + sh));
                assert(cx.tok(p3) == cx2.tok(p3 + sh));
                let args2 = g_list(cx2, cx.next(p2) + sh, Key::RParen, Seq::empty())->Ok_0.0;
                let c2 = ExprV::Call { callee: name, args: seq![lhs2] + args2, span: cx2.span(pos + sh) };
                assert(same_expr(c, c2));
                lemma_pipes(cx, cx2, p4, c, c2, sh);
            }
        } else {
            let c = ExprV::Call { callee: name, args: seq![lhs], span: cx.span(pos) };
            lemma_pipes(cx, cx2, p2, c, c, sh);
            if ok {
                assert(cx.tok(pos) == cx2.tok(pos + sh));
                assert(cx.tok(p0) == cx2.tok(p0 + sh));
                if p2 < p {
                    assert(cx.tok(p2) == cx2.tok(p2 + sh));
                }
                let c2 = ExprV::Call { callee: name, args: seq![lhs2], span: cx2.span(pos + sh) };
                assert(same_expr(c, c2));
                lemma_pipes(cx, cx2, p2, c, c2, sh);
            }
        }
    }
}

/// The same tokens give the same row of expressions, wherever they stand.
pub proof fn lemma_list(cx: Cx, cx2: Cx, pos: int, close: Key, items: Seq<ExprV>, items2: Seq<ExprV>, sh: int)
    requires
        fit(cx, cx2),
        0 <= pos < cx.toks.len(),
        close != Key::Eof,
        g_list(cx, pos, close, items) is Ok,
    ensures
        ({
            let p = g_list(cx, pos, close, items)->Ok_0.1;
            &&& pos <= p < cx.toks.len()
            &&& same_exprs(items, items2) && agree(cx, cx2, pos, p, sh) && follow(cx, cx2, p, sh) ==> match g_list(
                cx2,
                pos + sh,
                close,
                items2,
            ) {
                Ok((es, q)) => q == p + sh && same_exprs(g_list(cx, pos, close, items)->Ok_0.0, es),
                Err(_) => false,
            }
        }),
    decreases cx.src.len(), cx.toks.len() - pos, 21nat,
{
    let p = g_list(cx, pos, close, items)->Ok_0.1;
    let ok = same_exprs(items, items2) && agree(cx, cx2, pos, p, sh) && follow(cx, cx2, p, sh);
    if !cx.at(pos, close) {
        lemma_expr(cx, cx2, pos, sh);
        let (e, q) = g_expr(cx, pos)->Ok_0;
        if cx.at(q, Key::Comma) {
            lemma_list(cx, cx2, cx.next(q), close, items.push(e), items.push(e), sh);
        }
        if ok {
            assert(cx.tok(pos) == cx2.tok(pos + sh));
            assert(cx.tok(q) == cx2.tok(q + sh));
            let e2 = g_expr(cx2, pos + sh)->Ok_0.0;
            assert(same_exprs(items.push(e), items2.push(e2)));
            if cx.at(q, Key::Comma) {
                lemma_list(cx, cx2, cx.next(q), close, items.push(e), items2.push(e2), sh);
            }
        }
    }
}

proof fn lemma_entries(
    cx: Cx,
    cx2: Cx,
    pos: int,
    items: Seq<(Seq<char>, ExprV)>,
    items2: Seq<(Seq<char>, ExprV)>,
    sh: int,
)
    requires
        fit(cx, cx2),
        0 <= pos < cx.toks.len(),
        g_entries(cx, pos, items) is Ok,
    ensures
        ({
            let p = g_entries(cx, pos, items)->Ok_0.1;
            &&& pos <= p < cx.toks.len()
            &&& same_entries(items, items2) && agree(cx, cx2, pos, p, sh) && follow(cx, cx2, p, sh) ==> match g_entries(
                cx2,
                pos + sh,
                items2,
            ) {
                Ok((es, q)) => q == p + sh && same_entries(g_entries(cx, pos, items)->Ok_0.0, es),
                Err(_) => false,
            }
        }),
    decreases cx.src.len(), cx.toks.len() - pos, 21nat,
{
    let p = g_entries(cx, pos, items)->Ok_0.1;
    let ok = same_entries(items, items2) && agree(cx, cx2, pos, p, sh) && follow(cx, cx2, p, sh);
    if !cx.at(pos, Key::RBrace) {
        let key = cx.tok(pos)->StrLit_0;
        let c = cx.next(pos);
        let n = cx.next(c);
        lemma_expr(cx, cx2, n, sh);
        let (e, q) = g_expr(cx, n)->Ok_0;
        let with = items.push((key, e));
        if cx.at(q, Key::Comma) {
            lemma_entries(cx, cx2, cx.next(q), with, with, sh);
        }
        if ok {
            assert(cx.tok(pos) == cx2.tok(pos + sh));
            assert(cx.tok(c) == cx2.tok(c + sh));
            assert(cx.tok(q) == cx2.tok(q + sh));
            let e2 = g_expr(cx2, n + sh)->Ok_0.0;
            let with2 = items2.push((key, e2));
            assert(same_entries(with, with2));
            if cx.at(q, Key::Comma) {
                lemma_entries(cx, cx2, cx.next(q), with, with2, sh);
            }
        }
    }
}

proof fn lemma_match(cx: Cx, cx2: Cx, pos: int, s: Span, s2: Span, sh: int)
    requires
        fit(cx, cx2),
        0 <= pos < cx.toks.len(),
        g_match(cx, pos, s) is Ok,
    ensures
        ({
            let p = g_match(cx, pos, s)->Ok_0.1;
            &&& pos < p < cx.toks.len()
            &&& agree(cx, cx2, pos, p, sh) ==> moved(g_match(cx, pos, s), g_match(cx2, pos + sh, s2), sh)
        }),
    decreases cx.src.len(), cx.toks.len() - pos, 21nat,
{
    lemma_expr(cx, cx2, pos, sh);
    let (v, q) = g_expr(cx, pos)->Ok_0;
    let n = cx.next(q);
    lemma_arms(cx, cx2, n, Seq::empty(), Seq::empty(), false, sh);
    let p2 = g_arms(cx, n, Seq::empty(), false)->Ok_0.1;
    let p = g_match(cx, pos, s)->Ok_0.1;
    if agree(cx, cx2, pos, p, sh) {
        assert(cx.tok(q) == cx2.tok(q + sh));
        assert(cx.tok(p2) == cx2.tok(p2 + sh));
    }
}

proof fn lemma_arms(
    cx: Cx,
    cx2: Cx,
    pos: int,
    arms: Seq<(Option<ExprV>, ExprV)>,
    arms2: Seq<(Option<ExprV>, ExprV)>,
    wild: bool,
    sh: int,
)
    requires
        fit(cx, cx2),
        0 <= pos < cx.toks.len(),
        g_arms(cx, pos, arms, wild) is Ok,
    ensures
        ({
            let p = g_arms(cx, pos, arms, wild)->Ok_0.1;
            &&& pos <= p < cx.toks.len()
            &&& same_arms(arms, arms2) && agree(cx, cx2, pos, p, sh) && follow(cx, cx2, p, sh) ==> match g_arms(
                cx2,
                pos + sh,
                arms2,
                wild,
            ) {
                Ok((es, q)) => q == p + sh && same_arms(g_arms(cx, pos, arms, wild)->Ok_0.0, es),
                Err(_) => false,
            }
        }),
    decreases cx.src.len(), cx.toks.len() - pos, 21nat,
{
    let p = g_arms(cx, pos, arms, wild)->Ok_0.1;
    let ok = same_arms(arms, arms2) && agree(cx, cx2, pos, p, sh) && follow(cx, cx2, p, sh);
    if !cx.at(pos, Key::RBrace) {
        let pat = g_pattern(cx, pos, wild)->Ok_0;
        let c = cx.next(pos);
        let n = cx.next(c);
        lemma_expr(cx, cx2, n, sh);
        let (e, q) = g_expr(cx, n)->Ok_0;
        let with = arms.push((pat, e));
        if cx.at(q, Key::Comma) {
            lemma_arms(cx, cx2, cx.next(q), with, with, wild || pat is None, sh);
        }
        if ok {
            assert(cx.tok(pos) == cx2.tok(pos + sh));
            assert(cx.tok(c) == cx2.tok(c + sh));
            assert(cx.tok(q) == cx2.tok(q + sh));
            let pat2 = g_pattern(cx2, pos + sh, wild)->Ok_0;
            assert(same_pattern(pat, pat2));
            let e2 = g_expr(cx2, n + sh)->Ok_0.0;
            let with2 = arms2.push((pat2, e2));
            assert(same_arms(with, with2));
            if cx.at(q, Key::Comma) {
                lemma_arms(cx, cx2, cx.next(q), with, with2, wild || pat is None, sh);
            }
        }
    }
}

} // verus!
