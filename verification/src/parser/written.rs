//! Expressions as they are written: the tokens of an expression, with brackets only where an
//! operator binds looser than its place allows, read back as that expression.

use vstd::prelude::*;

use super::grammar::{
    field_chain, g_arms, g_binary, g_binary_tail, g_dotted, g_entries, g_expr, g_list, g_match, g_operand, g_pattern,
    g_primary, g_unary, infix, joined, prefix, Cx,
};
use super::moved::{same_arms, same_entries, same_expr, same_exprs, same_pattern};
use super::pipes::{assigned, assigns, key, lemma_assigned, lemma_assigns, lemma_halves, lemma_names, names, reads, stands, text};
use crate::ast::{BinOp, ExprV, UnOp};
use crate::error::ErrV;
use crate::lexer::spelled::{law_tokens_read_back, placed, spellable, spelled, spelling};
use crate::lexer::{Key, Span, TokV};
use crate::words::last_pos;

verus! {

/// How loosely an infix operator binds: products the least, then sums, comparisons, equality,
/// `&&` and `||`.
pub open spec fn looseness(op: BinOp) -> nat {
    match op {
        BinOp::Mul | BinOp::Div | BinOp::Mod => 0,
        BinOp::Add | BinOp::Sub => 1,
        BinOp::Lt | BinOp::Le | BinOp::Gt | BinOp::Ge => 2,
        BinOp::Eq | BinOp::Ne => 3,
        BinOp::And => 4,
        BinOp::Or => 5,
    }
}

/// The sign of an infix operator.
pub open spec fn sign(op: BinOp) -> Key {
    match op {
        BinOp::Mul => Key::Star,
        BinOp::Div => Key::Slash,
        BinOp::Mod => Key::Percent,
        BinOp::Add => Key::Plus,
        BinOp::Sub => Key::Minus,
        BinOp::Lt => Key::Lt,
        BinOp::Le => Key::Le,
        BinOp::Gt => Key::Gt,
        BinOp::Ge => Key::Ge,
        BinOp::Eq => Key::EqEq,
        BinOp::Ne => Key::NotEq,
        BinOp::And => Key::AndAnd,
        BinOp::Or => Key::OrOr,
    }
}

/// The sign of a prefix operator.
pub open spec fn mark(op: UnOp) -> Key {
    match op {
        UnOp::Neg => Key::Minus,
        UnOp::Not => Key::Bang,
    }
}

/// The parts of a name, between its points.
pub open spec fn name_parts(c: Seq<char>) -> Seq<Seq<char>>
    decreases c.len(),
{
    match last_pos(c, '.', c.len() as int) {
        Some(i) => if 0 <= i < c.len() {
            name_parts(c.take(i)).push(c.skip(i + 1))
        } else {
            seq![c]
        },
        None => seq![c],
    }
}

/// The tokens of a name with its members.
pub open spec fn name_row(parts: Seq<Seq<char>>) -> Seq<TokV>
    decreases parts.len(),
{
    if parts.len() <= 1 {
        seq![TokV::Ident(parts[0])]
    } else {
        name_row(parts.drop_last()) + seq![key(Key::Dot), TokV::Ident(parts.last())]
    }
}

/// The names of a chain of members.
pub open spec fn members(e: ExprV) -> Seq<Seq<char>>
    decreases e,
{
    match e {
        ExprV::Ident { name, .. } => seq![name],
        ExprV::Field { obj, field, .. } => members(*obj).push(field),
        _ => Seq::empty(),
    }
}

/// Whether a pattern can be written, `_` at the end alone.
pub open spec fn writable_pattern(p: Option<ExprV>, last: bool) -> bool {
    match p {
        None => last,
        Some(e) => e is IntLit || e is FloatLit || e is StrLit || e is BoolLit,
    }
}

/// Whether an expression can be written: members are those of a variable. Interpolated texts
/// are left out, as their code stands inside of a token.
pub open spec fn writable(e: ExprV) -> bool
    decreases e,
{
    match e {
        ExprV::FStr(..) => false,
        ExprV::ListLit(x, _) => forall|i: int| 0 <= i < x.len() ==> writable(#[trigger] x[i]),
        ExprV::DictLit(x, _) => forall|i: int| 0 <= i < x.len() ==> writable((#[trigger] x[i]).1),
        ExprV::Field { obj, .. } => (*obj is Ident || *obj is Field) && writable(*obj),
        ExprV::Unary { expr, .. } => writable(*expr),
        ExprV::Binary { lhs, rhs, .. } => writable(*lhs) && writable(*rhs),
        ExprV::Call { args, .. } => forall|i: int| 0 <= i < args.len() ==> writable(#[trigger] args[i]),
        ExprV::Match { value, arms, .. } => writable(*value) && forall|i: int|
            0 <= i < arms.len() ==> writable((#[trigger] arms[i]).1) && writable_pattern(arms[i].0, i == arms.len() - 1),
        _ => true,
    }
}

/// How loose an expression is: that of its operator, and tighter than all without one.
pub open spec fn loose(e: ExprV) -> nat {
    match e {
        ExprV::Binary { op, .. } => looseness(op) + 1,
        _ => 0,
    }
}

/// The tokens of an expression in a place that holds what is no looser than `level`; anything
/// looser stands in brackets.
pub open spec fn written(e: ExprV, level: nat) -> Seq<TokV>
    decreases e, 1nat,
{
    if loose(e) <= level {
        bare(e)
    } else {
        seq![key(Key::LParen)] + bare(e) + seq![key(Key::RParen)]
    }
}

/// The tokens of a pattern.
pub open spec fn pattern_tok(p: Option<ExprV>) -> TokV {
    match p {
        None => TokV::Ident("_"@),
        Some(ExprV::IntLit(n, _)) => TokV::IntLit(n),
        Some(ExprV::FloatLit(t, _)) => TokV::FloatLit(t),
        Some(ExprV::StrLit(t, _)) => TokV::StrLit(t),
        Some(ExprV::BoolLit(b, _)) => key(if b { Key::True } else { Key::False }),
        _ => key(Key::Eof),
    }
}

/// The tokens of an expression without brackets around it.
pub open spec fn bare(e: ExprV) -> Seq<TokV>
    decreases e, 0nat,
{
    match e {
        ExprV::IntLit(n, _) => seq![TokV::IntLit(n)],
        ExprV::FloatLit(t, _) => seq![TokV::FloatLit(t)],
        ExprV::StrLit(t, _) => seq![TokV::StrLit(t)],
        ExprV::BoolLit(b, _) => seq![key(if b { Key::True } else { Key::False })],
        ExprV::FStr(..) => Seq::empty(),
        ExprV::Ident { .. } | ExprV::Field { .. } => name_row(members(e)),
        ExprV::Unary { op, expr, .. } => seq![key(mark(op))] + written(*expr, 0),
        ExprV::Binary { op, lhs, rhs, .. } => written(*lhs, looseness(op) + 1) + seq![key(sign(op))] + written(
            *rhs,
            looseness(op),
        ),
        ExprV::Call { callee, args, .. } => name_row(name_parts(callee)) + seq![key(Key::LParen)] + items_row(args, 0)
            + seq![key(Key::RParen)],
        ExprV::ListLit(x, _) => seq![key(Key::LBracket)] + items_row(x, 0) + seq![key(Key::RBracket)],
        ExprV::DictLit(x, _) => seq![key(Key::LBrace)] + entries_row(x, 0) + seq![key(Key::RBrace)],
        ExprV::Match { value, arms, .. } => seq![key(Key::Match)] + written(*value, 6) + seq![key(Key::LBrace)]
            + arms_row(arms, 0) + seq![key(Key::RBrace)],
    }
}

/// A comma between two parts.
pub open spec fn comma(more: bool) -> Seq<TokV> {
    if more {
        seq![key(Key::Comma)]
    } else {
        Seq::empty()
    }
}

/// The tokens of expressions from a place on, with commas between them.
pub open spec fn items_row(x: Seq<ExprV>, k: int) -> Seq<TokV>
    decreases x, x.len() - k,
{
    if k < 0 || k >= x.len() {
        Seq::empty()
    } else {
        written(x[k], 6) + comma(k + 1 < x.len()) + items_row(x, k + 1)
    }
}

/// The tokens of entries from a place on.
pub open spec fn entries_row(x: Seq<(Seq<char>, ExprV)>, k: int) -> Seq<TokV>
    decreases x, x.len() - k,
{
    if k < 0 || k >= x.len() {
        Seq::empty()
    } else {
        seq![TokV::StrLit(x[k].0), key(Key::Colon)] + written(x[k].1, 6) + comma(k + 1 < x.len()) + entries_row(x, k + 1)
    }
}

/// The tokens of arms from a place on.
pub open spec fn arms_row(x: Seq<(Option<ExprV>, ExprV)>, k: int) -> Seq<TokV>
    decreases x, x.len() - k,
{
    if k < 0 || k >= x.len() {
        Seq::empty()
    } else {
        seq![pattern_tok(x[k].0), key(Key::FatArrow)] + written(x[k].1, 6) + comma(k + 1 < x.len()) + arms_row(x, k + 1)
    }
}

/// Whether a token neither goes on with a name nor is an operator tighter than `level`.
pub open spec fn stops(t: TokV, level: nat) -> bool {
    &&& t != key(Key::Dot)
    &&& t != key(Key::LParen)
    &&& forall|k: nat| k < level ==> #[trigger] infix(k, t) is None
}

/// Whether a token ends every expression.
pub open spec fn ends(t: TokV) -> bool {
    t == key(Key::Semi) || t == key(Key::Comma) || t == key(Key::RParen) || t == key(Key::RBracket) || t == key(
        Key::LBrace,
    ) || t == key(Key::RBrace)
}

/// The parts of a name make it up.
pub proof fn lemma_parts(c: Seq<char>)
    ensures
        name_parts(c).len() > 0,
        joined(name_parts(c)) == c,
    decreases c.len(),
{
    reveal_strlit(".");
    if let Some(i) = last_pos(c, '.', c.len() as int) {
        lemma_last_pos(c, c.len() as int);
        lemma_parts(c.take(i));
        let ps = name_parts(c);
        assert(ps.drop_last() =~= name_parts(c.take(i)));
        assert(c =~= c.take(i) + "."@ + c.skip(i + 1));
    }
}

proof fn lemma_last_pos(c: Seq<char>, n: int)
    requires
        0 <= n <= c.len(),
    ensures
        last_pos(c, '.', n) matches Some(i) ==> 0 <= i < n && c[i] == '.',
    decreases n,
{
    if n > 0 {
        lemma_last_pos(c, n - 1);
    }
}

/// The tokens of a name are its parts with points between them.
pub proof fn lemma_name_toks(parts: Seq<Seq<char>>)
    requires
        parts.len() > 0,
    ensures
        name_row(parts).len() == 2 * parts.len() - 1,
        forall|j: int|
            0 <= j < 2 * parts.len() - 1 ==> #[trigger] name_row(parts)[j] == (if j % 2 == 0 {
                TokV::Ident(parts[j / 2])
            } else {
                key(Key::Dot)
            }),
    decreases parts.len(),
{
    if parts.len() > 1 {
        let d = parts.drop_last();
        lemma_name_toks(d);
        let r = name_row(d);
        let row = name_row(parts);
        let end = seq![key(Key::Dot), TokV::Ident(parts.last())];
        assert(row == r + end);
        assert forall|j: int| 0 <= j < 2 * parts.len() - 1 implies #[trigger] row[j] == (if j % 2 == 0 {
            TokV::Ident(parts[j / 2])
        } else {
            key(Key::Dot)
        }) by {
            if j < r.len() {
                assert(row[j] == r[j]);
                assert(d[j / 2] == parts[j / 2]);
            } else if j == r.len() {
                assert(row[j] == end[0]);
            } else {
                assert(row[j] == end[1]);
                assert(j / 2 == parts.len() - 1);
            }
        }
    }
}

/// The tokens of a name are a name.
proof fn lemma_name_row(parts: Seq<Seq<char>>)
    requires
        parts.len() > 0,
    ensures
        names(name_row(parts), parts),
{
    lemma_name_toks(parts);
    let row = name_row(parts);
    assert(row[0] == TokV::Ident(parts[0]));
    assert forall|i: int| 1 <= i < parts.len() implies row[2 * i - 1] == key(Key::Dot) && row[2 * i] == TokV::Ident(
        #[trigger] parts[i],
    ) by {
        assert((2 * i) % 2 == 0 && (2 * i) / 2 == i && (2 * i - 1) % 2 == 1);
    }
}

/// A name is read whole.
pub proof fn lemma_name(cx: Cx, pos: int, parts: Seq<Seq<char>>)
    requires
        parts.len() > 0,
        stands(cx, pos, name_row(parts)),
        !cx.at(pos + name_row(parts).len(), Key::Dot),
    ensures
        cx.tok(pos) == TokV::Ident(parts[0]),
        name_row(parts).len() > 0,
        g_dotted(cx, pos + 1, seq![parts[0]]) == Ok::<(Seq<Seq<char>>, int), ErrV>(
            (parts, pos + name_row(parts).len()),
        ),
{
    lemma_name_row(parts);
    lemma_names(cx, pos, name_row(parts), parts, 1);
    assert(parts.take(1) =~= seq![parts[0]]);
}

/// The names of a chain make it up.
proof fn lemma_members(e: ExprV, s: Span)
    requires
        e is Ident || e is Field,
        writable(e),
    ensures
        members(e).len() > 0,
        same_expr(e, field_chain(members(e), s)),
    decreases e,
{
    if let ExprV::Field { obj, field, .. } = e {
        lemma_members(*obj, s);
        assert(members(e).drop_last() =~= members(*obj));
    }
}

/// The sign of an operator is read as the operator, on its own level.
proof fn lemma_sign(op: BinOp, k: nat)
    ensures
        infix(k, key(sign(op))) == (if k == looseness(op) {
            Some(op)
        } else {
            None::<BinOp>
        }),
{
}

/// No expression starts with a closing bracket.
proof fn lemma_no_start(cx: Cx, pos: int, level: nat)
    requires
        cx.at(pos, Key::RParen) || cx.at(pos, Key::RBracket) || cx.at(pos, Key::RBrace),
    ensures
        g_binary(cx, pos, level) is Err,
        g_operand(cx, pos, level) is Err,
    decreases level,
{
    assert(g_primary(cx, pos) is Err);
    if level > 0 {
        lemma_no_start(cx, pos, (level - 1) as nat);
    }
}

/// An operand of one level with nothing of the levels above behind it is one of theirs.
proof fn lemma_lift(cx: Cx, pos: int, from: nat, to: nat)
    requires
        from <= to,
        g_binary(cx, pos, from) is Ok,
        cx.on(pos, g_binary(cx, pos, from)->Ok_0.1),
        forall|k: nat| k <= to ==> #[trigger] infix(k, cx.tok(g_binary(cx, pos, from)->Ok_0.1)) is None,
    ensures
        g_binary(cx, pos, to) == g_binary(cx, pos, from),
    decreases to,
{
    if from < to {
        lemma_lift(cx, pos, from, (to - 1) as nat);
        let (e, p) = g_binary(cx, pos, from)->Ok_0;
        assert(infix(to, cx.tok(p)) is None);
        assert(g_binary_tail(cx, p, to, e) == Ok::<(ExprV, int), ErrV>((e, p)));
    }
}

proof fn lemma_ends(t: TokV)
    requires
        ends(t),
    ensures
        stops(t, 6),
        t != key(Key::Pipe),
{
}

/// An infix operator with both its sides, in front of anything that is no tighter.
proof fn lemma_sides(cx: Cx, pos: int, e: ExprV) -> (e2: ExprV)
    requires
        e is Binary,
        writable(e),
        stands(cx, pos, bare(e)),
        stops(cx.tok(pos + bare(e).len()), looseness(e->Binary_op)),
    ensures
        same_expr(e, e2),
        bare(e).len() > 0,
        g_binary(cx, pos, looseness(e->Binary_op)) == g_binary_tail(
            cx,
            pos + bare(e).len(),
            looseness(e->Binary_op),
            e2,
        ),
    decreases e, 0nat,
{
    let op = e->Binary_op;
    let (lhs, rhs) = (*e->lhs, *e->rhs);
    let t = looseness(op);
    let left = written(lhs, t + 1);
    let right = written(rhs, t);
    lemma_halves(cx, pos, left + seq![key(sign(op))], right);
    lemma_halves(cx, pos, left, seq![key(sign(op))]);
    let q = pos + left.len();
    assert forall|k: nat| k < t implies #[trigger] infix(k, cx.tok(q)) is None by {
        lemma_sign(op, k);
    }
    lemma_sign(op, t);
    let l2 = lemma_row(cx, pos, lhs, t);
    let r2 = lemma_operand(cx, q + 1, rhs, t);
    assert(q + 1 + right.len() == pos + bare(e).len());
    ExprV::Binary { op, lhs: Box::new(l2), rhs: Box::new(r2), span: cx.span(q) }
}

/// An expression in front of anything that is no tighter than an operator of `level`.
proof fn lemma_row(cx: Cx, pos: int, e: ExprV, level: nat) -> (e2: ExprV)
    requires
        level <= 5,
        writable(e),
        stands(cx, pos, written(e, level + 1)),
        stops(cx.tok(pos + written(e, level + 1).len()), level),
    ensures
        same_expr(e, e2),
        written(e, level + 1).len() > 0,
        g_binary(cx, pos, level) == g_binary_tail(cx, pos + written(e, level + 1).len(), level, e2),
    decreases e, (11 + 2 * level) as nat,
{
    if e is Binary && looseness(e->Binary_op) == level {
        lemma_sides(cx, pos, e)
    } else {
        assert(written(e, level + 1) == written(e, level));
        lemma_operand(cx, pos, e, level)
    }
}

/// An operand in front of anything that is no tighter than its place.
proof fn lemma_operand(cx: Cx, pos: int, e: ExprV, level: nat) -> (e2: ExprV)
    requires
        level <= 6,
        writable(e),
        stands(cx, pos, written(e, level)),
        stops(cx.tok(pos + written(e, level).len()), level),
    ensures
        same_expr(e, e2),
        written(e, level).len() > 0,
        g_operand(cx, pos, level) == Ok::<(ExprV, int), ErrV>((e2, pos + written(e, level).len())),
    decreases e, (10 + 2 * level) as nat,
{
    if level == 0 {
        lemma_unary(cx, pos, e)
    } else {
        let l = (level - 1) as nat;
        let e2 = lemma_row(cx, pos, e, l);
        assert(infix(l, cx.tok(pos + written(e, level).len())) is None);
        e2
    }
}

/// A prefix operator or a primary expression.
proof fn lemma_unary(cx: Cx, pos: int, e: ExprV) -> (e2: ExprV)
    requires
        writable(e),
        stands(cx, pos, written(e, 0)),
        stops(cx.tok(pos + written(e, 0).len()), 0),
    ensures
        same_expr(e, e2),
        written(e, 0).len() > 0,
        g_unary(cx, pos) == Ok::<(ExprV, int), ErrV>((e2, pos + written(e, 0).len())),
    decreases e, 9nat,
{
    if let ExprV::Unary { op, expr, .. } = e {
        lemma_halves(cx, pos, seq![key(mark(op))], written(*expr, 0));
        assert(cx.tok(pos + 0) == seq![key(mark(op))][0]);
        let x2 = lemma_unary(cx, pos + 1, *expr);
        ExprV::Unary { op, expr: Box::new(x2), span: cx.span(pos) }
    } else {
        lemma_primary(cx, pos, e)
    }
}

/// A literal or a name.
proof fn lemma_literal(cx: Cx, pos: int, e: ExprV) -> (e2: ExprV)
    requires
        writable(e),
        e is IntLit || e is FloatLit || e is StrLit || e is BoolLit || e is Ident || e is Field,
        stands(cx, pos, written(e, 0)),
        stops(cx.tok(pos + written(e, 0).len()), 0),
    ensures
        same_expr(e, e2),
        written(e, 0).len() > 0,
        prefix(cx.tok(pos)) is None,
        g_primary(cx, pos) == Ok::<(ExprV, int), ErrV>((e2, pos + written(e, 0).len())),
    decreases e, 7nat,
{
    let row = written(e, 0);
    match e {
        ExprV::Ident { .. } | ExprV::Field { .. } => {
            lemma_members(e, cx.span(pos));
            lemma_name(cx, pos, members(e));
            field_chain(members(e), cx.span(pos))
        },
        _ => {
            assert(cx.tok(pos + 0) == row[0]);
            match e {
                ExprV::IntLit(n, _) => ExprV::IntLit(n, cx.span(pos)),
                ExprV::FloatLit(t, _) => ExprV::FloatLit(t, cx.span(pos)),
                ExprV::StrLit(t, _) => ExprV::StrLit(t, cx.span(pos)),
                ExprV::BoolLit(b, _) => ExprV::BoolLit(b, cx.span(pos)),
                _ => e,
            }
        },
    }
}

/// An operator in brackets.
#[verifier::rlimit(60)]
proof fn lemma_bracketed(cx: Cx, pos: int, e: ExprV) -> (e2: ExprV)
    requires
        writable(e),
        e is Binary,
        stands(cx, pos, written(e, 0)),
        stops(cx.tok(pos + written(e, 0).len()), 0),
    ensures
        same_expr(e, e2),
        written(e, 0).len() > 0,
        prefix(cx.tok(pos)) is None,
        g_primary(cx, pos) == Ok::<(ExprV, int), ErrV>((e2, pos + written(e, 0).len())),
    decreases e, 7nat,
{
    let op = e->Binary_op;
    let open = seq![key(Key::LParen)];
    lemma_halves(cx, pos, open + bare(e), seq![key(Key::RParen)]);
    lemma_halves(cx, pos, open, bare(e));
    assert(cx.tok(pos + 0) == open[0]);
    let q = pos + 1 + bare(e).len();
    let e2 = lemma_sides(cx, pos + 1, e);
    assert forall|k: nat| #[trigger] infix(k, cx.tok(q)) is None by {}
    assert(g_binary(cx, pos + 1, looseness(op)) == Ok::<(ExprV, int), ErrV>((e2, q)));
    lemma_lift(cx, pos + 1, looseness(op), 5);
    assert(g_expr(cx, pos + 1) == Ok::<(ExprV, int), ErrV>((e2, q)));
    e2
}

/// A call.
proof fn lemma_call(cx: Cx, pos: int, e: ExprV) -> (e2: ExprV)
    requires
        writable(e),
        e is Call,
        stands(cx, pos, written(e, 0)),
        stops(cx.tok(pos + written(e, 0).len()), 0),
    ensures
        same_expr(e, e2),
        written(e, 0).len() > 0,
        prefix(cx.tok(pos)) is None,
        g_primary(cx, pos) == Ok::<(ExprV, int), ErrV>((e2, pos + written(e, 0).len())),
    decreases e, 7nat,
{
    let callee = e->callee;
    let args = e->args;
    let open = seq![key(Key::LParen)];
    let name = name_row(name_parts(callee));
    lemma_parts(callee);
    lemma_halves(cx, pos, name + open + items_row(args, 0), seq![key(Key::RParen)]);
    lemma_halves(cx, pos, name + open, items_row(args, 0));
    lemma_halves(cx, pos, name, open);
    lemma_name(cx, pos, name_parts(callee));
    let a2 = lemma_items(cx, pos + name.len() + 1, Key::RParen, args, 0, Seq::empty());
    ExprV::Call { callee, args: a2, span: cx.span(pos) }
}

/// A list.
proof fn lemma_list(cx: Cx, pos: int, e: ExprV) -> (e2: ExprV)
    requires
        writable(e),
        e is ListLit,
        stands(cx, pos, written(e, 0)),
        stops(cx.tok(pos + written(e, 0).len()), 0),
    ensures
        same_expr(e, e2),
        written(e, 0).len() > 0,
        prefix(cx.tok(pos)) is None,
        g_primary(cx, pos) == Ok::<(ExprV, int), ErrV>((e2, pos + written(e, 0).len())),
    decreases e, 7nat,
{
    let x = e->ListLit_0;
    let open = seq![key(Key::LBracket)];
    lemma_halves(cx, pos, open + items_row(x, 0), seq![key(Key::RBracket)]);
    lemma_halves(cx, pos, open, items_row(x, 0));
    assert(cx.tok(pos + 0) == open[0]);
    let a2 = lemma_items(cx, pos + 1, Key::RBracket, x, 0, Seq::empty());
    ExprV::ListLit(a2, cx.span(pos))
}

/// A dictionary.
proof fn lemma_dict(cx: Cx, pos: int, e: ExprV) -> (e2: ExprV)
    requires
        writable(e),
        e is DictLit,
        stands(cx, pos, written(e, 0)),
        stops(cx.tok(pos + written(e, 0).len()), 0),
    ensures
        same_expr(e, e2),
        written(e, 0).len() > 0,
        prefix(cx.tok(pos)) is None,
        g_primary(cx, pos) == Ok::<(ExprV, int), ErrV>((e2, pos + written(e, 0).len())),
    decreases e, 7nat,
{
    let x = e->DictLit_0;
    let open = seq![key(Key::LBrace)];
    lemma_halves(cx, pos, open + entries_row(x, 0), seq![key(Key::RBrace)]);
    lemma_halves(cx, pos, open, entries_row(x, 0));
    assert(cx.tok(pos + 0) == open[0]);
    let a2 = lemma_entries(cx, pos + 1, x, 0, Seq::empty());
    ExprV::DictLit(a2, cx.span(pos))
}

/// A match.
#[verifier::rlimit(60)]
proof fn lemma_match(cx: Cx, pos: int, e: ExprV) -> (e2: ExprV)
    requires
        writable(e),
        e is Match,
        stands(cx, pos, written(e, 0)),
        stops(cx.tok(pos + written(e, 0).len()), 0),
    ensures
        same_expr(e, e2),
        written(e, 0).len() > 0,
        prefix(cx.tok(pos)) is None,
        g_primary(cx, pos) == Ok::<(ExprV, int), ErrV>((e2, pos + written(e, 0).len())),
    decreases e, 7nat,
{
    let value = *e->value;
    let arms = e->arms;
    let open = seq![key(Key::LBrace)];
    let head = seq![key(Key::Match)];
    let v = written(value, 6);
    lemma_halves(cx, pos, head + v + open + arms_row(arms, 0), seq![key(Key::RBrace)]);
    lemma_halves(cx, pos, head + v + open, arms_row(arms, 0));
    lemma_halves(cx, pos, head + v, open);
    lemma_halves(cx, pos, head, v);
    assert(cx.tok(pos + 0) == head[0]);
    let q = pos + 1 + v.len();
    let v2 = lemma_whole(cx, pos + 1, value);
    let a2 = lemma_arms(cx, q + 1, arms, 0, Seq::empty());
    assert(g_match(cx, pos + 1, cx.span(pos)) is Ok);
    ExprV::Match { value: Box::new(v2), arms: a2, span: cx.span(pos) }
}

/// A primary expression.
proof fn lemma_primary(cx: Cx, pos: int, e: ExprV) -> (e2: ExprV)
    requires
        writable(e),
        !(e is Unary),
        stands(cx, pos, written(e, 0)),
        stops(cx.tok(pos + written(e, 0).len()), 0),
    ensures
        same_expr(e, e2),
        written(e, 0).len() > 0,
        prefix(cx.tok(pos)) is None,
        g_primary(cx, pos) == Ok::<(ExprV, int), ErrV>((e2, pos + written(e, 0).len())),
    decreases e, 8nat,
{
    match e {
        ExprV::Binary { .. } => lemma_bracketed(cx, pos, e),
        ExprV::Call { .. } => lemma_call(cx, pos, e),
        ExprV::ListLit(..) => lemma_list(cx, pos, e),
        ExprV::DictLit(..) => lemma_dict(cx, pos, e),
        ExprV::Match { .. } => lemma_match(cx, pos, e),
        _ => lemma_literal(cx, pos, e),
    }
}

/// An expression in front of a token that ends it.
pub proof fn lemma_whole(cx: Cx, pos: int, e: ExprV) -> (e2: ExprV)
    requires
        writable(e),
        stands(cx, pos, written(e, 6)),
        ends(cx.tok(pos + written(e, 6).len())),
    ensures
        same_expr(e, e2),
        written(e, 6).len() > 0,
        g_expr(cx, pos) == Ok::<(ExprV, int), ErrV>((e2, pos + written(e, 6).len())),
    decreases e, 30nat,
{
    lemma_ends(cx.tok(pos + written(e, 6).len()));
    lemma_operand(cx, pos, e, 6)
}

/// Expressions with commas between them, up to a closing bracket.
pub proof fn lemma_items(cx: Cx, pos: int, close: Key, x: Seq<ExprV>, k: int, done: Seq<ExprV>) -> (all: Seq<ExprV>)
    requires
        0 <= k <= x.len(),
        close == Key::RParen || close == Key::RBracket,
        forall|i: int| 0 <= i < x.len() ==> writable(#[trigger] x[i]),
        stands(cx, pos, items_row(x, k)),
        cx.at(pos + items_row(x, k).len(), close),
        same_exprs(x.take(k), done),
        k > 0 ==> k < x.len(),
    ensures
        same_exprs(x, all),
        g_list(cx, pos, close, done) == Ok::<(Seq<ExprV>, int), ErrV>((all, pos + items_row(x, k).len())),
    decreases x, (x.len() - k) as nat,
{
    if k == x.len() {
        assert(x.take(k) =~= x);
        done
    } else {
        let w = written(x[k], 6);
        let more = k + 1 < x.len();
        lemma_halves(cx, pos, w + comma(more), items_row(x, k + 1));
        lemma_halves(cx, pos, w, comma(more));
        let q = pos + w.len();
        if !more {
            assert(items_row(x, k + 1) =~= Seq::empty());
        }
        let e2 = lemma_whole(cx, pos, x[k]);
        if cx.at(pos, close) {
            lemma_no_start(cx, pos, 5);
        }
        assert(same_exprs(x.take(k + 1), done.push(e2))) by {
            assert forall|i: int| 0 <= i < k + 1 implies same_expr(#[trigger] x.take(k + 1)[i], done.push(e2)[i]) by {
                if i < k {
                    assert(same_expr(x.take(k)[i], done[i]));
                }
            }
        }
        if more {
            lemma_items(cx, q + 1, close, x, k + 1, done.push(e2))
        } else {
            assert(x.take(k + 1) =~= x);
            done.push(e2)
        }
    }
}

/// Entries with commas between them, up to the closing brace.
proof fn lemma_entries(
    cx: Cx,
    pos: int,
    x: Seq<(Seq<char>, ExprV)>,
    k: int,
    done: Seq<(Seq<char>, ExprV)>,
) -> (all: Seq<(Seq<char>, ExprV)>)
    requires
        0 <= k <= x.len(),
        forall|i: int| 0 <= i < x.len() ==> writable((#[trigger] x[i]).1),
        stands(cx, pos, entries_row(x, k)),
        cx.at(pos + entries_row(x, k).len(), Key::RBrace),
        same_entries(x.take(k), done),
        k > 0 ==> k < x.len(),
    ensures
        same_entries(x, all),
        g_entries(cx, pos, done) == Ok::<(Seq<(Seq<char>, ExprV)>, int), ErrV>((all, pos + entries_row(x, k).len())),
    decreases x, (x.len() - k) as nat,
{
    if k == x.len() {
        assert(x.take(k) =~= x);
        done
    } else {
        let head = seq![TokV::StrLit(x[k].0), key(Key::Colon)];
        let w = written(x[k].1, 6);
        let more = k + 1 < x.len();
        lemma_halves(cx, pos, head + w + comma(more), entries_row(x, k + 1));
        lemma_halves(cx, pos, head + w, comma(more));
        lemma_halves(cx, pos, head, w);
        assert(cx.tok(pos + 0) == head[0]);
        assert(cx.tok(pos + 1) == head[1]);
        let q = pos + 2 + w.len();
        if !more {
            assert(entries_row(x, k + 1) =~= Seq::empty());
        }
        let e2 = lemma_whole(cx, pos + 2, x[k].1);
        let next = done.push((x[k].0, e2));
        assert(same_entries(x.take(k + 1), next)) by {
            assert forall|i: int| 0 <= i < k + 1 implies (#[trigger] x.take(k + 1)[i]).0 == next[i].0 && same_expr(
                x.take(k + 1)[i].1,
                next[i].1,
            ) by {
                if i < k {
                    assert(x.take(k)[i].0 == done[i].0);
                }
            }
        }
        if more {
            lemma_entries(cx, q + 1, x, k + 1, next)
        } else {
            assert(x.take(k + 1) =~= x);
            next
        }
    }
}

/// Arms with commas between them, up to the closing brace.
proof fn lemma_arms(
    cx: Cx,
    pos: int,
    x: Seq<(Option<ExprV>, ExprV)>,
    k: int,
    done: Seq<(Option<ExprV>, ExprV)>,
) -> (all: Seq<(Option<ExprV>, ExprV)>)
    requires
        0 <= k <= x.len(),
        forall|i: int|
            0 <= i < x.len() ==> writable((#[trigger] x[i]).1) && writable_pattern(x[i].0, i == x.len() - 1),
        stands(cx, pos, arms_row(x, k)),
        cx.at(pos + arms_row(x, k).len(), Key::RBrace),
        same_arms(x.take(k), done),
        k > 0 ==> k < x.len(),
    ensures
        same_arms(x, all),
        g_arms(cx, pos, done, false) == Ok::<(Seq<(Option<ExprV>, ExprV)>, int), ErrV>(
            (all, pos + arms_row(x, k).len()),
        ),
    decreases x, (x.len() - k) as nat,
{
    if k == x.len() {
        assert(x.take(k) =~= x);
        done
    } else {
        let head = seq![pattern_tok(x[k].0), key(Key::FatArrow)];
        let w = written(x[k].1, 6);
        let more = k + 1 < x.len();
        lemma_halves(cx, pos, head + w + comma(more), arms_row(x, k + 1));
        lemma_halves(cx, pos, head + w, comma(more));
        lemma_halves(cx, pos, head, w);
        assert(cx.tok(pos + 0) == head[0]);
        assert(cx.tok(pos + 1) == head[1]);
        let q = pos + 2 + w.len();
        if !more {
            assert(arms_row(x, k + 1) =~= Seq::empty());
        }
        assert(writable_pattern(x[k].0, k == x.len() - 1));
        let e2 = lemma_whole(cx, pos + 2, x[k].1);
        let pat = g_pattern(cx, pos, false)->Ok_0;
        assert(g_pattern(cx, pos, false) is Ok);
        assert(same_pattern(x[k].0, pat));
        let next = done.push((pat, e2));
        assert(same_arms(x.take(k + 1), next)) by {
            assert forall|i: int| 0 <= i < k + 1 implies same_pattern((#[trigger] x.take(k + 1)[i]).0, next[i].0)
                && same_expr(x.take(k + 1)[i].1, next[i].1) by {
                if i < k {
                    assert(same_pattern(x.take(k)[i].0, done[i].0));
                }
            }
        }
        if more {
            lemma_arms(cx, q + 1, x, k + 1, next)
        } else {
            assert(x.take(k + 1) =~= x);
            next
        }
    }
}

/// An expression that is written down reads back: in a text `r = …;` its tokens, with brackets only
/// where an operator binds looser than its place allows, are that expression, but for the places
/// of its parts. The left side of an operator may bind as tightly as the operator, the right
/// side must bind tighter.
pub proof fn law_expression_reads_back(file: Seq<char>, src: Seq<char>, r: Seq<char>, e: ExprV)
    requires
        writable(e),
        reads(file, src, assigned(r, written(e, 6))),
    ensures
        assigns(file, src, r, e),
{
    let cx = text(file, src);
    lemma_assigned(file, src, r, written(e, 6));
    let e2 = lemma_whole(cx, 2, e);
    lemma_assigns(file, src, r, written(e, 6), e);
}

/// Whether an expression is a single name or literal.
pub open spec fn atom(e: ExprV) -> bool {
    e is IntLit || e is FloatLit || e is StrLit || e is BoolLit || e is Ident
}

/// Two operands with an operator between them.
pub open spec fn joined_by_op(op: BinOp, a: ExprV, b: ExprV, at: Span) -> ExprV {
    ExprV::Binary { op, lhs: Box::new(a), rhs: Box::new(b), span: at }
}

/// Of two operators without brackets the tighter one is done first, and of two that bind alike
/// the first: `a || b && c` is `a || (b && c)`, `a && b || c` is `(a && b) || c`, `a - b - c` is
/// `(a - b) - c`, and likewise for every two operators and all names and literals.
pub proof fn law_precedence(
    file: Seq<char>,
    src: Seq<char>,
    r: Seq<char>,
    a: ExprV,
    f: BinOp,
    b: ExprV,
    g: BinOp,
    d: ExprV,
    at: Span,
)
    requires
        atom(a),
        atom(b),
        atom(d),
        reads(file, src, assigned(r, bare(a) + seq![key(sign(f))] + bare(b) + seq![key(sign(g))] + bare(d))),
    ensures
        looseness(f) <= looseness(g) ==> assigns(
            file,
            src,
            r,
            joined_by_op(g, joined_by_op(f, a, b, at), d, at),
        ),
        looseness(f) > looseness(g) ==> assigns(
            file,
            src,
            r,
            joined_by_op(f, a, joined_by_op(g, b, d, at), at),
        ),
{
    let row = bare(a) + seq![key(sign(f))] + bare(b) + seq![key(sign(g))] + bare(d);
    if looseness(f) <= looseness(g) {
        let left = joined_by_op(f, a, b, at);
        let e = joined_by_op(g, left, d, at);
        lemma_joined(f, a, b, at);
        lemma_joined(g, left, d, at);
        assert(written(e, 6) =~= row);
        law_expression_reads_back(file, src, r, e);
    } else {
        let right = joined_by_op(g, b, d, at);
        let e = joined_by_op(f, a, right, at);
        lemma_joined(g, b, d, at);
        lemma_joined(f, a, right, at);
        assert(written(e, 6) =~= row);
        law_expression_reads_back(file, src, r, e);
    }
}

/// The tokens of two operands that need no brackets.
proof fn lemma_joined(op: BinOp, a: ExprV, b: ExprV, at: Span)
    requires
        loose(a) <= looseness(op) + 1,
        loose(b) <= looseness(op),
        writable(a),
        writable(b),
    ensures
        bare(joined_by_op(op, a, b, at)) == bare(a) + seq![key(sign(op))] + bare(b),
        writable(joined_by_op(op, a, b, at)),
        written(joined_by_op(op, a, b, at), 6) == bare(joined_by_op(op, a, b, at)),
{
}

proof fn lemma_placed(s: Seq<char>, i: int, ts: Seq<TokV>)
    ensures
        placed(s, i, ts).len() == ts.len() + 1,
        forall|k: int| 0 <= k < ts.len() ==> (#[trigger] placed(s, i, ts)[k]).0 == ts[k],
    decreases ts.len(),
{
    if ts.len() > 0 {
        let e = i + spelling(ts[0]).len();
        let rest = placed(s, e + 1, ts.skip(1));
        lemma_placed(s, e + 1, ts.skip(1));
        assert forall|k: int| 0 <= k < ts.len() implies (#[trigger] placed(s, i, ts)[k]).0 == ts[k] by {
            if k > 0 {
                assert(placed(s, i, ts)[k] == rest[k - 1]);
                assert(ts.skip(1)[k - 1] == ts[k]);
            }
        }
    }
}

/// Whether all tokens of a row can be spelled.
pub open spec fn spellable_row(ts: Seq<TokV>) -> bool {
    forall|k: int| 0 <= k < ts.len() ==> spellable(#[trigger] ts[k])
}

/// The text that spells a row of tokens is read as that row.
pub proof fn law_spelled_rows_are_read(file: Seq<char>, ts: Seq<TokV>)
    requires
        spellable_row(ts),
    ensures
        reads(file, spelled(ts), ts),
{
    law_tokens_read_back(ts);
    lemma_placed(spelled(ts), 0, ts);
    let cx = text(file, spelled(ts));
    assert forall|i: int| 0 <= i < ts.len() implies cx.tok(i) == #[trigger] ts[i] by {
        assert(placed(spelled(ts), 0, ts)[i].0 == ts[i]);
    }
}

/// A text `r = …;` in which an expression is spelled is a program: the assignment of that expression.
pub proof fn law_expression_text_reads_back(file: Seq<char>, r: Seq<char>, e: ExprV)
    requires
        writable(e),
        spellable(TokV::Ident(r)),
        spellable_row(written(e, 6)),
    ensures
        assigns(file, spelled(assigned(r, written(e, 6))), r, e),
{
    let row = assigned(r, written(e, 6));
    assert forall|k: int| 0 <= k < row.len() implies spellable(#[trigger] row[k]) by {
        if 2 <= k < row.len() - 1 {
            assert(row[k] == written(e, 6)[k - 2]);
        }
    }
    law_spelled_rows_are_read(file, row);
    law_expression_reads_back(file, spelled(row), r, e);
}

} // verus!
