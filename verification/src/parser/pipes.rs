//! Pipes read as calls: `x |> f(a)` is `f(x, a)`.

use vstd::prelude::*;

use super::grammar::{
    g_binary, g_binary_tail, g_dotted, g_expr, g_list, g_operand, g_pipes, g_primary, g_program, g_stmt, infix, joined,
    member_of, prefix, program_of, Cx,
};
use super::moved::{
    agree, ends_expr, ends_operand, fit, follow, lemma_binary, lemma_dotted, lemma_expr, lemma_list, lemma_pipes, moved, same_expr,
    same_exprs, same_pattern,
};
use crate::ast::{ExprV, StmtV};
use crate::error::ErrV;
use crate::lexer::{lemma_tokens_end, lemma_tokens_short, tokenized, Key, Span, TokV};

verus! {

/// The tokens of a text that has some.
pub open spec fn text(file: Seq<char>, src: Seq<char>) -> Cx {
    Cx { file, src, toks: tokenized(file, src)->Ok_0 }
}

/// Whether a text is a row of tokens, and then ends.
pub open spec fn reads(file: Seq<char>, src: Seq<char>, row: Seq<TokV>) -> bool {
    &&& tokenized(file, src) is Ok
    &&& text(file, src).toks.len() == row.len() + 1
    &&& forall|i: int| 0 <= i < row.len() ==> text(file, src).tok(i) == #[trigger] row[i]
}

/// Whether a text is an expression.
pub open spec fn reads_expr(file: Seq<char>, src: Seq<char>, row: Seq<TokV>, e: ExprV) -> bool {
    reads(file, src, row) && g_expr(text(file, src), 0) == Ok::<(ExprV, int), ErrV>((e, row.len() as int))
}

/// Whether a text is a row of arguments and the bracket behind it.
pub open spec fn reads_args(file: Seq<char>, src: Seq<char>, row: Seq<TokV>, args: Seq<ExprV>) -> bool {
    &&& reads(file, src, row.push(key(Key::RParen)))
    &&& g_list(text(file, src), 0, Key::RParen, Seq::empty()) == Ok::<(Seq<ExprV>, int), ErrV>(
        (args, row.len() as int),
    )
}

/// The token of a word or a sign.
pub open spec fn key(k: Key) -> TokV {
    TokV::Key(k)
}

/// Whether a row of tokens is a name with its members: `a.b.c`.
pub open spec fn names(row: Seq<TokV>, parts: Seq<Seq<char>>) -> bool {
    &&& parts.len() > 0
    &&& row.len() == 2 * parts.len() - 1
    &&& row[0] == TokV::Ident(parts[0])
    &&& forall|i: int|
        1 <= i < parts.len() ==> row[2 * i - 1] == key(Key::Dot) && member_of(row[2 * i]) == Some(#[trigger] parts[i])
}

/// Whether a row of tokens stands at a position, with more behind it.
pub open spec fn stands(cx: Cx, pos: int, row: Seq<TokV>) -> bool {
    &&& 0 <= pos
    &&& pos + row.len() < cx.toks.len()
    &&& forall|i: int| 0 <= i < row.len() ==> cx.tok(pos + i) == #[trigger] row[i]
}

/// The text `r = …;` with an expression for the dots.
pub open spec fn assigned(r: Seq<char>, row: Seq<TokV>) -> Seq<TokV> {
    seq![TokV::Ident(r), key(Key::Assign)] + row + seq![key(Key::Semi)]
}

/// Whether a text is the one assignment to `r` of an expression like `e`.
pub open spec fn assigns(file: Seq<char>, src: Seq<char>, r: Seq<char>, e: ExprV) -> bool {
    match program_of(file, src) {
        Ok(p) => p.len() == 1 && match p[0] {
            StmtV::Assign { name, value, .. } => name == r && same_expr(e, value),
            _ => false,
        },
        Err(_) => false,
    }
}

/// The tokens of a text end, and the code in them is shorter than the text.
pub proof fn lemma_text(file: Seq<char>, src: Seq<char>)
    requires
        tokenized(file, src) is Ok,
    ensures
        fit(text(file, src), text(file, src)),
{
    lemma_tokens_end(src, 0);
    lemma_tokens_short(src, 0);
}

/// The tokens of an assigned expression stand behind the sign.
pub proof fn lemma_assigned(file: Seq<char>, src: Seq<char>, r: Seq<char>, row: Seq<TokV>)
    requires
        reads(file, src, assigned(r, row)),
    ensures
        stands(text(file, src), 2, row),
        text(file, src).at(2 + row.len() as int, Key::Semi),
        text(file, src).toks.len() == row.len() + 4,
{
    let cx = text(file, src);
    let all = assigned(r, row);
    assert(all[2 + row.len() as int] == key(Key::Semi));
    assert forall|i: int| 0 <= i < row.len() implies cx.tok(2 + i) == #[trigger] row[i] by {
        assert(all[2 + i] == row[i]);
    }
}

/// The program of an assigned expression.
pub proof fn lemma_assigns(file: Seq<char>, src: Seq<char>, r: Seq<char>, row: Seq<TokV>, e: ExprV)
    requires
        reads(file, src, assigned(r, row)),
        ({
            let got = g_expr(text(file, src), 2);
            got is Ok && got->Ok_0.1 == 2 + row.len() && same_expr(e, got->Ok_0.0)
        }),
    ensures
        assigns(file, src, r, e),
{
    let cx = text(file, src);
    let all = assigned(r, row);
    lemma_text(file, src);
    lemma_assigned(file, src, r, row);
    assert(all[0] == TokV::Ident(r));
    assert(all[1] == key(Key::Assign));
    assert(cx.tok(0) == TokV::Ident(r));
    assert(cx.tok(1) == key(Key::Assign));
    let s = g_stmt(cx, 0)->Ok_0;
    assert(s.1 == row.len() + 3);
    assert(g_program(cx, row.len() as int + 3, seq![s.0]) == Ok::<Seq<StmtV>, ErrV>(seq![s.0]));
    assert(Seq::<StmtV>::empty().push(s.0) =~= seq![s.0]);
}

/// A name with its members is read whole.
pub proof fn lemma_names(cx: Cx, pos: int, row: Seq<TokV>, parts: Seq<Seq<char>>, k: int)
    requires
        names(row, parts),
        stands(cx, pos, row),
        !cx.at(pos + row.len(), Key::Dot),
        1 <= k <= parts.len(),
    ensures
        cx.tok(pos) == TokV::Ident(parts[0]),
        g_dotted(cx, pos + 2 * k - 1, parts.take(k)) == Ok::<(Seq<Seq<char>>, int), ErrV>((parts, pos + row.len())),
    decreases parts.len() - k,
{
    assert(cx.tok(pos + 0) == row[0]);
    if k == parts.len() {
        assert(parts.take(k) =~= parts);
    } else {
        lemma_names(cx, pos, row, parts, k + 1);
        assert(member_of(row[2 * k]) == Some(parts[k]));
        assert(cx.tok(pos + (2 * k - 1)) == row[2 * k - 1]);
        assert(cx.tok(pos + (2 * k)) == row[2 * k]);
        assert(parts.take(k).push(parts[k]) =~= parts.take(k + 1));
    }
}

/// The rows of a text stand where they stand in another.
proof fn lemma_agree(file: Seq<char>, src: Seq<char>, row: Seq<TokV>, cx: Cx, pos: int, n: int)
    requires
        reads(file, src, row),
        0 <= n <= row.len(),
        stands(cx, pos, row.take(n)),
    ensures
        agree(text(file, src), cx, 0, n, pos),
{
    assert forall|i: int| 0 <= i < n implies #[trigger] text(file, src).tok(i) == cx.tok(i + pos) by {
        assert(row.take(n)[i] == row[i]);
        assert(cx.tok(pos + i) == row.take(n)[i]);
    }
}

/// No expression starts with a closing bracket.
proof fn lemma_starts(cx: Cx, pos: int, level: nat)
    requires
        cx.at(pos, Key::RParen),
    ensures
        g_binary(cx, pos, level) is Err,
        g_operand(cx, pos, level) is Err,
    decreases level,
{
    assert(g_primary(cx, pos) is Err);
    if level > 0 {
        lemma_starts(cx, pos, (level - 1) as nat);
    }
}

/// A primary expression with no operator behind it is an operand of every level.
proof fn lemma_up(cx: Cx, pos: int, level: nat)
    requires
        prefix(cx.tok(pos)) is None,
        g_primary(cx, pos) is Ok,
        cx.on(pos, g_primary(cx, pos)->Ok_0.1),
        ends_operand(cx.tok(g_primary(cx, pos)->Ok_0.1)),
    ensures
        g_binary(cx, pos, level) == g_primary(cx, pos),
    decreases level,
{
    let (e, p) = g_primary(cx, pos)->Ok_0;
    if level > 0 {
        lemma_up(cx, pos, (level - 1) as nat);
    }
    assert(g_operand(cx, pos, level) == g_primary(cx, pos));
    assert(infix(level, cx.tok(p)) is None);
    assert(g_binary_tail(cx, p, level, e) == Ok::<(ExprV, int), ErrV>((e, p)));
}

/// The items that stand before a list go before those that it holds.
proof fn lemma_before(cx: Cx, pos: int, close: Key, items: Seq<ExprV>)
    requires
        g_list(cx, pos, close, Seq::empty()) is Ok,
    ensures
        g_list(cx, pos, close, items) == Ok::<(Seq<ExprV>, int), ErrV>(
            (items + g_list(cx, pos, close, Seq::empty())->Ok_0.0, g_list(cx, pos, close, Seq::empty())->Ok_0.1),
        ),
    decreases cx.toks.len() - pos,
{
    let none = Seq::<ExprV>::empty();
    if cx.at(pos, close) {
        assert(items + none =~= items);
    } else {
        let (e, p) = g_expr(cx, pos)->Ok_0;
        assert(items + none.push(e) =~= items.push(e));
        if cx.at(p, Key::Comma) {
            lemma_split(cx, cx.next(p), close, none.push(e));
            lemma_before(cx, cx.next(p), close, none.push(e));
            lemma_before(cx, cx.next(p), close, items.push(e));
            let rest = g_list(cx, cx.next(p), close, none)->Ok_0.0;
            assert(items + (none.push(e) + rest) =~= items.push(e) + rest);
        }
    }
}

/// Whether a list is read does not depend on what stands before it.
proof fn lemma_split(cx: Cx, pos: int, close: Key, items: Seq<ExprV>)
    requires
        g_list(cx, pos, close, items) is Ok,
    ensures
        g_list(cx, pos, close, Seq::empty()) is Ok,
    decreases cx.toks.len() - pos,
{
    let none = Seq::<ExprV>::empty();
    if !cx.at(pos, close) {
        let (e, p) = g_expr(cx, pos)->Ok_0;
        if cx.at(p, Key::Comma) {
            lemma_split(cx, cx.next(p), close, items.push(e));
            lemma_before(cx, cx.next(p), close, none.push(e));
        }
    }
}

/// Two expressions like a third are alike.
pub proof fn lemma_alike(a: ExprV, b: ExprV, c: ExprV)
    requires
        same_expr(a, b),
        same_expr(a, c),
    ensures
        same_expr(b, c),
    decreases a,
{
    match (a, b, c) {
        (ExprV::ListLit(x, _), ExprV::ListLit(y, _), ExprV::ListLit(z, _)) => {
            assert forall|i: int| 0 <= i < y.len() implies same_expr(#[trigger] y[i], z[i]) by {
                assert(same_expr(x[i], y[i]) && same_expr(x[i], z[i]));
                lemma_alike(x[i], y[i], z[i]);
            }
        },
        (ExprV::DictLit(x, _), ExprV::DictLit(y, _), ExprV::DictLit(z, _)) => {
            assert forall|i: int| 0 <= i < y.len() implies (#[trigger] y[i]).0 == z[i].0 && same_expr(y[i].1, z[i].1) by {
                assert(x[i].0 == y[i].0);
                lemma_alike(x[i].1, y[i].1, z[i].1);
            }
        },
        (ExprV::Field { obj: x, .. }, ExprV::Field { obj: y, .. }, ExprV::Field { obj: z, .. }) => {
            lemma_alike(*x, *y, *z);
        },
        (ExprV::Unary { expr: x, .. }, ExprV::Unary { expr: y, .. }, ExprV::Unary { expr: z, .. }) => {
            lemma_alike(*x, *y, *z);
        },
        (
            ExprV::Binary { lhs: x, rhs: u, .. },
            ExprV::Binary { lhs: y, rhs: v, .. },
            ExprV::Binary { lhs: z, rhs: w, .. },
        ) => {
            lemma_alike(*x, *y, *z);
            lemma_alike(*u, *v, *w);
        },
        (ExprV::Call { args: x, .. }, ExprV::Call { args: y, .. }, ExprV::Call { args: z, .. }) => {
            assert forall|i: int| 0 <= i < y.len() implies same_expr(#[trigger] y[i], z[i]) by {
                assert(same_expr(x[i], y[i]) && same_expr(x[i], z[i]));
                lemma_alike(x[i], y[i], z[i]);
            }
        },
        (
            ExprV::Match { value: u, arms: x, .. },
            ExprV::Match { value: v, arms: y, .. },
            ExprV::Match { value: w, arms: z, .. },
        ) => {
            lemma_alike(*u, *v, *w);
            assert forall|i: int| 0 <= i < y.len() implies same_pattern((#[trigger] y[i]).0, z[i].0) && same_expr(
                y[i].1,
                z[i].1,
            ) by {
                assert(same_pattern(x[i].0, y[i].0));
                lemma_alike(x[i].1, y[i].1, z[i].1);
            }
        },
        _ => {},
    }
}

/// The pipes of a text, in front of one more.
proof fn lemma_on(cx: Cx, cx2: Cx, pos: int, lhs: ExprV, lhs2: ExprV, sh: int) -> (e2: ExprV)
    requires
        fit(cx, cx2),
        0 <= pos < cx.toks.len(),
        g_pipes(cx, pos, lhs) is Ok,
        same_expr(lhs, lhs2),
        agree(cx, cx2, pos, g_pipes(cx, pos, lhs)->Ok_0.1, sh),
        cx2.at(g_pipes(cx, pos, lhs)->Ok_0.1 + sh, Key::Pipe),
    ensures
        same_expr(g_pipes(cx, pos, lhs)->Ok_0.0, e2),
        g_pipes(cx2, pos + sh, lhs2) == g_pipes(cx2, g_pipes(cx, pos, lhs)->Ok_0.1 + sh, e2),
    decreases cx.toks.len() - pos,
{
    let p = g_pipes(cx, pos, lhs)->Ok_0.1;
    if !cx.at(pos, Key::Pipe) {
        lhs2
    } else {
        let p0 = cx.next(pos);
        let first = cx.tok(p0)->Ident_0;
        let p1 = cx.next(p0);
        lemma_dotted(cx, cx2, p1, seq![first], sh);
        let (parts, p2) = g_dotted(cx, p1, seq![first])->Ok_0;
        let callee = joined(parts);
        if cx.at(p2, Key::LParen) {
            lemma_list(cx, cx2, cx.next(p2), Key::RParen, Seq::empty(), Seq::empty(), sh);
            let (args, p3) = g_list(cx, cx.next(p2), Key::RParen, Seq::empty())->Ok_0;
            let p4 = cx.next(p3);
            let c = ExprV::Call { callee, args: seq![lhs] + args, span: cx.span(pos) };
            lemma_pipes(cx, cx2, p4, c, c, sh);
            assert(cx.tok(pos) == cx2.tok(pos + sh));
            assert(cx.tok(p0) == cx2.tok(p0 + sh));
            assert(cx.tok(p2) == cx2.tok(p2 + sh));
            assert(cx.tok(p3) == cx2.tok(p3 + sh));
            let args2 = g_list(cx2, cx.next(p2) + sh, Key::RParen, Seq::empty())->Ok_0.0;
            let c2 = ExprV::Call { callee, args: seq![lhs2] + args2, span: cx2.span(pos + sh) };
            assert(same_expr(c, c2));
            lemma_on(cx, cx2, p4, c, c2, sh)
        } else {
            let c = ExprV::Call { callee, args: seq![lhs], span: cx.span(pos) };
            lemma_pipes(cx, cx2, p2, c, c, sh);
            assert(cx.tok(pos) == cx2.tok(pos + sh));
            assert(cx.tok(p0) == cx2.tok(p0 + sh));
            if p2 < p {
                assert(cx.tok(p2) == cx2.tok(p2 + sh));
            }
            let c2 = ExprV::Call { callee, args: seq![lhs2], span: cx2.span(pos + sh) };
            assert(same_expr(c, c2));
            lemma_on(cx, cx2, p2, c, c2, sh)
        }
    }
}

/// An expression in front of a pipe is what it is on its own.
proof fn lemma_in_front(
    file: Seq<char>,
    x: Seq<char>,
    row: Seq<TokV>,
    e: ExprV,
    cx: Cx,
    pos: int,
) -> (e2: ExprV)
    requires
        reads_expr(file, x, row, e),
        cx.file == file,
        fit(cx, cx),
        stands(cx, pos, row),
        cx.at(pos + row.len(), Key::Pipe),
    ensures
        same_expr(e, e2),
        g_expr(cx, pos) == g_pipes(cx, pos + row.len(), e2),
{
    let t = text(file, x);
    lemma_text(file, x);
    assert(row.take(row.len() as int) =~= row);
    lemma_agree(file, x, row, cx, pos, row.len() as int);
    lemma_binary(t, cx, 0, 5, pos);
    let (b, q) = g_binary(t, 0, 5)->Ok_0;
    lemma_pipes(t, cx, q, b, b, pos);
    if q < row.len() {
        assert(t.tok(q) == cx.tok(q + pos));
    }
    let b2 = g_binary(cx, 0 + pos, 5)->Ok_0.0;
    assert(moved(g_binary(t, 0, 5), g_binary(cx, 0 + pos, 5), pos));
    lemma_on(t, cx, q, b, b2, pos)
}

/// An expression in front of a bracket, a comma or a semicolon is what it is on its own.
proof fn lemma_alone(file: Seq<char>, x: Seq<char>, row: Seq<TokV>, e: ExprV, cx: Cx, pos: int)
    requires
        reads_expr(file, x, row, e),
        cx.file == file,
        fit(cx, cx),
        stands(cx, pos, row),
        ends_expr(cx.tok(pos + row.len())),
    ensures
        !cx.at(pos, Key::RParen),
        g_expr(cx, pos) is Ok,
        g_expr(cx, pos)->Ok_0.1 == pos + row.len(),
        same_expr(e, g_expr(cx, pos)->Ok_0.0),
{
    let t = text(file, x);
    lemma_text(file, x);
    assert(row.take(row.len() as int) =~= row);
    lemma_agree(file, x, row, cx, pos, row.len() as int);
    lemma_expr(t, cx, 0, pos);
    assert(moved(g_expr(t, 0), g_expr(cx, 0 + pos), pos));
    if cx.at(pos, Key::RParen) {
        lemma_starts(cx, pos, 5);
    }
}

/// Arguments are what they are on their own.
proof fn lemma_args(file: Seq<char>, a: Seq<char>, row: Seq<TokV>, args: Seq<ExprV>, cx: Cx, pos: int)
    requires
        reads_args(file, a, row, args),
        cx.file == file,
        fit(cx, cx),
        stands(cx, pos, row),
        cx.at(pos + row.len(), Key::RParen),
    ensures
        g_list(cx, pos, Key::RParen, Seq::empty()) is Ok,
        g_list(cx, pos, Key::RParen, Seq::empty())->Ok_0.1 == pos + row.len(),
        same_exprs(args, g_list(cx, pos, Key::RParen, Seq::empty())->Ok_0.0),
{
    let t = text(file, a);
    let all = row.push(key(Key::RParen));
    lemma_text(file, a);
    assert(all.take(row.len() as int) =~= row);
    lemma_agree(file, a, all, cx, pos, row.len() as int);
    assert(all[row.len() as int] == key(Key::RParen));
    assert(follow(t, cx, row.len() as int, pos));
    lemma_list(t, cx, 0, Key::RParen, Seq::empty(), Seq::empty(), pos);
}

/// A pipe into a name is a call with one argument.
proof fn lemma_into_name(cx: Cx, pos: int, lhs: ExprV, row: Seq<TokV>, parts: Seq<Seq<char>>)
    requires
        0 <= pos,
        cx.at(pos, Key::Pipe),
        names(row, parts),
        stands(cx, pos + 1, row),
        !cx.at(pos + 1 + row.len(), Key::Dot),
        !cx.at(pos + 1 + row.len(), Key::LParen),
    ensures
        g_pipes(cx, pos, lhs) == g_pipes(
            cx,
            pos + 1 + row.len(),
            ExprV::Call { callee: joined(parts), args: seq![lhs], span: cx.span(pos) },
        ),
{
    lemma_names(cx, pos + 1, row, parts, 1);
    assert(parts.take(1) =~= seq![parts[0]]);
}

/// A pipe into a call puts its argument before the others.
proof fn lemma_into_call(cx: Cx, pos: int, lhs: ExprV, row: Seq<TokV>, parts: Seq<Seq<char>>)
    requires
        0 <= pos,
        cx.at(pos, Key::Pipe),
        names(row, parts),
        stands(cx, pos + 1, row),
        cx.at(pos + 1 + row.len(), Key::LParen),
        g_list(cx, pos + 2 + row.len(), Key::RParen, Seq::empty()) is Ok,
        ({
            let r = g_list(cx, pos + 2 + row.len(), Key::RParen, Seq::empty())->Ok_0.1;
            pos + 2 + row.len() <= r < cx.toks.len() - 1 && cx.at(r, Key::RParen)
        }),
    ensures
        ({
            let (args, r) = g_list(cx, pos + 2 + row.len(), Key::RParen, Seq::empty())->Ok_0;
            g_pipes(cx, pos, lhs) == g_pipes(
                cx,
                r + 1,
                ExprV::Call { callee: joined(parts), args: seq![lhs] + args, span: cx.span(pos) },
            )
        }),
{
    lemma_names(cx, pos + 1, row, parts, 1);
    assert(parts.take(1) =~= seq![parts[0]]);
}

/// A name and a list in brackets are a call.
proof fn lemma_call(cx: Cx, pos: int, row: Seq<TokV>, parts: Seq<Seq<char>>)
    requires
        names(row, parts),
        stands(cx, pos, row),
        cx.at(pos + row.len(), Key::LParen),
        g_list(cx, pos + row.len() + 1, Key::RParen, Seq::empty()) is Ok,
        ({
            let r = g_list(cx, pos + row.len() + 1, Key::RParen, Seq::empty())->Ok_0.1;
            pos + row.len() + 1 <= r < cx.toks.len() - 1 && cx.at(r, Key::RParen) && ends_expr(cx.tok(r + 1))
        }),
    ensures
        !cx.at(pos, Key::RParen),
        ({
            let (args, r) = g_list(cx, pos + row.len() + 1, Key::RParen, Seq::empty())->Ok_0;
            g_expr(cx, pos) == Ok::<(ExprV, int), ErrV>(
                (ExprV::Call { callee: joined(parts), args, span: cx.span(pos) }, r + 1),
            )
        }),
{
    lemma_names(cx, pos, row, parts, 1);
    assert(parts.take(1) =~= seq![parts[0]]);
    lemma_up(cx, pos, 5);
}

/// The halves of a row stand side by side.
pub proof fn lemma_halves(cx: Cx, pos: int, a: Seq<TokV>, b: Seq<TokV>)
    requires
        stands(cx, pos, a + b),
    ensures
        stands(cx, pos, a),
        stands(cx, pos + a.len(), b),
        b.len() == 1 ==> cx.tok(pos + a.len()) == b[0],
{
    assert forall|i: int| 0 <= i < a.len() implies cx.tok(pos + i) == #[trigger] a[i] by {
        assert((a + b)[i] == a[i]);
    }
    assert forall|i: int| 0 <= i < b.len() implies cx.tok(pos + a.len() + i) == #[trigger] b[i] by {
        assert((a + b)[a.len() + i] == b[i]);
        assert(cx.tok(pos + (a.len() + i)) == (a + b)[a.len() + i]);
    }
    if b.len() == 1 {
        assert(cx.tok(pos + a.len() + 0) == b[0]);
    }
}

/// The tokens of `x |> f`.
pub open spec fn piped(x: Seq<TokV>, f: Seq<TokV>) -> Seq<TokV> {
    x + seq![key(Key::Pipe)] + f
}

/// The tokens of `f(x)`.
pub open spec fn called(f: Seq<TokV>, x: Seq<TokV>) -> Seq<TokV> {
    f + seq![key(Key::LParen)] + x + seq![key(Key::RParen)]
}

/// The expression that a text assigns.
pub open spec fn value_of(file: Seq<char>, src: Seq<char>) -> ExprV {
    program_of(file, src)->Ok_0[0]->Assign_value
}

/// The parts of `x |> f` stand side by side.
proof fn lemma_piped(cx: Cx, pos: int, x: Seq<TokV>, f: Seq<TokV>)
    requires
        stands(cx, pos, piped(x, f)),
    ensures
        stands(cx, pos, x),
        cx.at(pos + x.len(), Key::Pipe),
        stands(cx, pos + x.len() + 1, f),
        piped(x, f).len() == x.len() + 1 + f.len(),
{
    lemma_halves(cx, pos, x + seq![key(Key::Pipe)], f);
    lemma_halves(cx, pos, x, seq![key(Key::Pipe)]);
}

/// The parts of `f(x)` stand side by side.
proof fn lemma_called(cx: Cx, pos: int, f: Seq<TokV>, x: Seq<TokV>)
    requires
        stands(cx, pos, called(f, x)),
    ensures
        stands(cx, pos, f),
        cx.at(pos + f.len(), Key::LParen),
        stands(cx, pos + f.len() + 1, x),
        cx.at(pos + f.len() + 1 + x.len(), Key::RParen),
        called(f, x).len() == f.len() + x.len() + 2,
{
    lemma_halves(cx, pos, f + seq![key(Key::LParen)] + x, seq![key(Key::RParen)]);
    lemma_halves(cx, pos, f + seq![key(Key::LParen)], x);
    lemma_halves(cx, pos, f, seq![key(Key::LParen)]);
}

/// `f(x)`, in front of a bracket, a comma or a semicolon.
proof fn lemma_called_at(
    file: Seq<char>,
    x: Seq<char>,
    row: Seq<TokV>,
    e: ExprV,
    f: Seq<TokV>,
    parts: Seq<Seq<char>>,
    cx: Cx,
    pos: int,
    at: Span,
)
    requires
        reads_expr(file, x, row, e),
        names(f, parts),
        cx.file == file,
        fit(cx, cx),
        stands(cx, pos, called(f, row)),
        ends_expr(cx.tok(pos + called(f, row).len())),
    ensures
        !cx.at(pos, Key::RParen),
        g_expr(cx, pos) is Ok,
        g_expr(cx, pos)->Ok_0.1 == pos + called(f, row).len(),
        same_expr(ExprV::Call { callee: joined(parts), args: seq![e], span: at }, g_expr(cx, pos)->Ok_0.0),
{
    lemma_called(cx, pos, f, row);
    let q = pos + f.len() + 1;
    lemma_alone(file, x, row, e, cx, q);
    let e2 = g_expr(cx, q)->Ok_0.0;
    assert(Seq::<ExprV>::empty().push(e2) =~= seq![e2]);
    assert(g_list(cx, q, Key::RParen, Seq::empty()) == Ok::<(Seq<ExprV>, int), ErrV>((seq![e2], q + row.len())));
    lemma_call(cx, pos, f, parts);
}

/// `r = x |> f;`.
proof fn lemma_piped_text(
    file: Seq<char>,
    src: Seq<char>,
    r: Seq<char>,
    x: Seq<char>,
    row: Seq<TokV>,
    e: ExprV,
    f: Seq<TokV>,
    parts: Seq<Seq<char>>,
    at: Span,
)
    requires
        reads_expr(file, x, row, e),
        names(f, parts),
        reads(file, src, assigned(r, piped(row, f))),
    ensures
        assigns(file, src, r, ExprV::Call { callee: joined(parts), args: seq![e], span: at }),
{
    let cx = text(file, src);
    lemma_text(file, src);
    lemma_assigned(file, src, r, piped(row, f));
    lemma_piped(cx, 2, row, f);
    let e2 = lemma_in_front(file, x, row, e, cx, 2);
    lemma_into_name(cx, 2 + row.len() as int, e2, f, parts);
    let c = ExprV::Call { callee: joined(parts), args: seq![e], span: at };
    lemma_assigns(file, src, r, piped(row, f), c);
}

/// `r = f(x);`.
proof fn lemma_called_text(
    file: Seq<char>,
    src: Seq<char>,
    r: Seq<char>,
    x: Seq<char>,
    row: Seq<TokV>,
    e: ExprV,
    f: Seq<TokV>,
    parts: Seq<Seq<char>>,
    at: Span,
)
    requires
        reads_expr(file, x, row, e),
        names(f, parts),
        reads(file, src, assigned(r, called(f, row))),
    ensures
        assigns(file, src, r, ExprV::Call { callee: joined(parts), args: seq![e], span: at }),
{
    let cx = text(file, src);
    lemma_text(file, src);
    lemma_assigned(file, src, r, called(f, row));
    lemma_called_at(file, x, row, e, f, parts, cx, 2, at);
    let c = ExprV::Call { callee: joined(parts), args: seq![e], span: at };
    lemma_assigns(file, src, r, called(f, row), c);
}

/// `r = x |> f(a, b);`.
proof fn lemma_piped_args_text(
    file: Seq<char>,
    src: Seq<char>,
    r: Seq<char>,
    x: Seq<char>,
    row: Seq<TokV>,
    e: ExprV,
    f: Seq<TokV>,
    parts: Seq<Seq<char>>,
    a: Seq<char>,
    arow: Seq<TokV>,
    args: Seq<ExprV>,
    at: Span,
)
    requires
        reads_expr(file, x, row, e),
        names(f, parts),
        reads_args(file, a, arow, args),
        reads(file, src, assigned(r, piped(row, called(f, arow)))),
    ensures
        assigns(file, src, r, ExprV::Call { callee: joined(parts), args: seq![e] + args, span: at }),
{
    let cx = text(file, src);
    let all = piped(row, called(f, arow));
    let n = row.len() as int;
    lemma_text(file, src);
    lemma_assigned(file, src, r, all);
    lemma_piped(cx, 2, row, called(f, arow));
    lemma_called(cx, 2 + n + 1, f, arow);
    let e2 = lemma_in_front(file, x, row, e, cx, 2);
    lemma_args(file, a, arow, args, cx, 2 + n + 2 + f.len());
    lemma_into_call(cx, 2 + n, e2, f, parts);
    let c = ExprV::Call { callee: joined(parts), args: seq![e] + args, span: at };
    lemma_assigns(file, src, r, all, c);
}

/// `r = f(x, a, b);`.
proof fn lemma_called_args_text(
    file: Seq<char>,
    src: Seq<char>,
    r: Seq<char>,
    x: Seq<char>,
    row: Seq<TokV>,
    e: ExprV,
    f: Seq<TokV>,
    parts: Seq<Seq<char>>,
    a: Seq<char>,
    arow: Seq<TokV>,
    args: Seq<ExprV>,
    at: Span,
)
    requires
        reads_expr(file, x, row, e),
        names(f, parts),
        reads_args(file, a, arow, args),
        reads(file, src, assigned(r, called(f, row + seq![key(Key::Comma)] + arow))),
    ensures
        assigns(file, src, r, ExprV::Call { callee: joined(parts), args: seq![e] + args, span: at }),
{
    let cx = text(file, src);
    let inner = row + seq![key(Key::Comma)] + arow;
    let all = called(f, inner);
    let n = row.len() as int;
    let q = 2 + f.len() as int + 1;
    lemma_text(file, src);
    lemma_assigned(file, src, r, all);
    lemma_called(cx, 2, f, inner);
    lemma_halves(cx, q, row + seq![key(Key::Comma)], arow);
    lemma_halves(cx, q, row, seq![key(Key::Comma)]);
    lemma_alone(file, x, row, e, cx, q);
    let e2 = g_expr(cx, q)->Ok_0.0;
    lemma_args(file, a, arow, args, cx, q + n + 1);
    lemma_before(cx, q + n + 1, Key::RParen, seq![e2]);
    assert(Seq::<ExprV>::empty().push(e2) =~= seq![e2]);
    assert(g_list(cx, q, Key::RParen, Seq::empty()) == g_list(cx, q + n + 1, Key::RParen, seq![e2]));
    lemma_call(cx, 2, f, parts);
    let c = ExprV::Call { callee: joined(parts), args: seq![e] + args, span: at };
    lemma_assigns(file, src, r, all, c);
}

/// `r = x |> f |> g;`.
proof fn lemma_chain_text(
    file: Seq<char>,
    src: Seq<char>,
    r: Seq<char>,
    x: Seq<char>,
    row: Seq<TokV>,
    e: ExprV,
    f: Seq<TokV>,
    parts: Seq<Seq<char>>,
    g: Seq<TokV>,
    gparts: Seq<Seq<char>>,
    at: Span,
)
    requires
        reads_expr(file, x, row, e),
        names(f, parts),
        names(g, gparts),
        reads(file, src, assigned(r, piped(piped(row, f), g))),
    ensures
        ({
            let inner = ExprV::Call { callee: joined(parts), args: seq![e], span: at };
            assigns(file, src, r, ExprV::Call { callee: joined(gparts), args: seq![inner], span: at })
        }),
{
    let cx = text(file, src);
    let all = piped(piped(row, f), g);
    let n = row.len() as int;
    let m = 2 + n + 1 + f.len();
    lemma_text(file, src);
    lemma_assigned(file, src, r, all);
    lemma_piped(cx, 2, piped(row, f), g);
    lemma_piped(cx, 2, row, f);
    let e2 = lemma_in_front(file, x, row, e, cx, 2);
    lemma_into_name(cx, 2 + n, e2, f, parts);
    let c = ExprV::Call { callee: joined(parts), args: seq![e2], span: cx.span(2 + n) };
    lemma_into_name(cx, m, c, g, gparts);
    let inner = ExprV::Call { callee: joined(parts), args: seq![e], span: at };
    let outer = ExprV::Call { callee: joined(gparts), args: seq![inner], span: at };
    assert(same_expr(inner, c));
    assert(same_expr(outer, ExprV::Call { callee: joined(gparts), args: seq![c], span: cx.span(m) }));
    lemma_assigns(file, src, r, all, outer);
}

/// `r = g(f(x));`.
proof fn lemma_nested_text(
    file: Seq<char>,
    src: Seq<char>,
    r: Seq<char>,
    x: Seq<char>,
    row: Seq<TokV>,
    e: ExprV,
    f: Seq<TokV>,
    parts: Seq<Seq<char>>,
    g: Seq<TokV>,
    gparts: Seq<Seq<char>>,
    at: Span,
)
    requires
        reads_expr(file, x, row, e),
        names(f, parts),
        names(g, gparts),
        reads(file, src, assigned(r, called(g, called(f, row)))),
    ensures
        ({
            let inner = ExprV::Call { callee: joined(parts), args: seq![e], span: at };
            assigns(file, src, r, ExprV::Call { callee: joined(gparts), args: seq![inner], span: at })
        }),
{
    let cx = text(file, src);
    let mid = called(f, row);
    let all = called(g, mid);
    let q = 2 + g.len() as int + 1;
    lemma_text(file, src);
    lemma_assigned(file, src, r, all);
    lemma_called(cx, 2, g, mid);
    lemma_called_at(file, x, row, e, f, parts, cx, q, at);
    let c = g_expr(cx, q)->Ok_0.0;
    assert(Seq::<ExprV>::empty().push(c) =~= seq![c]);
    assert(g_list(cx, q, Key::RParen, Seq::empty()) == Ok::<(Seq<ExprV>, int), ErrV>((seq![c], q + mid.len())));
    lemma_call(cx, 2, g, gparts);
    let inner = ExprV::Call { callee: joined(parts), args: seq![e], span: at };
    let outer = ExprV::Call { callee: joined(gparts), args: seq![inner], span: at };
    assert(same_expr(outer, g_expr(cx, 2)->Ok_0.0));
    lemma_assigns(file, src, r, all, outer);
}

/// `x |> f` is `f(x)`, for every expression `x`, one with pipes among them, and every name `f`:
/// the programs `r = x |> f;` and `r = f(x);` are the same, but for the places of their parts.
pub proof fn law_pipe_into_a_name(
    file: Seq<char>,
    r: Seq<char>,
    x: Seq<char>,
    row: Seq<TokV>,
    e: ExprV,
    f: Seq<TokV>,
    parts: Seq<Seq<char>>,
    pipe: Seq<char>,
    call: Seq<char>,
    at: Span,
)
    requires
        reads_expr(file, x, row, e),
        names(f, parts),
        reads(file, pipe, assigned(r, piped(row, f))),
        reads(file, call, assigned(r, called(f, row))),
    ensures
        assigns(file, pipe, r, ExprV::Call { callee: joined(parts), args: seq![e], span: at }),
        assigns(file, call, r, ExprV::Call { callee: joined(parts), args: seq![e], span: at }),
        same_expr(value_of(file, pipe), value_of(file, call)),
{
    lemma_piped_text(file, pipe, r, x, row, e, f, parts, at);
    lemma_called_text(file, call, r, x, row, e, f, parts, at);
    lemma_alike(
        ExprV::Call { callee: joined(parts), args: seq![e], span: at },
        value_of(file, pipe),
        value_of(file, call),
    );
}

/// `x |> f(a, b)` is `f(x, a, b)`, for every row of arguments: the programs `r = x |> f(a, b);`
/// and `r = f(x, a, b);` are the same, but for the places of their parts.
pub proof fn law_pipe_into_a_call(
    file: Seq<char>,
    r: Seq<char>,
    x: Seq<char>,
    row: Seq<TokV>,
    e: ExprV,
    f: Seq<TokV>,
    parts: Seq<Seq<char>>,
    a: Seq<char>,
    arow: Seq<TokV>,
    args: Seq<ExprV>,
    pipe: Seq<char>,
    call: Seq<char>,
    at: Span,
)
    requires
        reads_expr(file, x, row, e),
        names(f, parts),
        reads_args(file, a, arow, args),
        reads(file, pipe, assigned(r, piped(row, called(f, arow)))),
        reads(file, call, assigned(r, called(f, row + seq![key(Key::Comma)] + arow))),
    ensures
        assigns(file, pipe, r, ExprV::Call { callee: joined(parts), args: seq![e] + args, span: at }),
        assigns(file, call, r, ExprV::Call { callee: joined(parts), args: seq![e] + args, span: at }),
        same_expr(value_of(file, pipe), value_of(file, call)),
{
    let c = ExprV::Call { callee: joined(parts), args: seq![e] + args, span: at };
    lemma_piped_args_text(file, pipe, r, x, row, e, f, parts, a, arow, args, at);
    lemma_called_args_text(file, call, r, x, row, e, f, parts, a, arow, args, at);
    lemma_alike(c, value_of(file, pipe), value_of(file, call));
}

/// Pipes chain: `x |> f |> g` is `g(f(x))`, in that order. The programs `r = x |> f |> g;` and
/// `r = g(f(x));` are the same, but for the places of their parts.
pub proof fn law_pipes_chain(
    file: Seq<char>,
    r: Seq<char>,
    x: Seq<char>,
    row: Seq<TokV>,
    e: ExprV,
    f: Seq<TokV>,
    fparts: Seq<Seq<char>>,
    g: Seq<TokV>,
    gparts: Seq<Seq<char>>,
    pipe: Seq<char>,
    call: Seq<char>,
    at: Span,
)
    requires
        reads_expr(file, x, row, e),
        names(f, fparts),
        names(g, gparts),
        reads(file, pipe, assigned(r, piped(piped(row, f), g))),
        reads(file, call, assigned(r, called(g, called(f, row)))),
    ensures
        ({
            let inner = ExprV::Call { callee: joined(fparts), args: seq![e], span: at };
            let outer = ExprV::Call { callee: joined(gparts), args: seq![inner], span: at };
            assigns(file, pipe, r, outer) && assigns(file, call, r, outer)
        }),
        same_expr(value_of(file, pipe), value_of(file, call)),
{
    let inner = ExprV::Call { callee: joined(fparts), args: seq![e], span: at };
    let outer = ExprV::Call { callee: joined(gparts), args: seq![inner], span: at };
    lemma_chain_text(file, pipe, r, x, row, e, f, fparts, g, gparts, at);
    lemma_nested_text(file, call, r, x, row, e, f, fparts, g, gparts, at);
    lemma_alike(outer, value_of(file, pipe), value_of(file, call));
}

} // verus!
