//! What holds of every translation to C.

use vstd::prelude::*;

use super::reach::{args_calls, expr_calls, needed, reached, stmt_calls, stmt_cfns, stmts_calls, ReachV};
use super::types::{CFnV, CodegenV};
use super::with_exports;
use crate::ast::{ExprV, StmtV};

verus! {

/// Whether an expression calls a function.
pub open spec fn expr_has(e: ExprV, c: Seq<char>) -> bool
    decreases e, 0int,
{
    match e {
        ExprV::Call { callee, args, .. } => callee == c || args_have(args, args.len() as int, c),
        ExprV::Unary { expr, .. } => expr_has(*expr, c),
        ExprV::Binary { lhs, rhs, .. } => expr_has(*lhs, c) || expr_has(*rhs, c),
        _ => false,
    }
}

/// Whether one of the first `n` arguments calls a function.
pub open spec fn args_have(es: Seq<ExprV>, n: int, c: Seq<char>) -> bool
    decreases es, n,
{
    0 < n <= es.len() && (args_have(es, n - 1, c) || expr_has(es[n - 1], c))
}

/// Whether a statement calls a function.
pub open spec fn stmt_has(s: StmtV, c: Seq<char>) -> bool
    decreases s, 0int,
{
    match s {
        StmtV::Assign { value, .. } => expr_has(value, c),
        StmtV::VarDecl { init, .. } => init is Some && expr_has(init->0, c),
        StmtV::Block { stmts, .. } => stmts_have(stmts, stmts.len() as int, c),
        StmtV::If { cond, then_branch, else_branch, .. } => {
            ||| expr_has(cond, c)
            ||| stmts_have(then_branch, then_branch.len() as int, c)
            ||| match else_branch {
                Some(x) => stmts_have(x, x.len() as int, c),
                None => false,
            }
        },
        StmtV::While { cond, body, .. } => expr_has(cond, c) || stmts_have(body, body.len() as int, c),
        StmtV::Return { value, .. } => value is Some && expr_has(value->0, c),
        StmtV::ExprStmt { expr, .. } => expr_has(expr, c),
        _ => false,
    }
}

/// Whether one of the first `n` statements calls a function.
pub open spec fn stmts_have(ss: Seq<StmtV>, n: int, c: Seq<char>) -> bool
    decreases ss, n,
{
    0 < n <= ss.len() && (stmts_have(ss, n - 1, c) || stmt_has(ss[n - 1], c))
}

/// Whether the body of a function calls another.
pub open spec fn calls(g: CodegenV, f: Seq<char>, c: Seq<char>) -> bool {
    stmts_have(g.fns[f].body, g.fns[f].body.len() as int, c)
}

/// What holds throughout the search: nothing is found twice, all that is found exists, there
/// is room for all that is left, and what a function that is done with calls was looked at.
spec fn sound(g: CodegenV, st: ReachV, left: nat) -> bool {
    &&& g.fns.dom().finite()
    &&& st.seen.no_duplicates()
    &&& st.order.no_duplicates()
    &&& forall|i: int| 0 <= i < st.seen.len() ==> g.fns.dom().contains(#[trigger] st.seen[i])
    &&& st.seen.len() + left >= g.fns.dom().len()
    &&& forall|n: Seq<char>| #[trigger] st.order.contains(n) ==> st.seen.contains(n)
    &&& forall|n: Seq<char>, c: Seq<char>|
        st.order.contains(n) && g.fns.dom().contains(c) && #[trigger] calls(g, n, c) ==> st.seen.contains(c)
}

/// How a search goes on: all that was found stays, and what is new is done with.
spec fn grown(a: ReachV, b: ReachV) -> bool {
    &&& a.seen.len() <= b.seen.len()
    &&& forall|n: Seq<char>| #[trigger] a.seen.contains(n) ==> b.seen.contains(n)
    &&& forall|n: Seq<char>| #[trigger] a.order.contains(n) ==> b.order.contains(n)
    &&& forall|n: Seq<char>| #[trigger] b.seen.contains(n) ==> a.seen.contains(n) || b.order.contains(n)
    &&& forall|n: Seq<char>| #[trigger] b.order.contains(n) ==> a.order.contains(n) || !a.seen.contains(n)
}

proof fn lemma_grown(a: ReachV, b: ReachV, c: ReachV)
    requires
        grown(a, b),
        grown(b, c),
    ensures
        grown(a, c),
{
    assert forall|n: Seq<char>| #[trigger] c.seen.contains(n) implies a.seen.contains(n) || c.order.contains(n) by {
        if b.seen.contains(n) {
            if !a.seen.contains(n) {
                assert(b.order.contains(n));
            }
        }
    }
    assert forall|n: Seq<char>| #[trigger] c.order.contains(n) implies a.order.contains(n) || !a.seen.contains(n) by {
        if b.order.contains(n) {
        } else {
            assert(!b.seen.contains(n));
        }
    }
}

/// Where there is no room left, all that exists was found.
proof fn lemma_full(g: CodegenV, seen: Seq<Seq<char>>, name: Seq<char>)
    requires
        g.fns.dom().finite(),
        seen.no_duplicates(),
        forall|i: int| 0 <= i < seen.len() ==> g.fns.dom().contains(#[trigger] seen[i]),
        seen.len() >= g.fns.dom().len(),
        g.fns.dom().contains(name),
    ensures
        seen.contains(name),
{
    seen.unique_seq_to_set();
    let s = seen.to_set();
    assert(s.subset_of(g.fns.dom()));
    vstd::set_lib::lemma_len_subset(s, g.fns.dom());
    vstd::set_lib::lemma_subset_equality(s, g.fns.dom());
    assert(s.contains(name));
}

proof fn lemma_push(s: Seq<Seq<char>>, x: Seq<char>)
    ensures
        forall|n: Seq<char>| #[trigger] s.push(x).contains(n) <==> s.contains(n) || n == x,
{
    let t = s.push(x);
    assert forall|n: Seq<char>| #[trigger] t.contains(n) <==> s.contains(n) || n == x by {
        if s.contains(n) {
            let i = choose|i: int| 0 <= i < s.len() && s[i] == n;
            assert(t[i] == n);
        }
        assert(t[s.len() as int] == x);
        if t.contains(n) {
            let i = choose|i: int| 0 <= i < t.len() && t[i] == n;
            if i < s.len() {
                assert(s[i] == n);
            }
        }
    }
}

proof fn lemma_reached(g: CodegenV, name: Seq<char>, st: ReachV, left: nat)
    requires
        sound(g, st, left),
    ensures
        sound(g, reached(g, name, st, left), left),
        grown(st, reached(g, name, st, left)),
        g.fns.dom().contains(name) ==> reached(g, name, st, left).seen.contains(name),
    decreases left, 0int, st, 0int,
{
    if st.seen.contains(name) || !g.fns.dom().contains(name) {
    } else if left == 0 {
        lemma_full(g, st.seen, name);
    } else {
        let body = g.fns[name].body;
        let entered = ReachV { seen: st.seen.push(name), ..st };
        lemma_push(st.seen, name);
        assert(sound(g, entered, (left - 1) as nat)) by {
            assert forall|i: int, j: int| 0 <= i < j < entered.seen.len() implies entered.seen[i] != entered.seen[j] by {
                if j == st.seen.len() {
                    assert(st.seen.contains(st.seen[i]));
                }
            }
        }
        let inner = stmts_calls(g, body, body.len() as int, entered, (left - 1) as nat);
        lemma_stmts(g, body, body.len() as int, entered, (left - 1) as nat);
        let end = ReachV { order: inner.order.push(name), ..inner };
        lemma_push(inner.order, name);
        assert(entered.seen.contains(name));
        assert(!inner.order.contains(name)) by {
            if inner.order.contains(name) {
                assert(st.order.contains(name));
                assert(st.seen.contains(name));
            }
        }
        assert forall|i: int, j: int| 0 <= i < j < end.order.len() implies end.order[i] != end.order[j] by {
            if j == inner.order.len() {
                assert(inner.order.contains(inner.order[i]));
            }
        }
        assert(end == reached(g, name, st, left));
        assert forall|n: Seq<char>| #[trigger] end.seen.contains(n) implies st.seen.contains(n) || end.order.contains(
            n,
        ) by {
            if !entered.seen.contains(n) {
                assert(inner.order.contains(n));
            }
        }
        assert forall|n: Seq<char>| #[trigger] end.order.contains(n) implies st.order.contains(n) || !st.seen.contains(
            n,
        ) by {
            if n != name {
                assert(inner.order.contains(n));
                if st.seen.contains(n) {
                    assert(entered.seen.contains(n));
                }
            }
        }
        assert forall|n: Seq<char>| #[trigger] st.seen.contains(n) implies end.seen.contains(n) by {
            assert(entered.seen.contains(n));
        }
        assert forall|n: Seq<char>| #[trigger] st.order.contains(n) implies end.order.contains(n) by {
            assert(entered.order.contains(n));
            assert(inner.order.contains(n));
        }
        assert forall|n: Seq<char>, c: Seq<char>|
            end.order.contains(n) && g.fns.dom().contains(c) && #[trigger] calls(g, n, c) implies end.seen.contains(
            c,
        ) by {
            if n == name {
                assert(stmts_have(body, body.len() as int, c));
            } else {
                assert(inner.order.contains(n));
            }
        }
    }
}

proof fn lemma_stmt(g: CodegenV, s: StmtV, st: ReachV, left: nat)
    requires
        sound(g, st, left),
    ensures
        sound(g, stmt_calls(g, s, st, left), left),
        grown(st, stmt_calls(g, s, st, left)),
        forall|c: Seq<char>|
            g.fns.dom().contains(c) && #[trigger] stmt_has(s, c) ==> stmt_calls(g, s, st, left).seen.contains(c),
    decreases left, 2int, s, 0int,
{
    match s {
        StmtV::Assign { value, .. } => {
            lemma_expr(g, value, st, left);
        },
        StmtV::VarDecl { init, .. } => {
            if let Some(e) = init {
                lemma_expr(g, e, st, left);
            }
        },
        StmtV::Block { stmts, .. } => {
            lemma_stmts(g, stmts, stmts.len() as int, st, left);
        },
        StmtV::If { cond, then_branch, else_branch, .. } => {
            let a = expr_calls(g, cond, st, left);
            lemma_expr(g, cond, st, left);
            let b = stmts_calls(g, then_branch, then_branch.len() as int, a, left);
            lemma_stmts(g, then_branch, then_branch.len() as int, a, left);
            lemma_grown(st, a, b);
            if let Some(x) = else_branch {
                lemma_stmts(g, x, x.len() as int, b, left);
                lemma_grown(st, b, stmts_calls(g, x, x.len() as int, b, left));
            }
        },
        StmtV::While { cond, body, .. } => {
            let a = expr_calls(g, cond, st, left);
            lemma_expr(g, cond, st, left);
            lemma_stmts(g, body, body.len() as int, a, left);
            lemma_grown(st, a, stmts_calls(g, body, body.len() as int, a, left));
        },
        StmtV::Return { value, .. } => {
            if let Some(e) = value {
                lemma_expr(g, e, st, left);
            }
        },
        StmtV::ExprStmt { expr, .. } => {
            lemma_expr(g, expr, st, left);
        },
        _ => {},
    }
    let end = stmt_calls(g, s, st, left);
    assert forall|c: Seq<char>| g.fns.dom().contains(c) && #[trigger] stmt_has(s, c) implies end.seen.contains(c) by {
        match s {
            StmtV::Assign { value, .. } => {
                assert(expr_has(value, c));
            },
            StmtV::VarDecl { init, .. } => {
                assert(expr_has(init->0, c));
            },
            StmtV::Block { stmts, .. } => {
                assert(stmts_have(stmts, stmts.len() as int, c));
            },
            StmtV::Return { value, .. } => {
                assert(expr_has(value->0, c));
            },
            StmtV::ExprStmt { expr, .. } => {
                assert(expr_has(expr, c));
            },
            StmtV::If { cond, then_branch, else_branch, .. } => {
                let a = expr_calls(g, cond, st, left);
                let b = stmts_calls(g, then_branch, then_branch.len() as int, a, left);
                if expr_has(cond, c) {
                    assert(a.seen.contains(c));
                    assert(b.seen.contains(c));
                } else if stmts_have(then_branch, then_branch.len() as int, c) {
                    assert(b.seen.contains(c));
                } else {
                    assert(stmts_have(else_branch->0, else_branch->0.len() as int, c));
                }
            },
            StmtV::While { cond, body, .. } => {
                if expr_has(cond, c) {
                    assert(expr_calls(g, cond, st, left).seen.contains(c));
                } else {
                    assert(stmts_have(body, body.len() as int, c));
                }
            },
            _ => {},
        }
    }
}

proof fn lemma_stmts(g: CodegenV, ss: Seq<StmtV>, n: int, st: ReachV, left: nat)
    requires
        sound(g, st, left),
    ensures
        sound(g, stmts_calls(g, ss, n, st, left), left),
        grown(st, stmts_calls(g, ss, n, st, left)),
        forall|c: Seq<char>|
            g.fns.dom().contains(c) && #[trigger] stmts_have(ss, n, c) ==> stmts_calls(
                g,
                ss,
                n,
                st,
                left,
            ).seen.contains(c),
    decreases left, 2int, ss, n,
{
    if 0 < n <= ss.len() {
        let a = stmts_calls(g, ss, n - 1, st, left);
        lemma_stmts(g, ss, n - 1, st, left);
        lemma_stmt(g, ss[n - 1], a, left);
        let b = stmts_calls(g, ss, n, st, left);
        lemma_grown(st, a, b);
        assert forall|c: Seq<char>| g.fns.dom().contains(c) && #[trigger] stmts_have(ss, n, c) implies b.seen.contains(
            c,
        ) by {
            if stmts_have(ss, n - 1, c) {
                assert(a.seen.contains(c));
            } else {
                assert(stmt_has(ss[n - 1], c));
            }
        }
    }
}

proof fn lemma_expr(g: CodegenV, e: ExprV, st: ReachV, left: nat)
    requires
        sound(g, st, left),
    ensures
        sound(g, expr_calls(g, e, st, left), left),
        grown(st, expr_calls(g, e, st, left)),
        forall|c: Seq<char>|
            g.fns.dom().contains(c) && #[trigger] expr_has(e, c) ==> expr_calls(g, e, st, left).seen.contains(c),
    decreases left, 1int, e, 0int,
{
    match e {
        ExprV::Call { callee, args, .. } => {
            let a = reached(g, callee, st, left);
            lemma_reached(g, callee, st, left);
            let b = args_calls(g, args, args.len() as int, a, left);
            lemma_args(g, args, args.len() as int, a, left);
            lemma_grown(st, a, b);
        },
        ExprV::Unary { expr, .. } => {
            lemma_expr(g, *expr, st, left);
        },
        ExprV::Binary { lhs, rhs, .. } => {
            let a = expr_calls(g, *lhs, st, left);
            lemma_expr(g, *lhs, st, left);
            lemma_expr(g, *rhs, a, left);
            lemma_grown(st, a, expr_calls(g, *rhs, a, left));
        },
        _ => {},
    }
    let end = expr_calls(g, e, st, left);
    assert forall|c: Seq<char>| g.fns.dom().contains(c) && #[trigger] expr_has(e, c) implies end.seen.contains(c) by {
        match e {
            ExprV::Call { callee, args, .. } => {
                if callee == c {
                    assert(reached(g, callee, st, left).seen.contains(c));
                } else {
                    assert(args_have(args, args.len() as int, c));
                }
            },
            ExprV::Unary { expr, .. } => {
                assert(expr_has(*expr, c));
            },
            ExprV::Binary { lhs, rhs, .. } => {
                if expr_has(*lhs, c) {
                    assert(expr_calls(g, *lhs, st, left).seen.contains(c));
                } else {
                    assert(expr_has(*rhs, c));
                }
            },
            _ => {},
        }
    }
}

proof fn lemma_args(g: CodegenV, es: Seq<ExprV>, n: int, st: ReachV, left: nat)
    requires
        sound(g, st, left),
    ensures
        sound(g, args_calls(g, es, n, st, left), left),
        grown(st, args_calls(g, es, n, st, left)),
        forall|c: Seq<char>|
            g.fns.dom().contains(c) && #[trigger] args_have(es, n, c) ==> args_calls(g, es, n, st, left).seen.contains(
                c,
            ),
    decreases left, 1int, es, n,
{
    if 0 < n <= es.len() {
        let a = args_calls(g, es, n - 1, st, left);
        lemma_args(g, es, n - 1, st, left);
        lemma_expr(g, es[n - 1], a, left);
        let b = args_calls(g, es, n, st, left);
        lemma_grown(st, a, b);
        assert forall|c: Seq<char>| g.fns.dom().contains(c) && #[trigger] args_have(es, n, c) implies b.seen.contains(
            c,
        ) by {
            if args_have(es, n - 1, c) {
                assert(a.seen.contains(c));
            } else {
                assert(expr_has(es[n - 1], c));
            }
        }
    }
}

/// Between two exports all that was looked at is done with.
spec fn settled(st: ReachV) -> bool {
    forall|n: Seq<char>| #[trigger] st.seen.contains(n) ==> st.order.contains(n)
}

proof fn lemma_needed(g: CodegenV, es: Seq<Seq<char>>, i: int, st: ReachV)
    requires
        0 <= i,
        sound(g, st, g.count),
        settled(st),
        g.count == g.fns.dom().len(),
        needed(g, es, i, st) is Ok,
    ensures
        sound(g, needed(g, es, i, st)->Ok_0, g.count),
        settled(needed(g, es, i, st)->Ok_0),
        forall|n: Seq<char>| #[trigger] st.order.contains(n) ==> needed(g, es, i, st)->Ok_0.order.contains(n),
        forall|k: int| i <= k < es.len() ==> needed(g, es, i, st)->Ok_0.order.contains(#[trigger] es[k]),
    decreases es.len() - i,
{
    if i < es.len() {
        let next = reached(g, es[i], st, g.count);
        lemma_reached(g, es[i], st, g.count);
        assert(settled(next));
        lemma_needed(g, es, i + 1, next);
        assert(next.seen.contains(es[i]));
        assert(next.order.contains(es[i]));
    }
}

proof fn lemma_with_exports(es: Seq<Seq<char>>, n: int, names: Seq<Seq<char>>)
    requires
        0 <= n <= es.len(),
        forall|k: int| 0 <= k < n ==> names.contains(#[trigger] es[k]),
    ensures
        with_exports(es, n, names) == names,
    decreases n,
{
    if n > 0 {
        lemma_with_exports(es, n - 1, names);
    }
}

/// A translation is complete: the functions that are written are the exports and all that
/// they need. Each is written once, and what a function that is written calls of the script's
/// functions is written too.
pub proof fn law_library_is_complete(g: CodegenV, es: Seq<Seq<char>>)
    requires
        g.fns.dom().finite(),
        g.count == g.fns.dom().len(),
        needed(g, es, 0, ReachV { order: Seq::empty(), seen: Seq::empty() }) is Ok,
    ensures
        ({
            let st = needed(g, es, 0, ReachV { order: Seq::empty(), seen: Seq::empty() })->Ok_0;
            let names = with_exports(es, es.len() as int, st.order);
            &&& names.no_duplicates()
            &&& forall|k: int| 0 <= k < es.len() ==> names.contains(#[trigger] es[k])
            &&& forall|f: Seq<char>, c: Seq<char>|
                names.contains(f) && g.fns.dom().contains(c) && #[trigger] calls(g, f, c) ==> names.contains(c)
        }),
{
    let none = ReachV { order: Seq::empty(), seen: Seq::empty() };
    lemma_needed(g, es, 0, none);
    let st = needed(g, es, 0, none)->Ok_0;
    lemma_with_exports(es, es.len() as int, st.order);
}

/// A function that is marked `tmp` is left out of a translation.
pub proof fn law_tmp_is_left_out(s: StmtV, fns: Map<Seq<char>, CFnV>)
    requires
        s matches StmtV::FnDef { tmp, .. } && tmp,
    ensures
        stmt_cfns(s, fns) == fns,
{
}

} // verus!
