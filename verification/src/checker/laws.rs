//! What checking keeps: a type that was found stays.

use vstd::prelude::*;

use super::rules::{
    all_text, args_flow, args_ok, arms_ty, binary_ty, block_ty, builtin_ret, call_ty, condition,
    declare, declare_opt, entries_ty, expr_ty, exprs_ty, fields_take, flow, fn_ty, fns_ty,
    logic_operand, must_be, round_ty, segs_ty, settle, stmt_ty, stmts_ty, typed_arg, unary_ty,
    variable, want_arg, CxV, EnvV, FnV, StV, TyRes,
};
use super::sigs::Sig;
use super::Ty;
use crate::ast::{BinOp, ExprV, SegV, StmtV};
use crate::error::{codes, ErrV};
use crate::lexer::Span;

verus! {

/// Whether every type that was known before is known behind, and the same.
pub open spec fn kept(a: StV, b: StV) -> bool {
    &&& a.slots.len() <= b.slots.len()
    &&& forall|i: int|
        0 <= i < a.slots.len() && (#[trigger] a.slots[i]) is Some ==> b.slots[i] == a.slots[i]
}

/// Whether a judgement keeps all types.
pub open spec fn keeps(st: StV, r: Result<StV, ErrV>) -> bool {
    r matches Ok(b) ==> kept(st, b)
}

/// Whether a judgement with a type keeps all types.
pub open spec fn keeps_ty(st: StV, r: Result<(TyRes, StV), ErrV>) -> bool {
    r matches Ok((_, b)) ==> kept(st, b)
}

/// Whether a judgement with scopes keeps all types.
pub open spec fn keeps_env(st: StV, r: Result<(StV, EnvV), ErrV>) -> bool {
    r matches Ok((b, _)) ==> kept(st, b)
}

proof fn lemma_fields_take(
    cx: CxV,
    st: StV,
    name: Seq<char>,
    fields: Seq<(Seq<char>, Ty)>,
    args: Seq<TyRes>,
    span: Span,
    i: int,
)
    ensures
        keeps(st, fields_take(cx, st, name, fields, args, span, i)),
    decreases args.len() - i,
{
    if 0 <= i < args.len() {
        let what = "field `"@ + fields[i].0 + "` of struct `"@ + name + "`"@;
        match must_be(cx, st, fields[i].1, args[i], span, what) {
            Err(_) => {},
            Ok(st1) => {
                assert(kept(st, st1));
                lemma_fields_take(cx, st1, name, fields, args, span, i + 1);
            },
        }
    }
}

proof fn lemma_args_flow(cx: CxV, st: StV, f: FnV, args: Seq<TyRes>, span: Span, i: int)
    ensures
        keeps(st, args_flow(cx, st, f, args, span, i)),
    decreases args.len() - i,
{
    if 0 <= i < args.len() {
        let what = "parameter `"@ + f.params[i] + "` of `"@ + f.name + "`"@;
        match flow(cx, st, f.param_slots[i], args[i], span, what) {
            Err(_) => {},
            Ok(st1) => {
                assert(kept(st, st1));
                lemma_args_flow(cx, st1, f, args, span, i + 1);
            },
        }
    }
}

proof fn lemma_all_text(cx: CxV, st: StV, name: Seq<char>, args: Seq<TyRes>, i: int, what: Seq<char>, span: Span)
    ensures
        keeps(st, all_text(cx, st, name, args, i, what, span)),
    decreases args.len() - i,
{
    if 0 <= i < args.len() {
        match typed_arg(cx, st, name, args[i], Ty::Str, what, "pass a string value"@, span) {
            Err(_) => {},
            Ok(st1) => {
                assert(kept(st, st1));
                lemma_all_text(cx, st1, name, args, i + 1, what, span);
            },
        }
    }
}

proof fn lemma_args_ok(cx: CxV, st: StV, name: Seq<char>, sig: Sig, args: Seq<TyRes>, span: Span)
    ensures
        keeps(st, args_ok(cx, st, name, sig, args, span)),
{
    if let Ok(st0) = want_arg(cx, st, name, args, 0, sig.w0, span) {
        assert(kept(st, st0));
        if let Ok(st1) = want_arg(cx, st0, name, args, 1, sig.w1, span) {
            assert(kept(st0, st1));
            if let Ok(st2) = want_arg(cx, st1, name, args, 2, sig.w2, span) {
                assert(kept(st1, st2));
                if let Some(what) = sig.all {
                    lemma_all_text(cx, st2, name, args, 0, what@, span);
                }
            }
        }
    }
}

proof fn lemma_call(cx: CxV, st: StV, callee: Seq<char>, args: Seq<TyRes>, span: Span)
    ensures
        keeps_ty(st, call_ty(cx, st, callee, args, span)),
{
    if cx.fns.dom().contains(callee) {
        lemma_args_flow(cx, st, cx.fns[callee], args, span, 0);
    } else if cx.structs.dom().contains(callee) {
        lemma_fields_take(cx, st, callee, cx.structs[callee], args, span, 0);
    } else if let Some(sig) = super::sigs::sig_of(callee) {
        lemma_args_ok(cx, st, callee, sig, args, span);
        if let Ok(st1) = args_ok(cx, st, callee, sig, args, span) {
            assert(keeps_ty(st1, builtin_ret(cx, st1, callee, sig.ret, args, span)));
        }
    }
}

proof fn lemma_binary(cx: CxV, st: StV, op: BinOp, l: TyRes, r: TyRes, span: Span)
    ensures
        keeps_ty(st, binary_ty(cx, st, op, l, r, span)),
{
    if op == BinOp::And || op == BinOp::Or {
        if let Ok(st1) = logic_operand(cx, st, l, op, span) {
            assert(kept(st, st1));
            assert(keeps(st1, logic_operand(cx, st1, r, op, span)));
        }
    }
}

proof fn lemma_expr(cx: CxV, st: StV, env: EnvV, e: ExprV)
    ensures
        keeps_ty(st, expr_ty(cx, st, env, e)),
    decreases e, 0int,
{
    match e {
        ExprV::ListLit(items, _) => lemma_exprs(cx, st, env, items, 0, Seq::empty()),
        ExprV::DictLit(es, _) => lemma_entries(cx, st, env, es, 0),
        ExprV::FStr(segs, _) => lemma_segs(cx, st, env, segs, 0),
        ExprV::Field { obj, .. } => lemma_expr(cx, st, env, *obj),
        ExprV::Unary { op, expr, span } => {
            lemma_expr(cx, st, env, *expr);
            if let Ok((res, st1)) = expr_ty(cx, st, env, *expr) {
                assert(keeps_ty(st1, unary_ty(cx, st1, op, res, span)));
            }
        },
        ExprV::Binary { op, lhs, rhs, span } => {
            lemma_expr(cx, st, env, *lhs);
            if let Ok((l, st1)) = expr_ty(cx, st, env, *lhs) {
                lemma_expr(cx, st1, env, *rhs);
                if let Ok((r, st2)) = expr_ty(cx, st1, env, *rhs) {
                    lemma_binary(cx, st2, op, l, r, span);
                }
            }
        },
        ExprV::Call { callee, args, span } => {
            lemma_exprs(cx, st, env, args, 0, Seq::empty());
            if let Ok((ts, st1)) = exprs_ty(cx, st, env, args, 0, Seq::empty()) {
                lemma_call(cx, st1, callee, ts, span);
            }
        },
        ExprV::Match { value, arms, .. } => {
            lemma_expr(cx, st, env, *value);
            if let Ok((_, st1)) = expr_ty(cx, st, env, *value) {
                lemma_arms(cx, st1, env, arms, 0);
            }
        },
        _ => {},
    }
}

proof fn lemma_exprs(cx: CxV, st: StV, env: EnvV, es: Seq<ExprV>, i: int, acc: Seq<TyRes>)
    ensures
        exprs_ty(cx, st, env, es, i, acc) matches Ok((_, b)) ==> kept(st, b),
    decreases es, es.len() - i,
{
    if 0 <= i < es.len() {
        lemma_expr(cx, st, env, es[i]);
        if let Ok((t, st1)) = expr_ty(cx, st, env, es[i]) {
            lemma_exprs(cx, st1, env, es, i + 1, acc.push(t));
        }
    }
}

proof fn lemma_entries(cx: CxV, st: StV, env: EnvV, es: Seq<(Seq<char>, ExprV)>, i: int)
    ensures
        keeps(st, entries_ty(cx, st, env, es, i)),
    decreases es, es.len() - i,
{
    if 0 <= i < es.len() {
        lemma_expr(cx, st, env, es[i].1);
        if let Ok((_, st1)) = expr_ty(cx, st, env, es[i].1) {
            lemma_entries(cx, st1, env, es, i + 1);
        }
    }
}

proof fn lemma_segs(cx: CxV, st: StV, env: EnvV, ss: Seq<SegV>, i: int)
    ensures
        keeps(st, segs_ty(cx, st, env, ss, i)),
    decreases ss, ss.len() - i,
{
    if 0 <= i < ss.len() {
        match ss[i] {
            SegV::Lit(_) => lemma_segs(cx, st, env, ss, i + 1),
            SegV::Code(e) => {
                lemma_expr(cx, st, env, e);
                if let Ok((_, st1)) = expr_ty(cx, st, env, e) {
                    lemma_segs(cx, st1, env, ss, i + 1);
                }
            },
        }
    }
}

proof fn lemma_arms(cx: CxV, st: StV, env: EnvV, arms: Seq<(Option<ExprV>, ExprV)>, i: int)
    ensures
        keeps(st, arms_ty(cx, st, env, arms, i)),
    decreases arms, arms.len() - i,
{
    if 0 <= i < arms.len() {
        if let Some(p) = arms[i].0 {
            lemma_expr(cx, st, env, p);
        }
        let pat = match arms[i].0 {
            None => Ok(st),
            Some(p) => match expr_ty(cx, st, env, p) {
                Err(x) => Err(x),
                Ok((_, st1)) => Ok(st1),
            },
        };
        if let Ok(st1) = pat {
            lemma_expr(cx, st1, env, arms[i].1);
            if let Ok((_, st2)) = expr_ty(cx, st1, env, arms[i].1) {
                lemma_arms(cx, st2, env, arms, i + 1);
            }
        }
    }
}

proof fn lemma_if(cx: CxV, st: StV, env: EnvV, s: StmtV)
    requires
        s is If,
    ensures
        keeps_env(st, stmt_ty(cx, st, env, s)),
    decreases s, 0int,
{
    match s {
        StmtV::If { cond, then_branch, else_branch, span } => {
            lemma_expr(cx, st, env, cond);
            if let Ok((res, st1)) = expr_ty(cx, st, env, cond) {
                if let Ok(st2) = condition(cx, st1, res, span) {
                    assert(kept(st1, st2));
                    lemma_block(cx, st2, env, then_branch);
                    if let Ok((st3, env3)) = block_ty(cx, st2, env, then_branch) {
                        if let Some(b) = else_branch {
                            lemma_block(cx, st3, env3, b);
                        }
                    }
                }
            }
        },
        _ => {},
    }
}

proof fn lemma_while(cx: CxV, st: StV, env: EnvV, s: StmtV)
    requires
        s is While,
    ensures
        keeps_env(st, stmt_ty(cx, st, env, s)),
    decreases s, 0int,
{
    match s {
        StmtV::While { cond, body, span } => {
            lemma_expr(cx, st, env, cond);
            if let Ok((res, st1)) = expr_ty(cx, st, env, cond) {
                if let Ok(st2) = condition(cx, st1, res, span) {
                    assert(kept(st1, st2));
                    lemma_block(cx, st2, env, body);
                }
            }
        },
        _ => {},
    }
}

proof fn lemma_for(cx: CxV, st: StV, env: EnvV, s: StmtV)
    requires
        s is ForIn,
    ensures
        keeps_env(st, stmt_ty(cx, st, env, s)),
    decreases s, 0int,
{
    match s {
        StmtV::ForIn { var, var2, iter, body, span } => {
            lemma_expr(cx, st, env, iter);
            if let Ok((_, st1)) = expr_ty(cx, st, env, iter) {
                if let Ok((st2, env2)) = declare(cx, st1, env.enter(), var, None, span) {
                    assert(kept(st1, st2));
                    if let Ok((st3, env3)) = declare_opt(cx, st2, env2, var2, span) {
                        assert(kept(st2, st3));
                        lemma_stmts(cx, st3, env3, body, 0);
                    }
                }
            }
        },
        _ => {},
    }
}

proof fn lemma_try(cx: CxV, st: StV, env: EnvV, s: StmtV)
    requires
        s is Try,
    ensures
        keeps_env(st, stmt_ty(cx, st, env, s)),
    decreases s, 0int,
{
    match s {
        StmtV::Try { body, catch_var, handler, span } => {
            lemma_block(cx, st, env, body);
            if let Ok((st1, env1)) = block_ty(cx, st, env, body) {
                if let Ok((st2, env2)) = declare(cx, st1, env1.enter(), catch_var, Some(Ty::Error), span) {
                    assert(kept(st1, st2));
                    lemma_stmts(cx, st2, env2, handler, 0);
                }
            }
        },
        _ => {},
    }
}

/// What one statement finds takes nothing away: every variable, parameter and result that
/// has a type keeps it.
pub proof fn law_types_stay_locked(cx: CxV, st: StV, env: EnvV, s: StmtV)
    ensures
        stmt_ty(cx, st, env, s) matches Ok((b, _)) ==> kept(st, b),
    decreases s, 1int,
{
    match s {
        StmtV::VarDecl { name, ty, init, span } => {
            if let Some(e) = init {
                lemma_expr(cx, st, env, e);
                if let Ok((res, st1)) = expr_ty(cx, st, env, e) {
                    assert(keeps(st1, must_be(cx, st1, Ty::of(ty), res, span, variable(name))));
                }
            }
        },
        StmtV::Assign { name, value, span } => {
            lemma_expr(cx, st, env, value);
            if let Ok((res, st1)) = expr_ty(cx, st, env, value) {
                if let Some(slot) = env.get(name) {
                    assert(keeps(st1, flow(cx, st1, slot, res, span, variable(name))));
                }
            }
        },
        StmtV::Block { stmts, .. } => lemma_block(cx, st, env, stmts),
        StmtV::If { .. } => lemma_if(cx, st, env, s),
        StmtV::While { .. } => lemma_while(cx, st, env, s),
        StmtV::ForIn { .. } => lemma_for(cx, st, env, s),
        StmtV::Return { value, span } => {
            let st0 = StV { has_return: true, ..st };
            if let Some(e) = value {
                lemma_expr(cx, st0, env, e);
                if let Ok((res, st1)) = expr_ty(cx, st0, env, e) {
                    assert(keeps(st1, flow(cx, st1, env.ret_slot, res, span, "the function's return type"@)));
                }
            }
        },
        StmtV::ExprStmt { expr, .. } => lemma_expr(cx, st, env, expr),
        StmtV::DebugPrint { expr, .. } => lemma_expr(cx, st, env, expr),
        StmtV::Go { callee, args, span } => {
            lemma_exprs(cx, st, env, args, 0, Seq::empty());
            if let Ok((ts, st1)) = exprs_ty(cx, st, env, args, 0, Seq::empty()) {
                lemma_call(cx, st1, callee, ts, span);
            }
        },
        StmtV::Try { .. } => lemma_try(cx, st, env, s),
        StmtV::Throw { value, .. } => lemma_expr(cx, st, env, value),
        _ => {},
    }
}

proof fn lemma_block(cx: CxV, st: StV, env: EnvV, stmts: Seq<StmtV>)
    ensures
        keeps_env(st, block_ty(cx, st, env, stmts)),
    decreases stmts, stmts.len() + 1,
{
    lemma_stmts(cx, st, env.enter(), stmts, 0);
}

proof fn lemma_stmts(cx: CxV, st: StV, env: EnvV, stmts: Seq<StmtV>, i: int)
    ensures
        keeps_env(st, stmts_ty(cx, st, env, stmts, i)),
    decreases stmts, stmts.len() - i,
{
    if 0 <= i < stmts.len() {
        law_types_stay_locked(cx, st, env, stmts[i]);
        if let Ok((st1, env1)) = stmt_ty(cx, st, env, stmts[i]) {
            lemma_stmts(cx, st1, env1, stmts, i + 1);
        }
    }
}

proof fn lemma_fns(cx: CxV, st: StV, order: Seq<Seq<char>>, i: int)
    ensures
        keeps(st, fns_ty(cx, st, order, i)),
    decreases order.len() - i,
{
    if 0 <= i < order.len() {
        let f = cx.fns[order[i]];
        let env = EnvV { stack: seq![f.top], in_fn: true, ret_slot: f.ret_slot };
        lemma_stmts(cx, StV { has_return: false, ..st }, env, f.body, 0);
        if let Ok(st1) = fn_ty(cx, st, f) {
            assert(kept(st, st1));
            lemma_fns(cx, st1, order, i + 1);
        }
    }
}

/// All rounds over a whole program together take no type away either.
pub proof fn law_rounds_keep_types(
    cx: CxV,
    st: StV,
    env: EnvV,
    order: Seq<Seq<char>>,
    stmts: Seq<StmtV>,
    done: nat,
)
    ensures
        settle(cx, st, env, order, stmts, done) matches Ok((b, _)) ==> kept(st, b),
    decreases 33 - done,
{
    let st0 = StV { changed: false, ..st };
    lemma_fns(cx, st0, order, 0);
    if let Ok(st1) = fns_ty(cx, st0, order, 0) {
        lemma_stmts(cx, st1, env, stmts, 0);
        if let Ok((st2, env2)) = round_ty(cx, st0, env, order, stmts) {
            assert(kept(st, st2));
            if st2.changed && done < 32 {
                law_rounds_keep_types(cx, st2, env2, order, stmts, done + 1);
            }
        }
    }
}

/// A variable that has a type takes no value of another: the assignment is an error, and
/// nothing is converted.
pub proof fn law_no_value_of_another_type(
    cx: CxV,
    st: StV,
    env: EnvV,
    name: Seq<char>,
    value: ExprV,
    span: Span,
    slot: usize,
    t: Ty,
    res: TyRes,
    st1: StV,
)
    requires
        env.get(name) == Some(slot),
        expr_ty(cx, st, env, value) == Ok::<(TyRes, StV), ErrV>((res, st1)),
        slot < st.slots.len(),
        st.slots[slot as int] == Some(t),
        res.ty != t,
        res.ty != Ty::Unknown,
    ensures
        stmt_ty(cx, st, env, StmtV::Assign { name, value, span }) == Err::<(StV, EnvV), ErrV>(
            cx.fail(
                codes::TYPE_MISMATCH@,
                "type mismatch: "@ + variable(name) + " is locked to `"@ + t.text() + "`, got `"@ + res.ty.text()
                    + "`"@,
                span,
                Some("Hone types are locked after inference; no implicit conversion is allowed"@),
            ),
        ),
{
    lemma_expr(cx, st, env, value);
    assert(st1.slots[slot as int] == Some(t));
}

} // verus!
