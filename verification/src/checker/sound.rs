//! That the types which checking finds are those that running gives.

use vstd::prelude::*;

use super::rules::{
    args_flow, arity_ok, binary_ty, block_ty, builtin_ty, call_ty, condition, declare, expr_ty, field_ty, fn_ty, is_ty,
    stmt_ty, stmts_ty, throwable, unary_ty, CxV, EnvV, FnV, StV, TyRes,
};
use super::Ty;
use crate::ast::{BinOp, ExprV, StmtV, UnOp};
use crate::builtins::names::names;
use crate::builtins::world::{OutV, PlaceV};
use crate::error::ErrV;
use crate::interp::env::env_get;
use crate::interp::laws::meaning;
use crate::interp::machine::{give_to, place, thrown, FrameV, InterpV, NowV};
use crate::interp::ops::{bool_of, field_of, infix_of, prefix_of};
use crate::lexer::Span;
use crate::value::ValueV;

verus! {

/// Whether a value has a type.
pub open spec fn has(v: ValueV, t: Ty) -> bool {
    match t {
        Ty::Int => v is Int,
        Ty::Float => v is Float,
        Ty::Bool => v is Bool,
        Ty::Str => v is Str,
        Ty::Error => v is Error,
        Ty::Void => v is Null,
        Ty::Unknown => true,
    }
}

/// The type of what an infix operator gives on two types; nothing where it takes them not.
pub open spec fn infix_type(op: BinOp, a: Ty, b: Ty) -> Option<Ty> {
    match op {
        BinOp::And | BinOp::Or => if a == Ty::Bool && b == Ty::Bool {
            Some(Ty::Bool)
        } else {
            None
        },
        BinOp::Eq | BinOp::Ne => if a == b {
            Some(Ty::Bool)
        } else {
            None
        },
        BinOp::Lt | BinOp::Le | BinOp::Gt | BinOp::Ge => if a == b && (a == Ty::Int || a == Ty::Float) {
            Some(Ty::Bool)
        } else {
            None
        },
        BinOp::Add => if a == b && (a == Ty::Int || a == Ty::Float || a == Ty::Str) {
            Some(a)
        } else {
            None
        },
        BinOp::Sub | BinOp::Mul | BinOp::Div | BinOp::Mod => if a == b && (a == Ty::Int || a == Ty::Float) {
            Some(a)
        } else {
            None
        },
    }
}

/// The type of what a prefix operator gives on a type; nothing where it does not take it.
pub open spec fn prefix_type(op: UnOp, a: Ty) -> Option<Ty> {
    match op {
        UnOp::Neg => if a == Ty::Int || a == Ty::Float {
            Some(a)
        } else {
            None
        },
        UnOp::Not => if a == Ty::Bool {
            Some(Ty::Bool)
        } else {
            None
        },
    }
}

/// Whether a program is refused with a code.
pub open spec fn refused<T>(r: Result<T, ErrV>, code: Seq<char>) -> bool {
    r matches Err(e) && e.code == code
}

/// Whether running can go wrong in this way though all types fit: a division by zero or a number
/// that does not fit.
pub open spec fn of_values(e: ErrV) -> bool {
    e.code == "H009"@ || e.code == "H010"@
}

/// A prefix operator is typed as it runs. On an operand of a known type it is accepted exactly
/// where the operator gives a value on every value of that type (but for numbers that do not
/// fit), and the type found is that of the value: `!` of a `bool` is a `bool`, `-` of a number
/// is a number of its type. Anything else is a type error, in both.
pub proof fn law_prefix_types(cx: CxV, st: StV, op: UnOp, t: Ty, span: Span, p: PlaceV, v: ValueV)
    requires
        t != Ty::Unknown,
        has(v, t),
    ensures
        match prefix_type(op, t) {
            Some(u) => {
                &&& unary_ty(cx, st, op, is_ty(t), span) == Ok::<(TyRes, StV), ErrV>((is_ty(u), st))
                &&& match prefix_of(p, op, v) {
                    OutV::Value(x) => has(x, u),
                    OutV::Error(e) => e.code == "H010"@,
                    OutV::Ask(..) => false,
                }
            },
            None => {
                &&& refused(unary_ty(cx, st, op, is_ty(t), span), "H001"@)
                &&& prefix_of(p, op, v) matches OutV::Error(e) && e.code == "H001"@
            },
        },
{
}

/// An infix operator is typed as it runs. On operands of known types it is accepted exactly where
/// the operator gives a value on all values of these types (but for divisions by zero, numbers
/// that do not fit, and comparisons with what is no number), and the type found is that of the
/// value. Anything else is a type error, in both. Caught errors are left out: they are accepted
/// by `==`, and cannot be compared.
pub proof fn law_infix_types(
    cx: CxV,
    st: StV,
    op: BinOp,
    a: Ty,
    b: Ty,
    span: Span,
    p: PlaceV,
    x: ValueV,
    y: ValueV,
)
    requires
        a != Ty::Unknown,
        b != Ty::Unknown,
        a != Ty::Error,
        has(x, a),
        has(y, b),
    ensures
        match infix_type(op, a, b) {
            Some(u) => {
                &&& binary_ty(cx, st, op, is_ty(a), is_ty(b), span) == Ok::<(TyRes, StV), ErrV>((is_ty(u), st))
                &&& op != BinOp::And && op != BinOp::Or ==> match infix_of(p, op, x, y) {
                    OutV::Value(z) => has(z, u),
                    OutV::Error(e) => of_values(e) || (a == Ty::Float && u == Ty::Bool),
                    OutV::Ask(r, _) => a == Ty::Float && u == Ty::Float && r is Float,
                }
                &&& op == BinOp::And || op == BinOp::Or ==> bool_of(p, y) == OutV::Value(y)
            },
            None => {
                &&& refused(binary_ty(cx, st, op, is_ty(a), is_ty(b), span), "H001"@)
                &&& op != BinOp::And && op != BinOp::Or ==> (infix_of(p, op, x, y) matches OutV::Error(e) && e.code
                    == "H001"@)
            },
        },
{
}

/// A condition must be a `bool`: every other known type is refused, in an `if` and in a `while`, and
/// a running program refuses every other value.
pub proof fn law_conditions_are_bools(
    cx: CxV,
    st: StV,
    env: EnvV,
    cond: ExprV,
    yes: Seq<StmtV>,
    no: Option<Seq<StmtV>>,
    span: Span,
    t: Ty,
    st1: StV,
    m: InterpV,
    v: ValueV,
)
    requires
        t != Ty::Unknown,
        expr_ty(cx, st, env, cond) == Ok::<(TyRes, StV), ErrV>((is_ty(t), st1)),
        has(v, t),
    ensures
        t == Ty::Bool ==> condition(cx, st1, is_ty(t), span) == Ok::<StV, ErrV>(st1),
        t != Ty::Bool ==> {
            &&& refused(stmt_ty(cx, st, env, StmtV::If { cond, then_branch: yes, else_branch: no, span }), "H008"@)
            &&& refused(stmt_ty(cx, st, env, StmtV::While { cond, body: yes, span }), "H008"@)
            &&& give_to(m, FrameV::If(span, yes, no), v).0.now matches NowV::Raise(e) && e.code == "H008"@
            &&& give_to(m, FrameV::WhileTest(cond, yes), v).0.now matches NowV::Raise(e) && e.code == "H008"@
        },
{
}

/// The fields of a caught error are typed as they are read: where one is accepted it is there and
/// has the type found, and every other name is refused, in both.
pub proof fn law_error_fields(cx: CxV, field: Seq<char>, span: Span, p: PlaceV, v: ValueV)
    requires
        v is Error,
    ensures
        match field_ty(cx, is_ty(Ty::Error), field, span) {
            Ok(t) => t.ty != Ty::Unknown && (field_of(p, v, field) matches OutV::Value(x) && has(x, t.ty)),
            Err(e) => e.code == "H002"@ && (field_of(p, v, field) matches OutV::Error(f) && f.code == "H002"@),
        },
        field_ty(cx, is_ty(Ty::Error), "code"@, span) is Ok,
        field_ty(cx, is_ty(Ty::Error), "message"@, span) is Ok,
        field_ty(cx, is_ty(Ty::Error), "line"@, span) is Ok,
        field_ty(cx, is_ty(Ty::Error), "col"@, span) is Ok,
{
}

/// Texts and errors can be thrown, and values of no other type: checking refuses them, and running
/// raises a type error in place of what is thrown.
pub proof fn law_what_can_be_thrown(cx: CxV, t: Ty, span: Span, m: InterpV, v: ValueV)
    requires
        t != Ty::Unknown,
        has(v, t),
    ensures
        t == Ty::Str || t == Ty::Error ==> throwable(cx, is_ty(t), span) is Ok,
        t == Ty::Str ==> thrown(m, v, span).code == "H600"@ && thrown(m, v, span).msg == v->Str_0,
        t != Ty::Str && t != Ty::Error ==> {
            &&& refused(throwable(cx, is_ty(t), span), "H001"@)
            &&& thrown(m, v, span).code == "H001"@
        },
{
}

/// Whether an expression is made of literals, variables and operators, without floating-point
/// numbers, and every variable in it has a type that is found.
pub open spec fn settled(st: StV, env: EnvV, e: ExprV) -> bool
    decreases e,
{
    match e {
        ExprV::IntLit(..) | ExprV::BoolLit(..) | ExprV::StrLit(..) => true,
        ExprV::Ident { name, .. } => env.get(name) matches Some(slot) && slot < st.slots.len() && (st.slots[slot as int]
            == Some(Ty::Int) || st.slots[slot as int] == Some(Ty::Bool) || st.slots[slot as int] == Some(Ty::Str)),
        ExprV::Unary { expr, .. } => settled(st, env, *expr),
        ExprV::Binary { lhs, rhs, .. } => settled(st, env, *lhs) && settled(st, env, *rhs),
        _ => false,
    }
}

/// Whether the variables of a running program have the types that were found.
pub open spec fn typed(m: InterpV, st: StV, env: EnvV) -> bool {
    forall|name: Seq<char>|
        #![trigger env.get(name)]
        env.get(name) matches Some(slot) ==> slot < st.slots.len() && (st.slots[slot as int] matches Some(t) ==> (
        env_get(m.env, name) matches Some(v) && has(v, t)))
}

/// Checked expressions run without type errors, and to values of the type that was found: an
/// expression of literals, variables and operators that is accepted comes to a value of its type, or
/// fails for its values alone, by a division by zero or a number that does not fit.
pub proof fn law_checked_expressions_are_sound(cx: CxV, st: StV, env: EnvV, m: InterpV, e: ExprV)
    requires
        settled(st, env, e),
        typed(m, st, env),
        expr_ty(cx, st, env, e) is Ok,
    ensures
        ({
            let (res, st1) = expr_ty(cx, st, env, e)->Ok_0;
            &&& st1 == st
            &&& res.slot is None
            &&& res.ty == Ty::Int || res.ty == Ty::Bool || res.ty == Ty::Str
            &&& match meaning(m, e) {
                Some(Ok(v)) => has(v, res.ty),
                Some(Err(x)) => of_values(x),
                None => false,
            }
        }),
    decreases e,
{
    match e {
        ExprV::Ident { name, .. } => {
            assert(env.get(name) is Some);
        },
        ExprV::Unary { op, expr, span } => {
            law_checked_expressions_are_sound(cx, st, env, m, *expr);
            let t = expr_ty(cx, st, env, *expr)->Ok_0.0;
            assert(t == is_ty(t.ty));
            if let Some(Ok(v)) = meaning(m, *expr) {
                law_prefix_types(cx, st, op, t.ty, span, place(m, span), v);
            } else {
                let v = match t.ty {
                    Ty::Int => ValueV::Int(0),
                    Ty::Bool => ValueV::Bool(true),
                    _ => ValueV::Str(Seq::empty()),
                };
                law_prefix_types(cx, st, op, t.ty, span, place(m, span), v);
            }
        },
        ExprV::Binary { op, lhs, rhs, span } => {
            law_checked_expressions_are_sound(cx, st, env, m, *lhs);
            law_checked_expressions_are_sound(cx, st, env, m, *rhs);
            let l = expr_ty(cx, st, env, *lhs)->Ok_0.0;
            let r = expr_ty(cx, st, env, *rhs)->Ok_0.0;
            assert(l == is_ty(l.ty) && r == is_ty(r.ty));
            let x = sample(meaning(m, *lhs), l.ty);
            let y = sample(meaning(m, *rhs), r.ty);
            law_infix_types(cx, st, op, l.ty, r.ty, span, place(m, span), x, y);
        },
        _ => {},
    }
}

/// A value of a type: the one that is there, where there is one.
spec fn sample(r: Option<Result<ValueV, ErrV>>, t: Ty) -> ValueV {
    match r {
        Some(Ok(v)) => v,
        _ => match t {
            Ty::Int => ValueV::Int(0),
            Ty::Bool => ValueV::Bool(true),
            _ => ValueV::Str(Seq::empty()),
        },
    }
}

/// A new variable has the type of the value that it is given, and a declared one the type that stands
/// there; a value of another known type is refused.
pub proof fn law_variables_take_their_type(
    cx: CxV,
    st: StV,
    env: EnvV,
    name: Seq<char>,
    value: ExprV,
    declared: crate::ast::TyName,
    span: Span,
    t: Ty,
    st1: StV,
)
    requires
        t != Ty::Unknown,
        expr_ty(cx, st, env, value) == Ok::<(TyRes, StV), ErrV>((is_ty(t), st1)),
        env.get(name) is None,
        env.stack.len() > 0,
        st1.slots.len() < usize::MAX,
    ensures
        ({
            let r = stmt_ty(cx, st, env, StmtV::Assign { name, value, span });
            r matches Ok((st2, env2)) && (env2.get(name) matches Some(slot) && slot < st2.slots.len()
                && st2.slots[slot as int] == Some(t))
        }),
        ({
            let want = match declared {
                crate::ast::TyName::Int => Ty::Int,
                crate::ast::TyName::Float => Ty::Float,
                crate::ast::TyName::Bool => Ty::Bool,
                crate::ast::TyName::Str => Ty::Str,
            };
            let r = stmt_ty(cx, st, env, StmtV::VarDecl { name, ty: declared, init: Some(value), span });
            if want == t {
                r matches Ok((st2, env2)) && (env2.get(name) matches Some(slot) && slot < st2.slots.len()
                    && st2.slots[slot as int] == Some(t))
            } else {
                refused(r, "H001"@)
            }
        }),
{
    let env2 = env.put(name, st1.fresh());
    assert(env2.stack.last().dom().contains(name));
    assert(env2.get(name) == Some(st1.fresh()));
}

/// The arguments of a call: another number than there are parameters is refused, and so is one of
/// another known type than its parameter has; the call has the type that the function returns.
pub proof fn law_calls_fit(cx: CxV, st: StV, callee: Seq<char>, args: Seq<TyRes>, span: Span, i: int)
    requires
        cx.fns.dom().contains(callee),
    ensures
        args.len() != cx.fns[callee].param_slots.len() ==> refused(call_ty(cx, st, callee, args, span), "H011"@),
        args.len() == cx.fns[callee].param_slots.len() && 0 <= i < args.len() && args[i].ty != Ty::Unknown && (
        forall|j: int| 0 <= j <= i ==> (#[trigger] args[j]).ty != Ty::Unknown) && (forall|j: int|
            0 <= j <= i ==> (#[trigger] cx.fns[callee].param_slots[j]) < st.slots.len()
                && st.slots[cx.fns[callee].param_slots[j] as int] is Some) && st.slots[cx.fns[callee].param_slots[i] as int]
            != Some(args[i].ty) ==> refused(call_ty(cx, st, callee, args, span), "H001"@),
        call_ty(cx, st, callee, args, span) matches Ok((res, st1)) ==> res == st1.res(cx.fns[callee].ret_slot),
{
    let f = cx.fns[callee];
    if args.len() == f.param_slots.len() && 0 <= i < args.len() && (forall|j: int|
        0 <= j <= i ==> (#[trigger] args[j]).ty != Ty::Unknown) && (forall|j: int|
        0 <= j <= i ==> (#[trigger] f.param_slots[j]) < st.slots.len() && st.slots[f.param_slots[j] as int] is Some)
        && st.slots[f.param_slots[i] as int] != Some(args[i].ty) {
        lemma_misfit(cx, st, f, args, span, i, 0);
    }
}

proof fn lemma_misfit(cx: CxV, st: StV, f: FnV, args: Seq<TyRes>, span: Span, i: int, k: int)
    requires
        0 <= k <= i < args.len(),
        args.len() == f.param_slots.len(),
        forall|j: int| 0 <= j <= i ==> (#[trigger] args[j]).ty != Ty::Unknown,
        forall|j: int|
            0 <= j <= i ==> (#[trigger] f.param_slots[j]) < st.slots.len() && st.slots[f.param_slots[j] as int] is Some,
        st.slots[f.param_slots[i] as int] != Some(args[i].ty),
    ensures
        refused(args_flow(cx, st, f, args, span, k), "H001"@),
    decreases i - k,
{
    assert(args[k].ty != Ty::Unknown);
    assert(f.param_slots[k] < st.slots.len());
    if k < i && st.slots[f.param_slots[k] as int] == Some(args[k].ty) {
        lemma_misfit(cx, st, f, args, span, i, k + 1);
    }
}

/// Names that are not there are refused: a variable before it has a value, and a function that is
/// nowhere, unless functions can come from outside. A `return` outside of functions is no statement.
pub proof fn law_unknown_names(cx: CxV, st: StV, env: EnvV, name: Seq<char>, args: Seq<TyRes>, span: Span)
    ensures
        env.get(name) is None ==> refused(expr_ty(cx, st, env, ExprV::Ident { name, span }), "H002"@),
        !cx.fns.dom().contains(name) && !cx.structs.dom().contains(name) && !names().contains(name)
            && !st.ffi.dom().contains(name) && !st.has_external && !name.contains('.') ==> refused(
            call_ty(cx, st, name, args, span),
            "H002"@,
        ),
        !env.in_fn ==> refused(stmt_ty(cx, st, env, StmtV::Return { value: None, span }), "H005"@),
{
}

/// Everything in a program is checked: both branches of an `if`, the second with what the first has found,
/// the body of a loop, and every statement of a row.
pub proof fn law_all_parts_are_checked(
    cx: CxV,
    st: StV,
    env: EnvV,
    cond: ExprV,
    yes: Seq<StmtV>,
    no: Seq<StmtV>,
    span: Span,
    st1: StV,
    i: int,
)
    requires
        expr_ty(cx, st, env, cond) == Ok::<(TyRes, StV), ErrV>((is_ty(Ty::Bool), st1)),
    ensures
        stmt_ty(cx, st, env, StmtV::If { cond, then_branch: yes, else_branch: None, span }) == block_ty(cx, st1, env, yes),
        stmt_ty(cx, st, env, StmtV::If { cond, then_branch: yes, else_branch: Some(no), span }) == (match block_ty(
            cx,
            st1,
            env,
            yes,
        ) {
            Ok((st2, env2)) => block_ty(cx, st2, env2, no),
            Err(e) => Err(e),
        }),
        stmt_ty(cx, st, env, StmtV::While { cond, body: yes, span }) == block_ty(cx, st1, env, yes),
        0 <= i < yes.len() ==> stmts_ty(cx, st, env, yes, i) == (match stmt_ty(cx, st, env, yes[i]) {
            Ok((st2, env2)) => stmts_ty(cx, st2, env2, yes, i + 1),
            Err(e) => Err(e),
        }),
{
}

/// A function returns values of one type: where its result has a type, a value of another known type is
/// refused, as is `return` without a value.
pub proof fn law_returns_fit(cx: CxV, st: StV, env: EnvV, value: ExprV, span: Span, want: Ty, t: Ty)
    requires
        env.in_fn,
        env.ret_slot < st.slots.len(),
        st.slots[env.ret_slot as int] == Some(want),
        t != Ty::Unknown,
        expr_ty(cx, StV { has_return: true, ..st }, env, value) == Ok::<(TyRes, StV), ErrV>(
            (is_ty(t), StV { has_return: true, ..st }),
        ),
    ensures
        t == want ==> stmt_ty(cx, st, env, StmtV::Return { value: Some(value), span }) == Ok::<(StV, EnvV), ErrV>(
            (StV { has_return: true, ..st }, env),
        ),
        t != want ==> refused(stmt_ty(cx, st, env, StmtV::Return { value: Some(value), span }), "H001"@),
        want != Ty::Void ==> refused(stmt_ty(cx, st, env, StmtV::Return { value: None, span }), "H001"@),
{
}

/// A function that declares a result type and never returns is refused.
pub proof fn law_declared_results_are_given(cx: CxV, st: StV, f: FnV, t: Ty)
    requires
        f.ret_annot == Some(t),
        f.body.len() == 0,
        st.slots[f.ret_slot as int] == Some(t),
    ensures
        refused(fn_ty(cx, st, f), "H001"@),
{
}

/// The variable of a handler is an error.
pub proof fn law_handlers_get_errors(cx: CxV, st: StV, env: EnvV, name: Seq<char>, handler: Seq<StmtV>, span: Span)
    requires
        env.enter().get(name) is None,
        env.stack.len() > 0,
        st.slots.len() < usize::MAX,
        block_ty(cx, st, env, Seq::empty()) == Ok::<(StV, EnvV), ErrV>((st, env)),
    ensures
        ({
            let d = declare(cx, st, env.enter(), name, Some(Ty::Error), span);
            &&& d matches Ok((st2, env2)) && (env2.get(name) matches Some(slot) && slot < st2.slots.len()
                && st2.slots[slot as int] == Some(Ty::Error))
            &&& stmt_ty(
                cx,
                st,
                env,
                StmtV::Try { body: Seq::empty(), catch_var: name, handler, span },
            ) is Ok == stmts_ty(cx, d->Ok_0.0, d->Ok_0.1, handler, 0) is Ok
        }),
{
    let e = env.enter();
    let env2 = e.put(name, st.fresh());
    assert(env2.stack.last().dom().contains(name));
    assert(env2.get(name) == Some(st.fresh()));
}

/// A built-in function is refused with another number of arguments than it takes.
pub proof fn law_builtins_are_counted(cx: CxV, st: StV, name: Seq<char>, args: Seq<TyRes>, span: Span)
    requires
        super::sigs::sig_of(name) matches Some(sig) && !arity_ok(sig.arity, args.len()),
    ensures
        refused(builtin_ty(cx, st, name, args, span), "H011"@),
{
}

} // verus!
