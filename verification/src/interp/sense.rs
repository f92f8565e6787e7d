//! What a program means: the value of an expression and what a statement does to the variables,
//! told without steps, and that the steps of a running program come to it.

use vstd::prelude::*;

use super::defs::FnV;
use super::env::{env_get, env_set, no_scope, ScopeV};
use super::laws::lemma_ran_on;
use super::machine::{
    bound, call_step, dict_pairs, entering, eval_step, exec_step, fall_step, falling, give_to, giving, inside, list_pairs,
    looping, ran, ret_step, stepped, DEPTH_LIMIT, ForV, FrameV, InterpV, NowV, WantV,
};
use super::ops::{quotient, remainder};
use crate::ast::{BinOp, ExprV, ParamV, StmtV, TyName, UnOp};
use crate::builtins::WorldV;
use crate::lexer::Span;
use crate::value::ValueV;

verus! {

/// How a statement ends: the next one follows, or the function gives a value.
pub enum Flow {
    Fell,
    Gave(ValueV),
}

/// An integer as a value, where it fits.
pub open spec fn whole(n: int) -> Option<ValueV> {
    if -0x8000_0000_0000_0000 <= n <= 0x7fff_ffff_ffff_ffff {
        Some(ValueV::Int(n as i64))
    } else {
        None
    }
}

/// What an infix operator gives on integers, truths and texts.
pub open spec fn joint(op: BinOp, a: ValueV, b: ValueV) -> Option<ValueV> {
    match (a, b) {
        (ValueV::Int(x), ValueV::Int(y)) => match op {
            BinOp::Add => whole(x + y),
            BinOp::Sub => whole(x - y),
            BinOp::Mul => whole(x * y),
            BinOp::Div => if y == 0 {
                None
            } else {
                whole(quotient(x as int, y as int))
            },
            BinOp::Mod => if y == 0 || (x == i64::MIN && y == -1) {
                None
            } else {
                whole(remainder(x as int, y as int))
            },
            BinOp::Eq => Some(ValueV::Bool(x == y)),
            BinOp::Ne => Some(ValueV::Bool(x != y)),
            BinOp::Lt => Some(ValueV::Bool(x < y)),
            BinOp::Le => Some(ValueV::Bool(x <= y)),
            BinOp::Gt => Some(ValueV::Bool(x > y)),
            BinOp::Ge => Some(ValueV::Bool(x >= y)),
            _ => None,
        },
        (ValueV::Bool(x), ValueV::Bool(y)) => match op {
            BinOp::Eq => Some(ValueV::Bool(x == y)),
            BinOp::Ne => Some(ValueV::Bool(x != y)),
            _ => None,
        },
        (ValueV::Str(x), ValueV::Str(y)) => match op {
            BinOp::Add => Some(ValueV::Str(x + y)),
            BinOp::Eq => Some(ValueV::Bool(x == y)),
            BinOp::Ne => Some(ValueV::Bool(x != y)),
            _ => None,
        },
        _ => None,
    }
}

/// What a prefix operator gives.
pub open spec fn single(op: UnOp, a: ValueV) -> Option<ValueV> {
    match (op, a) {
        (UnOp::Neg, ValueV::Int(x)) => whole(-x),
        (UnOp::Not, ValueV::Bool(b)) => Some(ValueV::Bool(!b)),
        _ => None,
    }
}

/// The value that a declared variable starts with.
pub open spec fn first_value(ty: TyName) -> ValueV {
    match ty {
        TyName::Int => ValueV::Int(0),
        TyName::Float => ValueV::Float(0),
        TyName::Bool => ValueV::Bool(false),
        TyName::Str => ValueV::Str(Seq::empty()),
    }
}

/// A scope with parameters from a place on, each with its argument.
pub open spec fn with_args(ps: Seq<ParamV>, vs: Seq<ValueV>, k: int, s: ScopeV) -> ScopeV
    decreases ps.len() - k,
{
    if k < 0 || k >= ps.len() {
        s
    } else {
        with_args(ps, vs, k + 1, s.put(ps[k].name, vs[k]))
    }
}

/// The functions of a program, and how deep calls are nested.
pub struct Code {
    pub fns: Map<Seq<char>, FnV>,
    pub depth: int,
}

/// The value of an expression, with as many calls and rounds as `fuel` allows. Nothing is said of
/// what needs the world outside, and of what goes wrong.
pub open spec fn sense(c: Code, env: Seq<ScopeV>, e: ExprV, fuel: nat) -> Option<ValueV>
    decreases fuel, 0nat, e, 3nat, 0nat,
{
    match e {
        ExprV::IntLit(n, _) => Some(ValueV::Int(n)),
        ExprV::BoolLit(b, _) => Some(ValueV::Bool(b)),
        ExprV::StrLit(t, _) => Some(ValueV::Str(t)),
        ExprV::Ident { name, .. } => env_get(env, name),
        ExprV::Unary { op, expr, .. } => match sense(c, env, *expr, fuel) {
            Some(v) => single(op, v),
            None => None,
        },
        ExprV::Binary { op, lhs, rhs, .. } => match sense(c, env, *lhs, fuel) {
            None => None,
            Some(l) => if op == BinOp::And && l == ValueV::Bool(false) {
                Some(l)
            } else if op == BinOp::Or && l == ValueV::Bool(true) {
                Some(l)
            } else {
                match sense(c, env, *rhs, fuel) {
                    None => None,
                    Some(r) => if op == BinOp::And || op == BinOp::Or {
                        if l is Bool && r is Bool {
                            Some(r)
                        } else {
                            None
                        }
                    } else {
                        joint(op, l, r)
                    },
                }
            },
        },
        ExprV::ListLit(x, _) => match senses(c, env, x, 0, fuel) {
            Some(vs) => Some(ValueV::List(vs)),
            None => None,
        },
        ExprV::Call { callee, args, .. } => match senses(c, env, args, 0, fuel) {
            Some(vs) => if c.fns.dom().contains(callee) && c.fns[callee].params.len() == vs.len() && 0 <= c.depth < 5000 && fuel
                > 0 {
                match all_done(
                    Code { depth: c.depth + 1, ..c },
                    seq![with_args(c.fns[callee].params, vs, 0, no_scope())],
                    c.fns[callee].body,
                    0,
                    (fuel - 1) as nat,
                ) {
                    Some((_, Flow::Gave(v))) => Some(v),
                    Some((_, Flow::Fell)) => Some(ValueV::Null),
                    None => None,
                }
            } else {
                None
            },
            None => None,
        },
        _ => None,
    }
}

/// The values of expressions from a place on.
pub open spec fn senses(c: Code, env: Seq<ScopeV>, x: Seq<ExprV>, k: int, fuel: nat) -> Option<Seq<ValueV>>
    decreases fuel, 0nat, x, 0nat, x.len() - k,
{
    if k < 0 || k >= x.len() {
        Some(Seq::empty())
    } else {
        match sense(c, env, x[k], fuel) {
            None => None,
            Some(v) => match senses(c, env, x, k + 1, fuel) {
                None => None,
                Some(vs) => Some(seq![v] + vs),
            },
        }
    }
}

/// What a row of statements from a place on does to the variables, and how it ends.
pub open spec fn all_done(c: Code, env: Seq<ScopeV>, x: Seq<StmtV>, k: int, fuel: nat) -> Option<(Seq<ScopeV>, Flow)>
    decreases fuel, 1nat, x, 0nat, x.len() - k,
{
    if k < 0 || k >= x.len() {
        Some((env, Flow::Fell))
    } else {
        match done(c, env, x[k], fuel) {
            Some((env2, Flow::Fell)) => all_done(c, env2, x, k + 1, fuel),
            r => r,
        }
    }
}

/// What a block does: its own variables are gone behind it.
pub open spec fn block_done(c: Code, env: Seq<ScopeV>, x: Seq<StmtV>, fuel: nat) -> Option<(Seq<ScopeV>, Flow)>
    decreases fuel, 1nat, x, 1nat, 0nat,
{
    match all_done(c, env.push(no_scope()), x, 0, fuel) {
        Some((env2, f)) => Some((env2.drop_last(), f)),
        None => None,
    }
}

/// What a loop over pairs does from a place on: each round has the pair in variables of its own.
pub open spec fn rounds(
    c: Code,
    env: Seq<ScopeV>,
    var: Seq<char>,
    var2: Option<Seq<char>>,
    pairs: Seq<(ValueV, ValueV)>,
    i: int,
    body: Seq<StmtV>,
    fuel: nat,
) -> Option<(Seq<ScopeV>, Flow)>
    decreases fuel, 1nat, body, 2nat, pairs.len() - i,
{
    if i < 0 || i >= pairs.len() {
        Some((env, Flow::Fell))
    } else {
        let one = no_scope().put(var, pairs[i].0);
        let scope = match var2 {
            Some(n) => one.put(n, pairs[i].1),
            None => one,
        };
        match all_done(c, env.push(scope), body, 0, fuel) {
            Some((env2, Flow::Fell)) => rounds(c, env2.drop_last(), var, var2, pairs, i + 1, body, fuel),
            Some((env2, Flow::Gave(v))) => Some((env2.drop_last(), Flow::Gave(v))),
            None => None,
        }
    }
}

/// What a statement does to the variables, and how it ends.
pub open spec fn done(c: Code, env: Seq<ScopeV>, s: StmtV, fuel: nat) -> Option<(Seq<ScopeV>, Flow)>
    decreases fuel, 1nat, s, 3nat, 0nat,
{
    match s {
        StmtV::Assign { name, value, .. } => match sense(c, env, value, fuel) {
            Some(v) => Some((env_set(env, name, v), Flow::Fell)),
            None => None,
        },
        StmtV::VarDecl { name, ty, init, .. } => match init {
            Some(e) => match sense(c, env, e, fuel) {
                Some(v) => Some((env_set(env, name, v), Flow::Fell)),
                None => None,
            },
            None => Some((env_set(env, name, first_value(ty)), Flow::Fell)),
        },
        StmtV::ExprStmt { expr, .. } => match sense(c, env, expr, fuel) {
            Some(_) => Some((env, Flow::Fell)),
            None => None,
        },
        StmtV::Return { value, .. } => match value {
            Some(e) => match sense(c, env, e, fuel) {
                Some(v) => Some((env, Flow::Gave(v))),
                None => None,
            },
            None => Some((env, Flow::Gave(ValueV::Null))),
        },
        StmtV::Block { stmts, .. } => block_done(c, env, stmts, fuel),
        StmtV::Try { body, .. } => block_done(c, env, body, fuel),
        StmtV::If { cond, then_branch, else_branch, .. } => match sense(c, env, cond, fuel) {
            Some(ValueV::Bool(true)) => block_done(c, env, then_branch, fuel),
            Some(ValueV::Bool(false)) => match else_branch {
                Some(x) => block_done(c, env, x, fuel),
                None => Some((env, Flow::Fell)),
            },
            _ => None,
        },
        StmtV::While { cond, body, .. } => match sense(c, env, cond, fuel) {
            Some(ValueV::Bool(true)) => match block_done(c, env, body, fuel) {
                Some((env2, Flow::Fell)) => if fuel > 0 {
                    done(c, env2, s, (fuel - 1) as nat)
                } else {
                    None
                },
                r => r,
            },
            Some(ValueV::Bool(false)) => Some((env, Flow::Fell)),
            _ => None,
        },
        StmtV::ForIn { var, var2, iter, body, .. } => match sense(c, env, iter, fuel) {
            Some(ValueV::List(vs)) => if var2 is None {
                rounds(c, env, var, var2, Seq::new(vs.len(), |i: int| (vs[i], ValueV::Null)), 0, body, fuel)
            } else {
                None
            },
            Some(ValueV::Dict(es)) => rounds(
                c,
                env,
                var,
                var2,
                Seq::new(es.len(), |i: int| (ValueV::Str(es[i].0), es[i].1)),
                0,
                body,
                fuel,
            ),
            _ => None,
        },
        StmtV::FnDef { .. } | StmtV::StructDef { .. } | StmtV::Export { .. } | StmtV::Use { .. } => Some(
            (env, Flow::Fell),
        ),
        _ => None,
    }
}

/// The functions that a program has.
pub open spec fn code_of(m: InterpV) -> Code {
    Code { fns: m.fns, depth: m.depth }
}

/// The program behind a statement.
pub open spec fn behind(m: InterpV, r: (Seq<ScopeV>, Flow)) -> InterpV {
    InterpV {
        env: r.0,
        now: match r.1 {
            Flow::Fell => NowV::Fall,
            Flow::Gave(v) => NowV::Ret(v),
        },
        ..m
    }
}

/// The program with one more frame.
pub open spec fn over(m: InterpV, f: FrameV) -> InterpV {
    InterpV { frames: m.frames.push(f), ..m }
}

/// Whether some steps lead from one state of a program to another, the world unchanged and
/// nothing wanted.
pub open spec fn leads(a: InterpV, w: WorldV, k: nat, b: InterpV) -> bool {
    ran(a, w, k) == (b, w, None::<WantV>)
}

proof fn lemma_then(a: InterpV, w: WorldV, j: nat, b: InterpV, k: nat, c: InterpV)
    requires
        leads(a, w, j, b),
        leads(b, w, k, c),
    ensures
        leads(a, w, j + k, c),
{
    lemma_ran_on(a, w, j, k);
}

proof fn lemma_one(a: InterpV, w: WorldV, b: InterpV)
    requires
        stepped(a, w) == (b, w, None::<WantV>),
        !(a.now is Over),
        !(a.now is Wait),
    ensures
        leads(a, w, 1, b),
{
    assert(ran(b, w, 0) == (b, w, None::<WantV>));
}

/// A value comes to the innermost frame.
proof fn lemma_give(m: InterpV, w: WorldV, f: FrameV, v: ValueV)
    requires
        give_to(InterpV { now: NowV::Fall, ..m }, f, v).1 is None,
    ensures
        leads(giving(over(m, f), v), w, 1, give_to(InterpV { now: NowV::Fall, ..m }, f, v).0),
{
    let a = giving(over(m, f), v);
    assert(a.frames.drop_last() =~= m.frames);
    lemma_one(a, w, give_to(InterpV { now: NowV::Fall, ..m }, f, v).0);
}

/// The program goes on at the innermost frame.
proof fn lemma_fall(m: InterpV, w: WorldV, f: FrameV)
    ensures
        leads(falling(over(m, f)), w, 1, fall_step(falling(over(m, f)))),
        falling(over(m, f)).frames.last() == f,
        falling(over(m, f)).frames.drop_last() == m.frames,
{
    let a = falling(over(m, f));
    assert(a.frames.drop_last() =~= m.frames);
    lemma_one(a, w, fall_step(a));
}

/// A returned value leaves the innermost frame.
proof fn lemma_ret(m: InterpV, w: WorldV, f: FrameV, v: ValueV)
    ensures
        leads(InterpV { now: NowV::Ret(v), ..over(m, f) }, w, 1, ret_step(InterpV { now: NowV::Ret(v), ..over(m, f) }, v)),
        over(m, f).frames.last() == f,
        over(m, f).frames.drop_last() == m.frames,
{
    let a = InterpV { now: NowV::Ret(v), ..over(m, f) };
    assert(a.frames.drop_last() =~= m.frames);
    lemma_one(a, w, ret_step(a, v));
}

/// The first step of an expression.
proof fn lemma_eval(m: InterpV, w: WorldV, e: ExprV)
    requires
        eval_step(InterpV { now: NowV::Fall, ..m }, e).1 is None,
    ensures
        leads(InterpV { now: NowV::Eval(e), ..m }, w, 1, eval_step(InterpV { now: NowV::Fall, ..m }, e).0),
{
    lemma_one(InterpV { now: NowV::Eval(e), ..m }, w, eval_step(InterpV { now: NowV::Fall, ..m }, e).0);
}

/// The first step of a statement.
proof fn lemma_exec(m: InterpV, w: WorldV, s: StmtV)
    requires
        exec_step(InterpV { now: NowV::Fall, ..m }, s).1 is None,
    ensures
        leads(InterpV { now: NowV::Exec(s), ..m }, w, 1, exec_step(InterpV { now: NowV::Fall, ..m }, s).0),
{
    lemma_one(InterpV { now: NowV::Exec(s), ..m }, w, exec_step(InterpV { now: NowV::Fall, ..m }, s).0);
}

/// The operators of a running program.
proof fn lemma_operators(m: InterpV, op: BinOp, u: UnOp, a: ValueV, b: ValueV, span: Span)
    ensures
        single(u, a) matches Some(v) ==> give_to(m, FrameV::Unary(u, span), a) == (giving(m, v), None::<WantV>),
        op != BinOp::And && op != BinOp::Or ==> (joint(op, a, b) matches Some(v) ==> give_to(
            m,
            FrameV::Right(op, a, span),
            b,
        ) == (giving(m, v), None::<WantV>)),
        b is Bool ==> give_to(m, FrameV::Logic(span), b) == (giving(m, b), None::<WantV>),
{
}

/// The scope of a call.
proof fn lemma_with_args(ps: Seq<ParamV>, vs: Seq<ValueV>, k: int)
    requires
        ps.len() == vs.len(),
        0 <= k <= ps.len(),
    ensures
        with_args(ps, vs, k, bound(ps, vs, k)) == bound(ps, vs, ps.len() as int),
    decreases ps.len() - k,
{
    if k < ps.len() {
        lemma_with_args(ps, vs, k + 1);
    }
}

/// A value inside of a frame.
proof fn lemma_inside(m: InterpV, w: WorldV, f: FrameV, e: ExprV, fuel: nat) -> (k: nat)
    requires
        sense(code_of(m), m.env, e, fuel) is Some,
    ensures
        leads(inside(m, f, e), w, k, giving(over(m, f), sense(code_of(m), m.env, e, fuel)->0)),
    decreases fuel, 0nat, e, 4nat, 0nat,
{
    assert(inside(m, f, e) == (InterpV { now: NowV::Eval(e), ..over(m, f) }));
    law_expression_has_its_value(over(m, f), w, e, fuel)
}

/// A running program evaluates an expression to its value, whatever is in work around it, and
/// changes no variable.
pub proof fn law_expression_has_its_value(m: InterpV, w: WorldV, e: ExprV, fuel: nat) -> (k: nat)
    requires
        sense(code_of(m), m.env, e, fuel) is Some,
    ensures
        leads(InterpV { now: NowV::Eval(e), ..m }, w, k, giving(m, sense(code_of(m), m.env, e, fuel)->0)),
    decreases fuel, 0nat, e, 3nat, 0nat,
{
    let start = InterpV { now: NowV::Eval(e), ..m };
    let idle = InterpV { now: NowV::Fall, ..m };
    match e {
        ExprV::Unary { op, expr, span } => {
            let f = FrameV::Unary(op, span);
            let v = sense(code_of(m), m.env, *expr, fuel)->0;
            lemma_eval(m, w, e);
            let k = lemma_inside(idle, w, f, *expr, fuel);
            lemma_then(start, w, 1, inside(idle, f, *expr), k, giving(over(idle, f), v));
            lemma_operators(idle, BinOp::Add, op, v, v, span);
            lemma_give(idle, w, f, v);
            let r = single(op, v)->0;
            assert(giving(over(idle, f), v) == giving(over(m, f), v));
            lemma_then(start, w, 1 + k, giving(over(idle, f), v), 1, giving(m, r));
            1 + k + 1
        },
        ExprV::Binary { op, lhs, rhs, span } => lemma_binary(m, w, e, fuel),
        ExprV::ListLit(x, span) => {
            lemma_eval(m, w, e);
            if x.len() == 0 {
                1
            } else {
                let vs = senses(code_of(m), m.env, x, 0, fuel)->0;
                let k = lemma_list(idle, w, x, 0, Seq::empty(), fuel);
                assert(Seq::<ValueV>::empty() + vs =~= vs);
                lemma_then(start, w, 1, inside(idle, FrameV::List(x, Seq::empty()), x[0]), k, giving(m, ValueV::List(vs)));
                1 + k
            }
        },
        ExprV::Call { callee, args, span } => lemma_call(m, w, e, fuel),
        _ => {
            lemma_eval(m, w, e);
            1
        },
    }
}

#[verifier::rlimit(80)]
#[verifier::spinoff_prover]
proof fn lemma_binary(m: InterpV, w: WorldV, e: ExprV, fuel: nat) -> (k: nat)
    requires
        e is Binary,
        sense(code_of(m), m.env, e, fuel) is Some,
    ensures
        leads(InterpV { now: NowV::Eval(e), ..m }, w, k, giving(m, sense(code_of(m), m.env, e, fuel)->0)),
    decreases fuel, 0nat, e, 2nat, 0nat,
{
    let start = InterpV { now: NowV::Eval(e), ..m };
    let idle = InterpV { now: NowV::Fall, ..m };
    let (op, lhs, rhs, span) = (e->Binary_op, *e->lhs, *e->rhs, e->Binary_span);
    let f = FrameV::Left(op, rhs, span);
    let l = sense(code_of(m), m.env, lhs, fuel)->0;
    lemma_eval(m, w, e);
    let k = lemma_inside(idle, w, f, lhs, fuel);
    lemma_then(start, w, 1, inside(idle, f, lhs), k, giving(over(idle, f), l));
    lemma_give(idle, w, f, l);
    let next = give_to(idle, f, l).0;
    lemma_then(start, w, 1 + k, giving(over(idle, f), l), 1, next);
    if (op == BinOp::And && l == ValueV::Bool(false)) || (op == BinOp::Or && l == ValueV::Bool(true)) {
        1 + k + 1
    } else {
        let g = if op == BinOp::And || op == BinOp::Or {
            FrameV::Logic(span)
        } else {
            FrameV::Right(op, l, span)
        };
        let r = sense(code_of(m), m.env, rhs, fuel)->0;
        let j = lemma_inside(idle, w, g, rhs, fuel);
        lemma_then(start, w, 1 + k + 1, inside(idle, g, rhs), j, giving(over(idle, g), r));
        let out = sense(code_of(m), m.env, e, fuel)->0;
        assert(give_to(idle, g, r) == (giving(idle, out), None::<WantV>)) by {
            lemma_operators(idle, op, UnOp::Neg, l, r, span);
        }
        lemma_give(idle, w, g, r);
        lemma_then(start, w, 1 + k + 1 + j, giving(over(idle, g), r), 1, giving(m, out));
        1 + k + 1 + j + 1
    }
}

/// The items of a list, one after the other.
proof fn lemma_list(m: InterpV, w: WorldV, x: Seq<ExprV>, i: int, ready: Seq<ValueV>, fuel: nat) -> (k: nat)
    requires
        0 <= i < x.len(),
        ready.len() == i,
        m.now is Fall,
        senses(code_of(m), m.env, x, i, fuel) is Some,
    ensures
        leads(
            inside(m, FrameV::List(x, ready), x[i]),
            w,
            k,
            giving(m, ValueV::List(ready + senses(code_of(m), m.env, x, i, fuel)->0)),
        ),
    decreases fuel, 0nat, x, 5nat, x.len() - i,
{
    let f = FrameV::List(x, ready);
    let a = inside(m, f, x[i]);
    let v = sense(code_of(m), m.env, x[i], fuel)->0;
    let vs = senses(code_of(m), m.env, x, i, fuel)->0;
    let k = lemma_inside(m, w, f, x[i], fuel);
    lemma_give(m, w, f, v);
    let next = ready.push(v);
    if i + 1 < x.len() {
        let rest = senses(code_of(m), m.env, x, i + 1, fuel)->0;
        lemma_then(a, w, k, giving(over(m, f), v), 1, inside(m, FrameV::List(x, next), x[i + 1]));
        let j = lemma_list(m, w, x, i + 1, next, fuel);
        assert(next + rest =~= ready + vs);
        lemma_then(
            a,
            w,
            k + 1,
            inside(m, FrameV::List(x, next), x[i + 1]),
            j,
            giving(m, ValueV::List(ready + vs)),
        );
        k + 1 + j
    } else {
        assert(senses(code_of(m), m.env, x, i + 1, fuel)->0 =~= Seq::empty());
        assert(next =~= ready + vs);
        lemma_then(a, w, k, giving(over(m, f), v), 1, giving(m, ValueV::List(ready + vs)));
        k + 1
    }
}

/// The arguments of a call, one after the other.
proof fn lemma_args(
    m: InterpV,
    w: WorldV,
    c: Seq<char>,
    x: Seq<ExprV>,
    i: int,
    ready: Seq<ValueV>,
    span: Span,
    fuel: nat,
) -> (k: nat)
    requires
        0 <= i < x.len(),
        ready.len() == i,
        m.now is Fall,
        senses(code_of(m), m.env, x, i, fuel) is Some,
    ensures
        leads(
            inside(m, FrameV::Args(c, x, ready, span, false), x[i]),
            w,
            k,
            InterpV { now: NowV::Call(c, ready + senses(code_of(m), m.env, x, i, fuel)->0, span), ..m },
        ),
    decreases fuel, 0nat, x, 5nat, x.len() - i,
{
    let f = FrameV::Args(c, x, ready, span, false);
    let a = inside(m, f, x[i]);
    let v = sense(code_of(m), m.env, x[i], fuel)->0;
    let vs = senses(code_of(m), m.env, x, i, fuel)->0;
    let end = InterpV { now: NowV::Call(c, ready + vs, span), ..m };
    let k = lemma_inside(m, w, f, x[i], fuel);
    lemma_give(m, w, f, v);
    let next = ready.push(v);
    if i + 1 < x.len() {
        let rest = senses(code_of(m), m.env, x, i + 1, fuel)->0;
        let g = FrameV::Args(c, x, next, span, false);
        lemma_then(a, w, k, giving(over(m, f), v), 1, inside(m, g, x[i + 1]));
        let j = lemma_args(m, w, c, x, i + 1, next, span, fuel);
        assert(next + rest =~= ready + vs);
        lemma_then(a, w, k + 1, inside(m, g, x[i + 1]), j, end);
        k + 1 + j
    } else {
        assert(senses(code_of(m), m.env, x, i + 1, fuel)->0 =~= Seq::empty());
        assert(next =~= ready + vs);
        lemma_then(a, w, k, giving(over(m, f), v), 1, end);
        k + 1
    }
}

proof fn lemma_senses_len(c: Code, env: Seq<ScopeV>, x: Seq<ExprV>, k: int, fuel: nat)
    requires
        0 <= k <= x.len(),
        senses(c, env, x, k, fuel) is Some,
    ensures
        senses(c, env, x, k, fuel)->0.len() == x.len() - k,
    decreases x.len() - k,
{
    if k < x.len() {
        lemma_senses_len(c, env, x, k + 1, fuel);
    }
}

/// A call of a function of the program.
proof fn lemma_call(m: InterpV, w: WorldV, e: ExprV, fuel: nat) -> (k: nat)
    requires
        e is Call,
        sense(code_of(m), m.env, e, fuel) is Some,
    ensures
        leads(InterpV { now: NowV::Eval(e), ..m }, w, k, giving(m, sense(code_of(m), m.env, e, fuel)->0)),
    decreases fuel, 0nat, e, 2nat, 0nat,
{
    let start = InterpV { now: NowV::Eval(e), ..m };
    let idle = InterpV { now: NowV::Fall, ..m };
    let (callee, args, span) = (e->callee, e->args, e->Call_span);
    let vs = senses(code_of(m), m.env, args, 0, fuel)->0;
    let calling = InterpV { now: NowV::Call(callee, vs, span), ..m };
    lemma_eval(m, w, e);
    lemma_senses_len(code_of(m), m.env, args, 0, fuel);
    let j: nat = if args.len() == 0 {
        assert(vs =~= Seq::empty());
        1
    } else {
        let j = lemma_args(idle, w, callee, args, 0, Seq::empty(), span, fuel);
        assert(Seq::<ValueV>::empty() + vs =~= vs);
        lemma_then(start, w, 1, inside(idle, FrameV::Args(callee, args, Seq::empty(), span, false), args[0]), j, calling);
        1 + j
    };
    let i = lemma_called(m, w, callee, vs, span, (fuel - 1) as nat);
    lemma_then(start, w, j, calling, i, giving(m, sense(code_of(m), m.env, e, fuel)->0));
    j + i
}

/// What a function gives on arguments.
pub open spec fn given(c: Code, callee: Seq<char>, vs: Seq<ValueV>, fuel: nat) -> Option<ValueV> {
    match all_done(
        Code { depth: c.depth + 1, ..c },
        seq![with_args(c.fns[callee].params, vs, 0, no_scope())],
        c.fns[callee].body,
        0,
        fuel,
    ) {
        Some((_, Flow::Gave(v))) => Some(v),
        Some((_, Flow::Fell)) => Some(ValueV::Null),
        None => None,
    }
}

#[verifier::rlimit(80)]
#[verifier::spinoff_prover]
proof fn lemma_called(m: InterpV, w: WorldV, c: Seq<char>, vs: Seq<ValueV>, span: Span, fuel: nat) -> (k: nat)
    requires
        m.fns.dom().contains(c),
        m.fns[c].params.len() == vs.len(),
        0 <= m.depth < DEPTH_LIMIT,
        given(code_of(m), c, vs, fuel) is Some,
    ensures
        leads(
            InterpV { now: NowV::Call(c, vs, span), ..m },
            w,
            k,
            giving(m, given(code_of(m), c, vs, fuel)->0),
        ),
    decreases fuel, 2nat, m.fns[c].body, 6nat, 0nat,
{
    let a = InterpV { now: NowV::Call(c, vs, span), ..m };
    let f = m.fns[c];
    let scope = with_args(f.params, vs, 0, no_scope());
    lemma_with_args(f.params, vs, 0);
    let inner = InterpV { depth: m.depth + 1, env: seq![scope], frames: m.frames.push(FrameV::Body(m.env)), ..m };
    let b = falling(over(inner, FrameV::Stmts(f.body, 0)));
    assert(call_step(InterpV { now: NowV::Fall, ..a }, w, c, vs, span).0 == b);
    lemma_one(a, w, b);
    let r = all_done(code_of(inner), inner.env, f.body, 0, fuel)->0;
    let k = lemma_statements(inner, w, f.body, 0, fuel);
    lemma_then(a, w, 1, b, k, behind(inner, r));
    let under = InterpV { depth: m.depth + 1, env: r.0, ..m };
    let v = given(code_of(m), c, vs, fuel)->0;
    match r.1 {
        Flow::Fell => {
            lemma_fall(under, w, FrameV::Body(m.env));
            assert(behind(inner, r) == falling(over(under, FrameV::Body(m.env))));
        },
        Flow::Gave(v) => {
            lemma_ret(under, w, FrameV::Body(m.env), v);
            assert(behind(inner, r) == (InterpV { now: NowV::Ret(v), ..over(under, FrameV::Body(m.env)) }));
        },
    }
    lemma_then(a, w, 1 + k, behind(inner, r), 1, giving(m, v));
    1 + k + 1
}

/// A row of statements.
proof fn lemma_statements(m: InterpV, w: WorldV, x: Seq<StmtV>, i: int, fuel: nat) -> (k: nat)
    requires
        0 <= i <= x.len(),
        all_done(code_of(m), m.env, x, i, fuel) is Some,
    ensures
        leads(
            falling(over(m, FrameV::Stmts(x, i))),
            w,
            k,
            behind(m, all_done(code_of(m), m.env, x, i, fuel)->0),
        ),
    decreases fuel, 1nat, x, 0nat, x.len() - i,
{
    let a = falling(over(m, FrameV::Stmts(x, i)));
    lemma_fall(m, w, FrameV::Stmts(x, i));
    if i == x.len() {
        1
    } else {
        let next = over(m, FrameV::Stmts(x, i + 1));
        let s = x[i];
        let b = InterpV { now: NowV::Exec(s), ..next };
        assert(fall_step(a) == b);
        let r = done(code_of(m), m.env, s, fuel)->0;
        let k = law_statement_does_its_work(next, w, s, fuel);
        lemma_then(a, w, 1, b, k, behind(next, r));
        match r.1 {
            Flow::Fell => {
                let m2 = InterpV { env: r.0, ..m };
                assert(behind(next, r) == falling(over(m2, FrameV::Stmts(x, i + 1))));
                let j = lemma_statements(m2, w, x, i + 1, fuel);
                let end = behind(m, all_done(code_of(m), m.env, x, i, fuel)->0);
                assert(behind(m2, all_done(code_of(m2), m2.env, x, i + 1, fuel)->0) == end);
                lemma_then(a, w, 1 + k, behind(next, r), j, end);
                1 + k + j
            },
            Flow::Gave(v) => {
                let m2 = InterpV { env: r.0, ..m };
                lemma_ret(m2, w, FrameV::Stmts(x, i + 1), v);
                assert(behind(next, r) == (InterpV { now: NowV::Ret(v), ..over(m2, FrameV::Stmts(x, i + 1)) }));
                lemma_then(a, w, 1 + k, behind(next, r), 1, behind(m, r));
                1 + k + 1
            },
        }
    }
}

/// A block, from where it was entered.
proof fn lemma_block(m: InterpV, w: WorldV, x: Seq<StmtV>, fuel: nat) -> (k: nat)
    requires
        block_done(code_of(m), m.env, x, fuel) is Some,
    ensures
        leads(entering(m, x), w, k, behind(m, block_done(code_of(m), m.env, x, fuel)->0)),
    decreases fuel, 1nat, x, 1nat, 0nat,
{
    let inner = InterpV { env: m.env.push(no_scope()), ..over(m, FrameV::Block) };
    assert(entering(m, x) == falling(over(inner, FrameV::Stmts(x, 0))));
    let r = all_done(code_of(inner), inner.env, x, 0, fuel)->0;
    lemma_depth(code_of(inner), inner.env, x, 0, fuel);
    let k = lemma_statements(inner, w, x, 0, fuel);
    let under = InterpV { env: r.0, ..m };
    match r.1 {
        Flow::Fell => {
            lemma_fall(under, w, FrameV::Block);
            assert(behind(inner, r) == falling(over(under, FrameV::Block)));
        },
        Flow::Gave(v) => {
            lemma_ret(under, w, FrameV::Block, v);
            assert(behind(inner, r) == (InterpV { now: NowV::Ret(v), ..over(under, FrameV::Block) }));
        },
    }
    lemma_then(
        entering(m, x),
        w,
        k,
        behind(inner, r),
        1,
        behind(m, block_done(code_of(m), m.env, x, fuel)->0),
    );
    k + 1
}

/// Statements leave as many scopes as there were.
proof fn lemma_depth(c: Code, env: Seq<ScopeV>, x: Seq<StmtV>, i: int, fuel: nat)
    requires
        env.len() > 0,
        0 <= i <= x.len(),
    ensures
        all_done(c, env, x, i, fuel) matches Some(r) ==> r.0.len() == env.len(),
    decreases fuel, 1nat, x, 0nat, x.len() - i,
{
    if i < x.len() {
        lemma_depth_stmt(c, env, x[i], fuel);
        if let Some((env2, Flow::Fell)) = done(c, env, x[i], fuel) {
            lemma_depth(c, env2, x, i + 1, fuel);
        }
    }
}

proof fn lemma_depth_rounds(
    c: Code,
    env: Seq<ScopeV>,
    var: Seq<char>,
    var2: Option<Seq<char>>,
    pairs: Seq<(ValueV, ValueV)>,
    i: int,
    body: Seq<StmtV>,
    fuel: nat,
)
    requires
        env.len() > 0,
        0 <= i <= pairs.len(),
    ensures
        rounds(c, env, var, var2, pairs, i, body, fuel) matches Some(r) ==> r.0.len() == env.len(),
    decreases fuel, 1nat, body, 2nat, pairs.len() - i,
{
    if i < pairs.len() {
        let one = no_scope().put(var, pairs[i].0);
        let scope = match var2 {
            Some(n) => one.put(n, pairs[i].1),
            None => one,
        };
        lemma_depth(c, env.push(scope), body, 0, fuel);
        if let Some((env2, Flow::Fell)) = all_done(c, env.push(scope), body, 0, fuel) {
            lemma_depth_rounds(c, env2.drop_last(), var, var2, pairs, i + 1, body, fuel);
        }
    }
}

proof fn lemma_depth_block(c: Code, env: Seq<ScopeV>, x: Seq<StmtV>, fuel: nat)
    requires
        env.len() > 0,
    ensures
        block_done(c, env, x, fuel) matches Some(r) ==> r.0.len() == env.len(),
    decreases fuel, 1nat, x, 1nat, 0nat,
{
    lemma_depth(c, env.push(no_scope()), x, 0, fuel);
}

proof fn lemma_depth_stmt(c: Code, env: Seq<ScopeV>, s: StmtV, fuel: nat)
    requires
        env.len() > 0,
    ensures
        done(c, env, s, fuel) matches Some(r) ==> r.0.len() == env.len(),
    decreases fuel, 1nat, s, 3nat, 0nat,
{
    match s {
        StmtV::Block { stmts, .. } => lemma_depth_block(c, env, stmts, fuel),
        StmtV::Try { body, .. } => lemma_depth_block(c, env, body, fuel),
        StmtV::If { then_branch, else_branch, .. } => {
            lemma_depth_block(c, env, then_branch, fuel);
            if let Some(x) = else_branch {
                lemma_depth_block(c, env, x, fuel);
            }
        },
        StmtV::While { body, .. } => {
            lemma_depth_block(c, env, body, fuel);
            if let Some((env2, Flow::Fell)) = block_done(c, env, body, fuel) {
                if fuel > 0 {
                    lemma_depth_stmt(c, env2, s, (fuel - 1) as nat);
                }
            }
        },
        StmtV::ForIn { var, var2, iter, body, .. } => {
            match sense(c, env, iter, fuel) {
                Some(ValueV::List(vs)) => lemma_depth_rounds(
                    c,
                    env,
                    var,
                    var2,
                    Seq::new(vs.len(), |i: int| (vs[i], ValueV::Null)),
                    0,
                    body,
                    fuel,
                ),
                Some(ValueV::Dict(es)) => lemma_depth_rounds(
                    c,
                    env,
                    var,
                    var2,
                    Seq::new(es.len(), |i: int| (ValueV::Str(es[i].0), es[i].1)),
                    0,
                    body,
                    fuel,
                ),
                _ => {},
            }
        },
        _ => {},
    }
}

/// The rounds of a loop.
proof fn lemma_rounds(m: InterpV, w: WorldV, f: ForV, pairs: Seq<(ValueV, ValueV)>, i: int, fuel: nat) -> (k: nat)
    requires
        m.now is Fall,
        0 <= i <= pairs.len(),
        rounds(code_of(m), m.env, f.var, f.var2, pairs, i, f.body, fuel) is Some,
    ensures
        leads(
            looping(m, f, pairs, i),
            w,
            k,
            behind(m, rounds(code_of(m), m.env, f.var, f.var2, pairs, i, f.body, fuel)->0),
        ),
    decreases fuel, 1nat, f.body, 2nat, pairs.len() - i,
{
    let a = looping(m, f, pairs, i);
    if i == pairs.len() {
        0
    } else {
        let one = no_scope().put(f.var, pairs[i].0);
        let scope = match f.var2 {
            Some(n) => one.put(n, pairs[i].1),
            None => one,
        };
        let g = FrameV::For(f, pairs, i + 1);
        let inner = InterpV { env: m.env.push(scope), ..over(m, g) };
        assert(a == falling(over(inner, FrameV::Stmts(f.body, 0))));
        let r = all_done(code_of(inner), inner.env, f.body, 0, fuel)->0;
        lemma_depth(code_of(inner), inner.env, f.body, 0, fuel);
        let k = lemma_statements(inner, w, f.body, 0, fuel);
        let under = InterpV { env: r.0, ..m };
        let end = behind(m, rounds(code_of(m), m.env, f.var, f.var2, pairs, i, f.body, fuel)->0);
        match r.1 {
            Flow::Fell => {
                let m2 = InterpV { env: r.0.drop_last(), ..m };
                lemma_fall(under, w, g);
                assert(behind(inner, r) == falling(over(under, g)));
                lemma_then(a, w, k, behind(inner, r), 1, looping(m2, f, pairs, i + 1));
                let j = lemma_rounds(m2, w, f, pairs, i + 1, fuel);
                lemma_then(a, w, k + 1, looping(m2, f, pairs, i + 1), j, end);
                k + 1 + j
            },
            Flow::Gave(v) => {
                lemma_ret(under, w, g, v);
                assert(behind(inner, r) == (InterpV { now: NowV::Ret(v), ..over(under, g) }));
                lemma_then(a, w, k, behind(inner, r), 1, end);
                k + 1
            },
        }
    }
}

/// A statement that evaluates one expression inside of a frame.
proof fn lemma_with(m: InterpV, w: WorldV, s: StmtV, f: FrameV, e: ExprV, fuel: nat) -> (k: nat)
    requires
        sense(code_of(m), m.env, e, fuel) is Some,
        exec_step(InterpV { now: NowV::Fall, ..m }, s) == (inside(InterpV { now: NowV::Fall, ..m }, f, e), None::<WantV>),
        give_to(InterpV { now: NowV::Fall, ..m }, f, sense(code_of(m), m.env, e, fuel)->0).1 is None,
    ensures
        leads(
            InterpV { now: NowV::Exec(s), ..m },
            w,
            k,
            give_to(InterpV { now: NowV::Fall, ..m }, f, sense(code_of(m), m.env, e, fuel)->0).0,
        ),
    decreases fuel, 0nat, e, 5nat, 0nat,
{
    let start = InterpV { now: NowV::Exec(s), ..m };
    let idle = InterpV { now: NowV::Fall, ..m };
    let v = sense(code_of(m), m.env, e, fuel)->0;
    lemma_exec(m, w, s);
    let k = lemma_inside(idle, w, f, e, fuel);
    lemma_then(start, w, 1, inside(idle, f, e), k, giving(over(idle, f), v));
    lemma_give(idle, w, f, v);
    lemma_then(start, w, 1 + k, giving(over(idle, f), v), 1, give_to(idle, f, v).0);
    1 + k + 1
}

proof fn lemma_if(m: InterpV, w: WorldV, s: StmtV, fuel: nat) -> (k: nat)
    requires
        s is If,
        done(code_of(m), m.env, s, fuel) is Some,
    ensures
        leads(InterpV { now: NowV::Exec(s), ..m }, w, k, behind(m, done(code_of(m), m.env, s, fuel)->0)),
    decreases fuel, 1nat, s, 2nat, 0nat,
{
    let start = InterpV { now: NowV::Exec(s), ..m };
    let idle = InterpV { now: NowV::Fall, ..m };
    let (cond, yes, no) = (s->If_cond, s->then_branch, s->else_branch);
    let f = FrameV::If(cond.span(), yes, no);
    let k = lemma_with(m, w, s, f, cond, fuel);
    let end = behind(m, done(code_of(m), m.env, s, fuel)->0);
    if sense(code_of(m), m.env, cond, fuel)->0 == ValueV::Bool(true) {
        let j = lemma_block(idle, w, yes, fuel);
        lemma_then(start, w, k, entering(idle, yes), j, end);
        k + j
    } else {
        match no {
            Some(x) => {
                let j = lemma_block(idle, w, x, fuel);
                lemma_then(start, w, k, entering(idle, x), j, end);
                k + j
            },
            None => k,
        }
    }
}

/// A loop under a condition, from where the condition is tested.
proof fn lemma_while(m: InterpV, w: WorldV, s: StmtV, fuel: nat) -> (k: nat)
    requires
        s is While,
        m.now is Fall,
        done(code_of(m), m.env, s, fuel) is Some,
    ensures
        leads(
            inside(m, FrameV::WhileTest(s->While_cond, s->While_body), s->While_cond),
            w,
            k,
            behind(m, done(code_of(m), m.env, s, fuel)->0),
        ),
    decreases fuel, 1nat, s, 2nat, 0nat,
{
    let (cond, body) = (s->While_cond, s->While_body);
    let f = FrameV::WhileTest(cond, body);
    let a = inside(m, f, cond);
    let v = sense(code_of(m), m.env, cond, fuel)->0;
    let k = lemma_inside(m, w, f, cond, fuel);
    lemma_give(m, w, f, v);
    lemma_then(a, w, k, giving(over(m, f), v), 1, give_to(m, f, v).0);
    let end = behind(m, done(code_of(m), m.env, s, fuel)->0);
    if v == ValueV::Bool(false) {
        k + 1
    } else {
        let g = FrameV::WhileBody(cond, body);
        let r = block_done(code_of(m), m.env, body, fuel)->0;
        let j = lemma_block(over(m, g), w, body, fuel);
        lemma_then(a, w, k + 1, entering(over(m, g), body), j, behind(over(m, g), r));
        let under = InterpV { env: r.0, ..m };
        match r.1 {
            Flow::Fell => {
                lemma_fall(under, w, g);
                assert(behind(over(m, g), r) == falling(over(under, g)));
                lemma_then(a, w, k + 1 + j, behind(over(m, g), r), 1, inside(under, f, cond));
                let i = lemma_while(under, w, s, (fuel - 1) as nat);
                lemma_then(a, w, k + 1 + j + 1, inside(under, f, cond), i, end);
                k + 1 + j + 1 + i
            },
            Flow::Gave(v) => {
                lemma_ret(under, w, g, v);
                assert(behind(over(m, g), r) == (InterpV { now: NowV::Ret(v), ..over(under, g) }));
                lemma_then(a, w, k + 1 + j, behind(over(m, g), r), 1, end);
                k + 1 + j + 1
            },
        }
    }
}

proof fn lemma_for(m: InterpV, w: WorldV, s: StmtV, fuel: nat) -> (k: nat)
    requires
        s is ForIn,
        done(code_of(m), m.env, s, fuel) is Some,
    ensures
        leads(InterpV { now: NowV::Exec(s), ..m }, w, k, behind(m, done(code_of(m), m.env, s, fuel)->0)),
    decreases fuel, 1nat, s, 2nat, 0nat,
{
    let start = InterpV { now: NowV::Exec(s), ..m };
    let idle = InterpV { now: NowV::Fall, ..m };
    let (var, var2, iter, body, span) = (s->var, s->var2, s->iter, s->ForIn_body, s->ForIn_span);
    let f = ForV { var, var2, body, iter_span: iter.span(), span };
    let v = sense(code_of(m), m.env, iter, fuel)->0;
    let pairs = match v {
        ValueV::List(vs) => Seq::new(vs.len(), |i: int| (vs[i], ValueV::Null)),
        ValueV::Dict(es) => Seq::new(es.len(), |i: int| (ValueV::Str(es[i].0), es[i].1)),
        _ => Seq::empty(),
    };
    let k = lemma_with(m, w, s, FrameV::ForHead(f), iter, fuel);
    match v {
        ValueV::List(vs) => assert(list_pairs(vs) =~= pairs),
        ValueV::Dict(es) => assert(dict_pairs(es) =~= pairs),
        _ => {},
    }
    let j = lemma_rounds(idle, w, f, pairs, 0, fuel);
    lemma_then(start, w, k, looping(idle, f, pairs, 0), j, behind(m, done(code_of(m), m.env, s, fuel)->0));
    k + j
}

/// A running program executes a statement as it is meant: an `if` its one branch or the other, a
/// loop its body as often as its condition holds or as there are items, a block with variables
/// of its own, and a `return` ends all of them. Behind it the variables are those that the
/// statement leaves, and what was in work around it goes on.
#[verifier::rlimit(90)]
#[verifier::spinoff_prover]
pub proof fn law_statement_does_its_work(m: InterpV, w: WorldV, s: StmtV, fuel: nat) -> (k: nat)
    requires
        done(code_of(m), m.env, s, fuel) is Some,
    ensures
        leads(InterpV { now: NowV::Exec(s), ..m }, w, k, behind(m, done(code_of(m), m.env, s, fuel)->0)),
    decreases fuel, 1nat, s, 3nat, 0nat,
{
    let start = InterpV { now: NowV::Exec(s), ..m };
    let idle = InterpV { now: NowV::Fall, ..m };
    let end = behind(m, done(code_of(m), m.env, s, fuel)->0);
    match s {
        StmtV::Assign { name, value, .. } => lemma_with(m, w, s, FrameV::Store(name), value, fuel),
        StmtV::VarDecl { name, init: Some(e), .. } => lemma_with(m, w, s, FrameV::Store(name), e, fuel),
        StmtV::ExprStmt { expr, .. } => lemma_with(m, w, s, FrameV::Drop, expr, fuel),
        StmtV::Return { value: Some(e), .. } => lemma_with(m, w, s, FrameV::Return, e, fuel),
        StmtV::If { .. } => lemma_if(m, w, s, fuel),
        StmtV::ForIn { .. } => lemma_for(m, w, s, fuel),
        StmtV::While { cond, body, .. } => {
            lemma_exec(m, w, s);
            let k = lemma_while(idle, w, s, fuel);
            lemma_then(start, w, 1, inside(idle, FrameV::WhileTest(cond, body), cond), k, end);
            1 + k
        },
        StmtV::Block { stmts, .. } => {
            lemma_exec(m, w, s);
            let k = lemma_block(idle, w, stmts, fuel);
            lemma_then(start, w, 1, entering(idle, stmts), k, end);
            1 + k
        },
        StmtV::Try { body, catch_var, handler, .. } => {
            let f = FrameV::Try(catch_var, handler);
            let r = block_done(code_of(m), m.env, body, fuel)->0;
            lemma_exec(m, w, s);
            let k = lemma_block(over(idle, f), w, body, fuel);
            lemma_then(start, w, 1, entering(over(idle, f), body), k, behind(over(idle, f), r));
            let under = InterpV { env: r.0, ..idle };
            match r.1 {
                Flow::Fell => {
                    lemma_fall(under, w, f);
                    assert(behind(over(idle, f), r) == falling(over(under, f)));
                },
                Flow::Gave(v) => {
                    lemma_ret(under, w, f, v);
                    assert(behind(over(idle, f), r) == (InterpV { now: NowV::Ret(v), ..over(under, f) }));
                },
            }
            lemma_then(start, w, 1 + k, behind(over(idle, f), r), 1, end);
            1 + k + 1
        },
        _ => {
            lemma_exec(m, w, s);
            1
        },
    }
}

} // verus!
