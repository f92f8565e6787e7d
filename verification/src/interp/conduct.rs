//! What single steps of a program come to, in terms of the values that go in.

use vstd::prelude::*;

use super::defs::{renamed, stmt_fns, stmts_fns, FnV};
use super::machine::{
    call_step, eval_step, exec_step, give_to, giving, imported, inside, matching, with_text, FrameV,
    ImportV, InterpV, NowV, WantV,
};
use super::ops::{field_of, infix_of, quotient, remainder};
use crate::ast::{BinOp, ExprV, ParamV, SegV, StmtV, TyName};
use crate::builtins::world::{FloatOp, OutV, PendingV, PlaceV, RequestV};
use crate::builtins::WorldV;
use crate::error::ErrV;
use crate::lexer::Span;
use crate::text::idec;
use crate::value::{assembled, caught, floats_of, magnitude, shown, PieceV, ValueV};

verus! {

/// Division of integers: quotient and rest make up the dividend, the rest is smaller than the
/// divisor, and where it is not zero it has the sign of the dividend.
pub proof fn law_division(x: int, y: int)
    requires
        y != 0,
    ensures
        x == y * quotient(x, y) + remainder(x, y),
        -(if y < 0 { -y } else { y }) < remainder(x, y) < (if y < 0 { -y } else { y }),
        x >= 0 ==> remainder(x, y) >= 0,
        x <= 0 ==> remainder(x, y) <= 0,
{
    let a = if x < 0 { -x } else { x };
    let b = if y < 0 { -y } else { y };
    vstd::arithmetic::div_mod::lemma_fundamental_div_mod(a, b);
    vstd::arithmetic::div_mod::lemma_mod_bound(a, b);
    let q = a / b;
    let r = a % b;
    assert(a == b * q + r);
    assert(y * q == b * q || y * q == -(b * q)) by (nonlinear_arith)
        requires
            b == y || b == -y,
    ;
    assert(y * (-q) == -(y * q)) by (nonlinear_arith);
    if y > 0 {
        assert(y * q == b * q);
    } else {
        assert(y * q == -(b * q)) by (nonlinear_arith)
            requires
                b == -y,
        ;
    }
}

/// What goes wrong with integers: a division by zero is one error, and a result that does not fit
/// into 64 bits another; nothing else does.
pub proof fn law_integer_errors(p: PlaceV, op: BinOp, x: i64, y: i64)
    requires
        op == BinOp::Add || op == BinOp::Sub || op == BinOp::Mul || op == BinOp::Div || op == BinOp::Mod,
    ensures
        ({
            let r = infix_of(p, op, ValueV::Int(x), ValueV::Int(y));
            let n: int = match op {
                BinOp::Add => x + y,
                BinOp::Sub => x - y,
                BinOp::Mul => x * y,
                _ => quotient(x as int, y as int),
            };
            if (op == BinOp::Div || op == BinOp::Mod) && y == 0 {
                r matches OutV::Error(e) && e.code == "H009"@
            } else if op == BinOp::Mod {
                (r matches OutV::Value(v) && v == ValueV::Int(remainder(x as int, y as int) as i64)) || (x == i64::MIN && y
                    == -1 && (r matches OutV::Error(e) && e.code == "H010"@))
            } else if i64::MIN <= n <= i64::MAX {
                r == OutV::Value(ValueV::Int(n as i64))
            } else {
                r matches OutV::Error(e) && e.code == "H010"@
            }
        }),
{
    if op == BinOp::Mod && y != 0 {
        law_division(x as int, y as int);
        let m = remainder(x as int, y as int);
        assert(i64::MIN <= m <= i64::MAX);
        if x == i64::MIN && y == -1 {
            assert(quotient(x as int, y as int) == 0x8000_0000_0000_0000);
        }
    }
}

/// Floating-point numbers are added, subtracted, multiplied and divided outside: the operation of the
/// operator is asked for, on the operands in their order. A division by zero is an error.
pub proof fn law_floats_are_asked_for(p: PlaceV, op: BinOp, x: u64, y: u64)
    requires
        op == BinOp::Add || op == BinOp::Sub || op == BinOp::Mul || op == BinOp::Div || op == BinOp::Mod,
    ensures
        ({
            let r = infix_of(p, op, ValueV::Float(x), ValueV::Float(y));
            let f = match op {
                BinOp::Add => FloatOp::Plus,
                BinOp::Sub => FloatOp::Minus,
                BinOp::Mul => FloatOp::Times,
                BinOp::Div => FloatOp::Over,
                _ => FloatOp::Rest,
            };
            if (op == BinOp::Div || op == BinOp::Mod) && magnitude(y) == 0 {
                r matches OutV::Error(e) && e.code == "H009"@
            } else {
                r == OutV::Ask(RequestV::Float(f, x, y), PendingV::Given)
            }
        }),
{
}

/// `try` puts its handler in place and enters its block; `throw` of a text raises a user's error with
/// that text at its place, and of a caught error that error.
pub proof fn law_try_and_throw(
    m: InterpV,
    body: Seq<StmtV>,
    name: Seq<char>,
    handler: Seq<StmtV>,
    span: Span,
    s: Seq<char>,
)
    ensures
        ({
            let n = exec_step(m, StmtV::Try { body, catch_var: name, handler, span }).0;
            &&& n.frames == m.frames.push(FrameV::Try(name, handler)).push(FrameV::Block).push(FrameV::Stmts(body, 0))
            &&& n.env.len() == m.env.len() + 1
            &&& n.now is Fall
        }),
        ({
            let r = give_to(m, FrameV::Throw(span), ValueV::Str(s));
            &&& r.1 is None
            &&& r.0.frames == m.frames
            &&& r.0.now matches NowV::Raise(e) && e.code == "H600"@ && e.msg == s && e.line == span.line && e.col
                == span.col && e.file == m.file
        }),
{
}

/// A caught error tells its code, message and place.
pub proof fn law_caught_errors_tell(p: PlaceV, e: ErrV)
    ensures
        field_of(p, ValueV::Error(caught(e)), "code"@) == OutV::Value(ValueV::Str(e.code)),
        field_of(p, ValueV::Error(caught(e)), "message"@) == OutV::Value(ValueV::Str(e.msg)),
        field_of(p, ValueV::Error(caught(e)), "file"@) == OutV::Value(ValueV::Str(e.file)),
        field_of(p, ValueV::Error(caught(e)), "line"@) == OutV::Value(ValueV::Int(e.line as i64)),
        field_of(p, ValueV::Error(caught(e)), "col"@) == OutV::Value(ValueV::Int(e.col as i64)),
{
    reveal_strlit("code");
    reveal_strlit("message");
    reveal_strlit("file");
    reveal_strlit("context");
    reveal_strlit("line");
    reveal_strlit("col");
    assert("code"@.len() == 4 && "file"@.len() == 4 && "line"@.len() == 4);
    assert("code"@[0] == 'c' && "file"@[0] == 'f' && "line"@[0] == 'l');
    assert("message"@.len() == 7 && "context"@.len() == 7 && "message"@[0] == 'm' && "context"@[0] == 'c');
    assert("col"@.len() == 3);
}

/// Whether two values are of one simple type.
pub open spec fn alike(a: ValueV, b: ValueV) -> bool {
    (a is Int && b is Int) || (a is Bool && b is Bool) || (a is Str && b is Str)
}

/// A match takes the first arm whose pattern equals the value, and `_` takes anything; where no arm
/// is left there is an error.
pub proof fn law_match_takes_the_first_arm(
    m: InterpV,
    arms: Seq<(Option<ExprV>, ExprV)>,
    i: int,
    v: ValueV,
    pattern: ValueV,
    span: Span,
)
    requires
        0 <= i < arms.len(),
        alike(v, pattern),
    ensures
        give_to(m, FrameV::MatchOn(arms, span), v).0 == matching(m, arms, 0, v, span),
        arms[i].0 is None ==> matching(m, arms, i, v, span) == (InterpV { now: NowV::Eval(arms[i].1), ..m }),
        arms[i].0 matches Some(p) ==> matching(m, arms, i, v, span) == inside(m, FrameV::MatchTry(arms, i, v, span), p),
        give_to(m, FrameV::MatchTry(arms, i, v, span), pattern).0 == (if v == pattern {
            InterpV { now: NowV::Eval(arms[i].1), ..m }
        } else {
            matching(m, arms, i + 1, v, span)
        }),
        matching(m, arms, arms.len() as int, v, span).now matches NowV::Raise(e) && e.code == "H005"@,
{
}

/// The text of a value that is no floating-point number and holds none.
pub open spec fn plain_text(v: ValueV) -> Option<Seq<char>> {
    match v {
        ValueV::Int(n) => Some(idec(n as int)),
        ValueV::Bool(b) => Some(if b { "true"@ } else { "false"@ }),
        ValueV::Str(s) => Some(s),
        ValueV::Null => Some("null"@),
        _ => None,
    }
}

/// An interpolated text goes from piece to piece: text stands as it is, and an expression is evaluated
/// and its value put behind what is there.
pub proof fn law_interpolation_goes_on(
    m: InterpV,
    segs: Seq<SegV>,
    i: int,
    ready: Seq<PieceV>,
    t: Seq<char>,
    e: ExprV,
    v: ValueV,
    span: Span,
)
    requires
        0 <= i < segs.len(),
    ensures
        segs[i] == SegV::Lit(t) ==> with_text(m, segs, i, ready, span) == with_text(
            m,
            segs,
            i + 1,
            ready.push(PieceV::Text(t)),
            span,
        ),
        segs[i] == SegV::Code(e) ==> with_text(m, segs, i, ready, span) == (
            inside(m, FrameV::FStr(segs, i, ready, span), e),
            None::<WantV>,
        ),
        plain_text(v) matches Some(s) ==> give_to(m, FrameV::FStr(segs, i, ready, span), v) == with_text(
            m,
            segs,
            i + 1,
            ready.push(PieceV::Text(s)),
            span,
        ),
{
    if let Some(s) = plain_text(v) {
        assert(ready + shown(v) =~= ready.push(PieceV::Text(s)));
    }
}

/// All texts among pieces, joined.
pub open spec fn texts_joined(ps: Seq<PieceV>) -> Seq<char>
    decreases ps.len(),
{
    if ps.len() == 0 {
        Seq::empty()
    } else {
        match ps[0] {
            PieceV::Text(t) => t + texts_joined(ps.skip(1)),
            PieceV::Float(_) => texts_joined(ps.skip(1)),
        }
    }
}

proof fn lemma_assembled(ps: Seq<PieceV>, k: int, n: int)
    requires
        0 <= k <= n <= ps.len(),
        forall|i: int| 0 <= i < ps.len() ==> (#[trigger] ps[i]) is Text,
    ensures
        floats_of(ps, n).len() == 0,
        assembled(ps, Seq::empty(), k) + texts_joined(ps.skip(k)) == assembled(ps, Seq::empty(), ps.len() as int),
    decreases ps.len() - k, n,
{
    if n > 0 {
        if k < n {
            lemma_assembled(ps, k, n - 1);
        } else {
            lemma_floats(ps, n);
        }
    }
    if k < ps.len() {
        lemma_assembled(ps, k + 1, ps.len() as int);
        let t = ps[k]->Text_0;
        assert(ps[k] is Text);
        assert(ps.skip(k)[0] == ps[k]);
        assert(ps.skip(k).skip(1) =~= ps.skip(k + 1));
        assert(assembled(ps, Seq::empty(), k + 1) == assembled(ps, Seq::empty(), k) + t);
        assert(assembled(ps, Seq::empty(), k) + t + texts_joined(ps.skip(k + 1)) =~= assembled(ps, Seq::empty(), k) + (t
            + texts_joined(ps.skip(k + 1))));
    } else {
        assert(ps.skip(k) =~= Seq::empty());
        assert(assembled(ps, Seq::empty(), k) + Seq::<char>::empty() =~= assembled(ps, Seq::empty(), k));
    }
}

proof fn lemma_floats(ps: Seq<PieceV>, n: int)
    requires
        0 <= n <= ps.len(),
        forall|i: int| 0 <= i < ps.len() ==> (#[trigger] ps[i]) is Text,
    ensures
        floats_of(ps, n).len() == 0,
    decreases n,
{
    if n > 0 {
        lemma_floats(ps, n - 1);
        assert(ps[n - 1] is Text);
    }
}

/// An interpolated text comes to its pieces, joined in their order.
pub proof fn law_interpolation_joins(m: InterpV, segs: Seq<SegV>, ready: Seq<PieceV>, span: Span)
    requires
        forall|i: int| 0 <= i < ready.len() ==> (#[trigger] ready[i]) is Text,
    ensures
        with_text(m, segs, segs.len() as int, ready, span) == (
            giving(m, ValueV::Str(texts_joined(ready))),
            None::<WantV>,
        ),
{
    lemma_floats(ready, ready.len() as int);
    lemma_assembled(ready, 0, ready.len() as int);
    assert(ready.skip(0) =~= ready);
    assert(assembled(ready, Seq::empty(), 0) + texts_joined(ready) =~= texts_joined(ready));
}

/// Calls are checked: another number of arguments than parameters or fields is an error, and a struct
/// is built with its fields in their order.
pub proof fn law_calls_are_counted(m: InterpV, w: WorldV, c: Seq<char>, a: Seq<ValueV>, span: Span, i: int)
    ensures
        m.fns.dom().contains(c) && m.depth < 5000 && m.fns[c].params.len() != a.len() ==> (call_step(
            m,
            w,
            c,
            a,
            span,
        ).0.now matches NowV::Raise(e) && e.code == "H011"@),
        m.fns.dom().contains(c) && m.depth >= 5000 ==> (call_step(m, w, c, a, span).0.now matches NowV::Raise(e)
            && e.code == "H012"@),
        !m.fns.dom().contains(c) && m.structs.dom().contains(c) && m.structs[c].len() != a.len() ==> (call_step(
            m,
            w,
            c,
            a,
            span,
        ).0.now matches NowV::Raise(e) && e.code == "H011"@),
        !m.fns.dom().contains(c) && m.structs.dom().contains(c) && m.structs[c].len() == a.len() ==> (call_step(
            m,
            w,
            c,
            a,
            span,
        ).0.now matches NowV::Give(ValueV::Dict(es)) && es.len() == a.len() && (0 <= i < a.len() ==> es[i].0
            == m.structs[c][i].0 && es[i].1 == a[i])),
{
}

/// A variable that has no value cannot be read.
pub proof fn law_unset_variables(m: InterpV, name: Seq<char>, span: Span)
    requires
        super::env::env_get(m.env, name) is None,
    ensures
        eval_step(m, ExprV::Ident { name, span }).0.now matches NowV::Raise(e) && e.code == "H002"@ && e.line == span.line
            && e.col == span.col,
{
}

/// The functions of a module: under another name than its own, those that start with its name and `_`
/// start with the other instead, and all else keeps its name.
pub proof fn law_module_names(module: Seq<char>, other: Seq<char>, rest: Seq<char>, name: Seq<char>)
    ensures
        other != module ==> renamed(module + "_"@ + rest, module, other) == other + "_"@ + rest,
        renamed(name, module, module) == name,
        (forall|x: Seq<char>| name != module + "_"@ + x) ==> renamed(name, module, other) == name,
{
    let old = module + "_"@;
    let full = module + "_"@ + rest;
    assert(full.take(old.len() as int) =~= old);
    assert(full.skip(old.len() as int) =~= rest);
    if crate::words::starts(name, old) {
        assert(name =~= old + name.skip(old.len() as int));
    }
}

/// A module runs in variables of its own, and its importer goes on with its own behind it.
pub proof fn law_modules_have_their_own_variables(m: InterpV, i: ImportV, x: Seq<StmtV>)
    ensures
        ({
            let n = imported(m, i, x).0;
            &&& n.env.len() == 1
            &&& n.env[0].vals.dom() =~= Set::<Seq<char>>::empty()
            &&& n.frames == m.frames.push(FrameV::Module(m.env)).push(FrameV::Stmts(x, 0))
            &&& n.depth == m.depth
        }),
{
}

/// A function whose body defines none is found under its name, with its parameters and its body, and no
/// other function changes; a temporary one is not found.
pub proof fn law_functions_are_found(
    name: Seq<char>,
    params: Seq<ParamV>,
    ret: Option<TyName>,
    body: Seq<StmtV>,
    span: Span,
    m: Map<Seq<char>, FnV>,
)
    requires
        forall|x: Map<Seq<char>, FnV>| #[trigger] stmts_fns(body, body.len() as int, x) == x,
    ensures
        stmt_fns(StmtV::FnDef { name, params, ret, body, span, tmp: false }, m) == m.insert(name, FnV { params, body }),
        stmt_fns(StmtV::FnDef { name, params, ret, body, span, tmp: true }, m) == m,
{
    let with = m.insert(name, FnV { params, body });
    assert(stmts_fns(body, body.len() as int, with) == with);
    assert(stmts_fns(body, body.len() as int, m) == m);
}

} // verus!
