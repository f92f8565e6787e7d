//! What holds of every running program.

use vstd::prelude::*;

use super::env::{closed_scope, no_scope, ScopeV};
use super::machine::{
    absorbed, adopting, answered, call_step, entering, eval_step, exec_step, fall_step, falling,
    fetched, fetching, forked, give_to, giving, import_answered, inside, instance, invoking,
    loading, looping, matching, raise_step, raising, ran, ret_step, shallower, started, stepped,
    thrown, waiting, with_text, DEPTH_LIMIT, AnswerV, ForV, FrameV, ImportV, InterpV, LoadV, NowV, WantV,
};
use super::ops::field_of;
use crate::ast::{BinOp, ExprV, SegV, StmtV, TyName};
use crate::builtins::basics::key_place;
use crate::builtins::names::names;
use crate::builtins::world::{OutV, PlaceV, ReplyV};
use crate::builtins::WorldV;
use crate::error::{codes, ErrV};
use crate::lexer::Span;
use crate::value::{caught, PieceV, ValueV};

verus! {

/// An error inside a `try` comes to the innermost handler around it, whatever was in work in
/// between: the handler runs next, with the error under its name, and neither the world nor
/// anything outside the `try` has changed.
pub proof fn law_error_reaches_handler(
    m: InterpV,
    w: WorldV,
    e: ErrV,
    base: Seq<FrameV>,
    name: Seq<char>,
    handler: Seq<StmtV>,
    upper: Seq<FrameV>,
)
    requires
        m.now == NowV::Raise(e),
        m.frames == base.push(FrameV::Try(name, handler)) + upper,
        forall|i: int| 0 <= i < upper.len() ==> !((#[trigger] upper[i]) is Try),
    ensures
        ({
            let (n, w2, want) = ran(m, w, (upper.len() + 1) as nat);
            &&& w2 == w
            &&& want is None
            &&& n.now is Fall
            &&& n.frames == base.push(FrameV::Block).push(FrameV::Stmts(handler, 0))
            &&& n.env.len() > 0
            &&& n.env.last() == no_scope().put(name, ValueV::Error(caught(e)))
        }),
    decreases upper.len(),
{
    let (n, w2, want) = stepped(m, w);
    if upper.len() == 0 {
        assert(m.frames =~= base.push(FrameV::Try(name, handler)));
        assert(m.frames.drop_last() =~= base);
        assert(ran(n, w, 0) == (n, w, None::<WantV>));
        assert(n.env.last() == no_scope().put(name, ValueV::Error(caught(e))));
    } else {
        assert(m.frames.last() == upper.last());
        assert(m.frames.drop_last() =~= base.push(FrameV::Try(name, handler)) + upper.drop_last());
        assert forall|i: int| 0 <= i < upper.drop_last().len() implies !((#[trigger] upper.drop_last()[i]) is Try) by {
            assert(!(upper[i] is Try));
        }
        law_error_reaches_handler(n, w, e, base, name, handler, upper.drop_last());
    }
}

/// A returned value comes to the caller, whatever blocks and loops it was returned from: the
/// caller goes on with the value, and with its own variables as they were.
pub proof fn law_value_reaches_caller(
    m: InterpV,
    w: WorldV,
    v: ValueV,
    base: Seq<FrameV>,
    env: Seq<ScopeV>,
    upper: Seq<FrameV>,
)
    requires
        m.now == NowV::Ret(v),
        m.frames == base.push(FrameV::Body(env)) + upper,
        forall|i: int|
            0 <= i < upper.len() ==> !((#[trigger] upper[i]) is Body) && !(upper[i] is Module),
    ensures
        ({
            let (n, w2, want) = ran(m, w, (upper.len() + 1) as nat);
            &&& w2 == w
            &&& want is None
            &&& n == (InterpV {
                now: NowV::Give(v),
                frames: base,
                env,
                depth: shallower(m.depth),
                ..m
            })
        }),
    decreases upper.len(),
{
    let (n, w2, want) = stepped(m, w);
    if upper.len() == 0 {
        assert(m.frames =~= base.push(FrameV::Body(env)));
        assert(m.frames.drop_last() =~= base);
        assert(ran(n, w, 0) == (n, w, None::<WantV>));
    } else {
        assert(m.frames.last() == upper.last());
        assert(m.frames.drop_last() =~= base.push(FrameV::Body(env)) + upper.drop_last());
        assert forall|i: int| 0 <= i < upper.drop_last().len() implies !((#[trigger] upper.drop_last()[i]) is Body) && !(
        upper.drop_last()[i] is Module) by {
            assert(!(upper[i] is Body));
        }
        law_value_reaches_caller(n, w, v, base, env, upper.drop_last());
    }
}

/// A caught error that is thrown again is the same error: it keeps its code, its message and
/// its place.
pub proof fn law_rethrow_keeps_the_error(m: InterpV, e: ErrV, span: Span)
    requires
        e.file == m.file,
    ensures
        thrown(m, ValueV::Error(caught(e)), span).code == e.code,
        thrown(m, ValueV::Error(caught(e)), span).msg == e.msg,
        thrown(m, ValueV::Error(caught(e)), span).file == e.file,
        thrown(m, ValueV::Error(caught(e)), span).line == e.line,
        thrown(m, ValueV::Error(caught(e)), span).col == e.col,
{
}

/// A thrown text is a user's error with that text, at the place of the `throw`.
pub proof fn law_thrown_text(m: InterpV, s: Seq<char>, span: Span)
    ensures
        thrown(m, ValueV::Str(s), span).code == codes::THROW@,
        thrown(m, ValueV::Str(s), span).msg == s,
        thrown(m, ValueV::Str(s), span).line == span.line,
        thrown(m, ValueV::Str(s), span).col == span.col,
{
}

/// A program that is started with `go` shares no variables with the one that starts it: it
/// begins with none, and the other goes on as it was. Functions, structs, other names and the
/// paths of lazily loaded libraries are those of the other; loaded libraries are not.
pub proof fn law_go_shares_no_variables(m: InterpV, callee: Seq<char>, es: Seq<ExprV>, done: Seq<ValueV>, v: ValueV, span: Span)
    requires
        done.len() + 1 == es.len(),
    ensures
        give_to(m, FrameV::Args(callee, es, done, span, true), v) == (
            falling(m),
            Some(WantV::Spawn(forked(m, callee, done.push(v), span))),
        ),
        forked(m, callee, done.push(v), span).env == seq![no_scope()],
        forked(m, callee, done.push(v), span).frames == Seq::<FrameV>::empty(),
        forked(m, callee, done.push(v), span).libs == Set::<Seq<char>>::empty(),
        forked(m, callee, done.push(v), span).fns == m.fns,
        forked(m, callee, done.push(v), span).structs == m.structs,
        forked(m, callee, done.push(v), span).aliases == m.aliases,
        forked(m, callee, done.push(v), span).lazy_libs == m.lazy_libs,
{
}

/// Without debugging, breakpoints and debug output do nothing: not even the expression is
/// evaluated.
pub proof fn law_debugging_is_silent(m: InterpV, s: StmtV)
    requires
        !m.debug,
        s is Breakpoint || s is DebugPrint,
    ensures
        exec_step(m, s) == (falling(m), None::<WantV>),
{
}

/// `&&` and `||` look at their right side only where the left one leaves the answer open.
pub proof fn law_short_circuit(m: InterpV, rhs: ExprV, span: Span)
    ensures
        give_to(m, FrameV::Left(BinOp::And, rhs, span), ValueV::Bool(false)) == (
            giving(m, ValueV::Bool(false)),
            None::<WantV>,
        ),
        give_to(m, FrameV::Left(BinOp::Or, rhs, span), ValueV::Bool(true)) == (
            giving(m, ValueV::Bool(true)),
            None::<WantV>,
        ),
        give_to(m, FrameV::Left(BinOp::And, rhs, span), ValueV::Bool(true)) == (
            inside(m, FrameV::Logic(span), rhs),
            None::<WantV>,
        ),
        give_to(m, FrameV::Left(BinOp::Or, rhs, span), ValueV::Bool(false)) == (
            inside(m, FrameV::Logic(span), rhs),
            None::<WantV>,
        ),
{
}

proof fn lemma_key(es: Seq<(Seq<char>, ValueV)>, i: int, j: int)
    requires
        0 <= j <= i < es.len(),
        forall|k: int| 0 <= k < i ==> (#[trigger] es[k]).0 != es[i].0,
    ensures
        key_place(es, es[i].0, j) == Some(i),
    decreases i - j,
{
    if j < i {
        lemma_key(es, i, j + 1);
    }
}

/// A field of a struct that was built is the argument at its place.
pub proof fn law_fields_read_back(
    p: PlaceV,
    fields: Seq<(Seq<char>, TyName)>,
    args: Seq<ValueV>,
    i: int,
)
    requires
        fields.len() == args.len(),
        0 <= i < fields.len(),
        forall|k: int| 0 <= k < i ==> (#[trigger] fields[k]).0 != fields[i].0,
    ensures
        field_of(p, ValueV::Dict(instance(fields, args)), fields[i].0) == OutV::Value(args[i]),
{
    let es = instance(fields, args);
    assert forall|k: int| 0 <= k < i implies (#[trigger] es[k]).0 != es[i].0 by {
        assert(fields[k].0 != fields[i].0);
    }
    lemma_key(es, i, 0);
}

/// Whether there is a scope for every block and loop that is open, and one more, in every
/// function that is in work; `len` is the number of scopes of the innermost.
pub open spec fn scoped(len: nat, frames: Seq<FrameV>, n: int) -> bool
    decreases n,
{
    if n <= 0 || n > frames.len() {
        len >= 1
    } else {
        match frames[n - 1] {
            FrameV::Body(e) | FrameV::Module(e) => len >= 1 && scoped(e.len(), frames, n - 1),
            FrameV::Block | FrameV::For(..) => len >= 2 && scoped((len - 1) as nat, frames, n - 1),
            _ => scoped(len, frames, n - 1),
        }
    }
}

/// Whether a program has all the scopes that it needs.
pub open spec fn sound(m: InterpV) -> bool {
    scoped(m.env.len(), m.frames, m.frames.len() as int)
}

/// Whether a frame opens no scope and keeps none.
pub open spec fn plain(f: FrameV) -> bool {
    !(f is Body) && !(f is Module) && !(f is Block) && !(f is For)
}

proof fn lemma_prefix(len: nat, a: Seq<FrameV>, b: Seq<FrameV>, n: int)
    requires
        n <= a.len(),
        n <= b.len(),
        forall|i: int| 0 <= i < n ==> a[i] == b[i],
    ensures
        scoped(len, a, n) == scoped(len, b, n),
    decreases n,
{
    if n > 0 {
        match a[n - 1] {
            FrameV::Body(e) | FrameV::Module(e) => lemma_prefix(e.len(), a, b, n - 1),
            FrameV::Block | FrameV::For(..) => {
                if len >= 2 {
                    lemma_prefix((len - 1) as nat, a, b, n - 1);
                }
            },
            _ => lemma_prefix(len, a, b, n - 1),
        }
    }
}

proof fn lemma_more(len: nat, more: nat, frames: Seq<FrameV>, n: int)
    requires
        scoped(len, frames, n),
        len <= more,
    ensures
        scoped(more, frames, n),
        len >= 1,
    decreases n,
{
    if 0 < n <= frames.len() {
        match frames[n - 1] {
            FrameV::Body(e) | FrameV::Module(e) => {},
            FrameV::Block | FrameV::For(..) => lemma_more((len - 1) as nat, (more - 1) as nat, frames, n - 1),
            _ => lemma_more(len, more, frames, n - 1),
        }
    }
}

proof fn lemma_push(len: nat, frames: Seq<FrameV>, f: FrameV)
    ensures
        plain(f) ==> scoped(len, frames.push(f), frames.len() as int + 1) == scoped(len, frames, frames.len() as int),
        f is Block || f is For ==> (scoped(len, frames.push(f), frames.len() as int + 1) == (len >= 2 && scoped(
            (len - 1) as nat,
            frames,
            frames.len() as int,
        ))),
        f matches FrameV::Body(e) ==> (scoped(len, frames.push(f), frames.len() as int + 1) == (len >= 1 && scoped(
            e.len(),
            frames,
            frames.len() as int,
        ))),
        f matches FrameV::Module(e) ==> (scoped(len, frames.push(f), frames.len() as int + 1) == (len >= 1 && scoped(
            e.len(),
            frames,
            frames.len() as int,
        ))),
{
    let g = frames.push(f);
    lemma_prefix(len, g, frames, frames.len() as int);
    if len >= 2 {
        lemma_prefix((len - 1) as nat, g, frames, frames.len() as int);
    }
    match f {
        FrameV::Body(e) | FrameV::Module(e) => lemma_prefix(e.len(), g, frames, frames.len() as int),
        _ => {},
    }
}

proof fn lemma_pop(len: nat, frames: Seq<FrameV>)
    requires
        frames.len() > 0,
    ensures
        plain(frames.last()) ==> scoped(len, frames, frames.len() as int) == scoped(
            len,
            frames.drop_last(),
            frames.len() - 1,
        ),
        frames.last() is Block || frames.last() is For ==> (scoped(len, frames, frames.len() as int) == (len >= 2
            && scoped((len - 1) as nat, frames.drop_last(), frames.len() - 1))),
        frames.last() matches FrameV::Body(e) ==> (scoped(len, frames, frames.len() as int) == (len >= 1 && scoped(
            e.len(),
            frames.drop_last(),
            frames.len() - 1,
        ))),
        frames.last() matches FrameV::Module(e) ==> (scoped(len, frames, frames.len() as int) == (len >= 1 && scoped(
            e.len(),
            frames.drop_last(),
            frames.len() - 1,
        ))),
{
    assert(frames.drop_last().push(frames.last()) =~= frames);
    lemma_push(len, frames.drop_last(), frames.last());
}

proof fn lemma_inside(m: InterpV, f: FrameV, e: ExprV)
    requires
        sound(m),
        plain(f),
    ensures
        sound(inside(m, f, e)),
        sound(waiting(m, f)),
        sound(InterpV { frames: m.frames.push(f), ..m }),
{
    lemma_push(m.env.len(), m.frames, f);
}

proof fn lemma_entering(m: InterpV, ss: Seq<StmtV>)
    requires
        sound(m),
    ensures
        sound(entering(m, ss)),
{
    let f1 = m.frames.push(FrameV::Block);
    lemma_more(m.env.len(), m.env.len(), m.frames, m.frames.len() as int);
    lemma_push(m.env.len() + 1, m.frames, FrameV::Block);
    lemma_push(m.env.len() + 1, f1, FrameV::Stmts(ss, 0));
}

proof fn lemma_absorbed(m: InterpV, o: OutV, span: Span)
    requires
        sound(m),
    ensures
        sound(absorbed(m, o, span).0),
{
    match o {
        OutV::Ask(_, p) => lemma_inside(m, FrameV::Ask(p, span), ExprV::BoolLit(true, span)),
        _ => {},
    }
}

proof fn lemma_with_text(m: InterpV, segs: Seq<SegV>, i: int, ps: Seq<PieceV>, span: Span)
    requires
        sound(m),
    ensures
        sound(with_text(m, segs, i, ps, span).0),
{
    let (k, qs) = super::machine::literal_pieces(segs, i, ps);
    if 0 <= k < segs.len() && segs[k] is Code {
        lemma_inside(m, FrameV::FStr(segs, k, qs, span), segs[k]->Code_0);
    } else {
        lemma_absorbed(m, crate::builtins::basics::showing(qs, false), span);
    }
}

proof fn lemma_eval(m: InterpV, e: ExprV)
    requires
        sound(m),
    ensures
        sound(eval_step(m, e).0),
{
    match e {
        ExprV::FloatLit(t, s) => lemma_absorbed(
            m,
            OutV::Ask(
                crate::builtins::world::RequestV::FloatFromText(t),
                crate::builtins::world::PendingV::ToFloat(t),
            ),
            s,
        ),
        ExprV::ListLit(items, _) => {
            if items.len() > 0 {
                lemma_inside(m, FrameV::List(items, Seq::empty()), items[0]);
            }
        },
        ExprV::DictLit(es, _) => {
            if es.len() > 0 {
                lemma_inside(m, FrameV::Dict(es, Seq::empty()), es[0].1);
            }
        },
        ExprV::FStr(segs, s) => lemma_with_text(m, segs, 0, Seq::empty(), s),
        ExprV::Field { obj, field, span } => lemma_inside(m, FrameV::Field(field, span), *obj),
        ExprV::Unary { op, expr, span } => lemma_inside(m, FrameV::Unary(op, span), *expr),
        ExprV::Binary { op, lhs, rhs, span } => lemma_inside(m, FrameV::Left(op, *rhs, span), *lhs),
        ExprV::Call { callee, args, span } => {
            if args.len() > 0 {
                lemma_inside(m, FrameV::Args(callee, args, Seq::empty(), span, false), args[0]);
            }
        },
        ExprV::Match { value, arms, span } => lemma_inside(m, FrameV::MatchOn(arms, span), *value),
        _ => {},
    }
}

proof fn lemma_loading(m: InterpV, l: LoadV)
    requires
        sound(m),
    ensures
        sound(loading(m, l).0),
{
    lemma_push(m.env.len(), m.frames, FrameV::LoadLib(l));
}

proof fn lemma_exec(m: InterpV, s: StmtV)
    requires
        sound(m),
    ensures
        sound(exec_step(m, s).0),
{
    match s {
        StmtV::VarDecl { name, init, .. } => {
            if let Some(e) = init {
                lemma_inside(m, FrameV::Store(name), e);
            }
        },
        StmtV::Assign { name, value, .. } => lemma_inside(m, FrameV::Store(name), value),
        StmtV::Block { stmts, .. } => lemma_entering(m, stmts),
        StmtV::If { cond, then_branch, else_branch, .. } => lemma_inside(
            m,
            FrameV::If(cond.span(), then_branch, else_branch),
            cond,
        ),
        StmtV::While { cond, body, .. } => lemma_inside(m, FrameV::WhileTest(cond, body), cond),
        StmtV::ForIn { var, var2, iter, body, span } => lemma_inside(
            m,
            FrameV::ForHead(ForV { var, var2, body, iter_span: iter.span(), span }),
            iter,
        ),
        StmtV::Return { value, .. } => {
            if let Some(e) = value {
                lemma_inside(m, FrameV::Return, e);
            }
        },
        StmtV::ExprStmt { expr, .. } => lemma_inside(m, FrameV::Drop, expr),
        StmtV::Breakpoint { span } => {
            if m.debug {
                let n = InterpV { frames: m.frames.push(FrameV::Pause), ..m };
                lemma_inside(m, FrameV::Pause, ExprV::BoolLit(true, span));
                lemma_absorbed(
                    n,
                    crate::builtins::basics::showing(super::machine::snapshot(m, span), true),
                    span,
                );
            }
        },
        StmtV::Import { name, url, alias, span } => {
            let i = ImportV { name, url, alias, span };
            lemma_push(m.env.len(), m.frames, FrameV::ImportCache(i));
            lemma_push(m.env.len(), m.frames, FrameV::ImportText(i));
        },
        StmtV::Load { lazy, path, alias, from, sigs, span } => {
            let l = LoadV { lazy, path, alias, sigs, span };
            match from {
                Some(h) => lemma_push(m.env.len(), m.frames, FrameV::LoadHeader(l, h)),
                None => lemma_loading(m, l),
            }
        },
        StmtV::Go { callee, args, span } => {
            if args.len() > 0 {
                lemma_inside(m, FrameV::Args(callee, args, Seq::empty(), span, true), args[0]);
            }
        },
        StmtV::DebugPrint { expr, .. } => {
            if m.debug {
                lemma_inside(m, FrameV::Debug, expr);
            }
        },
        StmtV::Try { body, catch_var, handler, .. } => {
            let n = InterpV { frames: m.frames.push(FrameV::Try(catch_var, handler)), ..m };
            lemma_push(m.env.len(), m.frames, FrameV::Try(catch_var, handler));
            lemma_entering(n, body);
        },
        StmtV::Throw { value, span } => lemma_inside(m, FrameV::Throw(span), value),
        _ => {},
    }
}

proof fn lemma_looping(m: InterpV, f: ForV, pairs: Seq<(ValueV, ValueV)>, i: int)
    requires
        sound(m),
    ensures
        sound(looping(m, f, pairs, i)),
{
    if 0 <= i < pairs.len() {
        let f1 = m.frames.push(FrameV::For(f, pairs, i + 1));
        lemma_more(m.env.len(), m.env.len(), m.frames, m.frames.len() as int);
        lemma_push(m.env.len() + 1, m.frames, FrameV::For(f, pairs, i + 1));
        lemma_push(m.env.len() + 1, f1, FrameV::Stmts(f.body, 0));
    }
}

proof fn lemma_matching(m: InterpV, arms: Seq<(Option<ExprV>, ExprV)>, i: int, v: ValueV, span: Span)
    requires
        sound(m),
    ensures
        sound(matching(m, arms, i, v, span)),
{
    if 0 <= i < arms.len() {
        if let Some(p) = arms[i].0 {
            lemma_inside(m, FrameV::MatchTry(arms, i, v, span), p);
        }
    }
}

proof fn lemma_give(m: InterpV, f: FrameV, v: ValueV)
    requires
        sound(m),
        plain(f),
    ensures
        sound(give_to(m, f, v).0),
{
    match f {
        FrameV::If(_, t, e) => {
            lemma_entering(m, t);
            if let Some(x) = e {
                lemma_entering(m, x);
            }
        },
        FrameV::WhileTest(c, b) => {
            let n = InterpV { frames: m.frames.push(FrameV::WhileBody(c, b)), ..m };
            lemma_push(m.env.len(), m.frames, FrameV::WhileBody(c, b));
            lemma_entering(n, b);
        },
        FrameV::ForHead(r) => match v {
            ValueV::List(vs) => lemma_looping(m, r, super::machine::list_pairs(vs), 0),
            ValueV::Dict(es) => lemma_looping(m, r, super::machine::dict_pairs(es), 0),
            _ => {},
        },
        FrameV::Debug => {
            let n = InterpV { frames: m.frames.push(FrameV::Drop), ..m };
            lemma_push(m.env.len(), m.frames, FrameV::Drop);
            lemma_absorbed(
                n,
                crate::builtins::basics::showing(
                    seq![PieceV::Text("[debug] "@)] + crate::value::shown(v),
                    true,
                ),
                Span { line: 0, col: 0, len: 0 },
            );
        },
        FrameV::List(es, d) => {
            let d2 = d.push(v);
            if d2.len() < es.len() {
                lemma_inside(m, FrameV::List(es, d2), es[d2.len() as int]);
            }
        },
        FrameV::Dict(es, d) => {
            if d.len() < es.len() {
                let d2 = d.push((es[d.len() as int].0, v));
                if d2.len() < es.len() {
                    lemma_inside(m, FrameV::Dict(es, d2), es[d2.len() as int].1);
                }
            }
        },
        FrameV::FStr(segs, i, ps, span) => lemma_with_text(m, segs, i + 1, ps + crate::value::shown(v), span),
        FrameV::Field(n, span) => lemma_absorbed(m, field_of(super::machine::place(m, span), v, n), span),
        FrameV::Unary(op, span) => lemma_absorbed(
            m,
            super::ops::prefix_of(super::machine::place(m, span), op, v),
            span,
        ),
        FrameV::Left(op, rhs, span) => {
            lemma_inside(m, FrameV::Logic(span), rhs);
            lemma_inside(m, FrameV::Right(op, v, span), rhs);
        },
        FrameV::Right(op, l, span) => lemma_absorbed(
            m,
            super::ops::infix_of(super::machine::place(m, span), op, l, v),
            span,
        ),
        FrameV::Logic(span) => lemma_absorbed(m, super::ops::bool_of(super::machine::place(m, span), v), span),
        FrameV::MatchOn(arms, span) => lemma_matching(m, arms, 0, v, span),
        FrameV::MatchTry(arms, i, w, span) => lemma_matching(m, arms, i + 1, w, span),
        FrameV::Args(c, es, d, span, go) => {
            let d2 = d.push(v);
            if d2.len() < es.len() {
                lemma_inside(m, FrameV::Args(c, es, d2, span, go), es[d2.len() as int]);
            }
        },
        FrameV::Pause => lemma_push(m.env.len(), m.frames, FrameV::Paused),
        _ => {},
    }
}

proof fn lemma_invoking(m: InterpV, c: Seq<char>, a: Seq<ValueV>, span: Span)
    requires
        sound(m),
    ensures
        sound(invoking(m, c, a, span).0),
{
    let lib = super::machine::lib_of(c);
    let func = super::machine::func_of(c);
    if m.sigs.dom().contains(c) {
        lemma_push(m.env.len(), m.frames, FrameV::LibCall(m.sigs[c].ret, func, lib, span));
    } else {
        lemma_push(m.env.len(), m.frames, FrameV::LibCall(crate::ast::FfiTy::Int, func, lib, span));
    }
}

proof fn lemma_call(m: InterpV, w: WorldV, c: Seq<char>, a: Seq<ValueV>, span: Span)
    requires
        sound(m),
    ensures
        sound(call_step(m, w, c, a, span).0),
{
    if m.fns.dom().contains(c) {
        let f1 = m.frames.push(FrameV::Body(m.env));
        lemma_push(1, m.frames, FrameV::Body(m.env));
        lemma_push(1, f1, FrameV::Stmts(m.fns[c].body, 0));
    } else if !m.structs.dom().contains(c) {
        let (_, o) = crate::builtins::called(w, super::machine::place(m, span), c, a);
        lemma_absorbed(m, o, span);
        let lib = super::machine::lib_of(c);
        if m.libs.contains(lib) {
            lemma_invoking(m, c, a, span);
        } else if m.lazy_libs.dom().contains(lib) {
            lemma_push(m.env.len(), m.frames, FrameV::CallLoad(c, a, span, m.lazy_libs[lib]));
        } else if let Some(path) = w.plugins.get(lib) {
            lemma_push(m.env.len(), m.frames, FrameV::CallLoad(c, a, span, path));
        }
    }
}

proof fn lemma_leaving(m: InterpV)
    requires
        sound(m),
    ensures
        sound(fall_step(m)),
        forall|v: ValueV| sound(#[trigger] ret_step(m, v)),
        forall|e: ErrV| sound(#[trigger] raise_step(m, e)),
{
    if m.frames.len() > 0 {
        let m1 = InterpV { frames: m.frames.drop_last(), ..m };
        lemma_pop(m.env.len(), m.frames);
        lemma_more(m.env.len(), m.env.len(), m.frames, m.frames.len() as int);
        match m.frames.last() {
            FrameV::Stmts(ss, i) => {
                assert(sound(m1));
                lemma_push(m.env.len(), m1.frames, FrameV::Stmts(ss, i + 1));
            },
            FrameV::Block => {
                assert(closed_scope(m.env).len() == m.env.len() - 1);
            },
            FrameV::For(f, ps, i) => {
                let n = InterpV { env: closed_scope(m.env), ..m1 };
                assert(closed_scope(m.env).len() == m.env.len() - 1);
                assert(sound(n));
                lemma_looping(n, f, ps, i);
                lemma_more((m.env.len() - 1) as nat, m.env.len(), m1.frames, m1.frames.len() as int);
            },
            FrameV::WhileBody(c, b) => {
                assert(sound(m1));
                lemma_inside(m1, FrameV::WhileTest(c, b), c);
            },
            FrameV::Try(n, h) => {
                assert(sound(m1));
                let f1 = m1.frames.push(FrameV::Block);
                lemma_push(m.env.len() + 1, m1.frames, FrameV::Block);
                lemma_push(m.env.len() + 1, f1, FrameV::Stmts(h, 0));
            },
            _ => {},
        }
    }
}

/// A program never runs out of scopes: where it has all that it needs, it has them behind
/// every step too. A variable can be declared at any time.
pub proof fn law_scopes_last(m: InterpV, w: WorldV)
    requires
        sound(m),
    ensures
        sound(stepped(m, w).0),
        m.env.len() >= 1,
{
    lemma_more(m.env.len(), m.env.len(), m.frames, m.frames.len() as int);
    let n = InterpV { now: NowV::Fall, ..m };
    match m.now {
        NowV::Eval(e) => lemma_eval(n, e),
        NowV::Exec(s) => lemma_exec(n, s),
        NowV::Call(c, a, span) => lemma_call(n, w, c, a, span),
        NowV::Give(v) => {
            if n.frames.len() > 0 {
                let f = n.frames.last();
                let n1 = InterpV { frames: n.frames.drop_last(), ..n };
                lemma_pop(n.env.len(), n.frames);
                if plain(f) {
                    lemma_give(n1, f, v);
                } else {
                    assert(n1.frames.push(f) =~= n.frames);
                }
            }
        },
        NowV::Fall | NowV::Ret(_) | NowV::Raise(_) => lemma_leaving(m),
        _ => {},
    }
}

/// A program that is about to start has the scopes that it needs, and so has one that is
/// started with `go`.
pub proof fn law_scopes_at_the_start(
    ss: Seq<StmtV>,
    file: Seq<char>,
    src: Seq<char>,
    debug: bool,
    windows: bool,
    m: InterpV,
    callee: Seq<char>,
    args: Seq<ValueV>,
    span: Span,
)
    ensures
        sound(started(ss, file, src, debug, windows)),
        sound(forked(m, callee, args, span)),
{
    let s = started(ss, file, src, debug, windows);
    assert(s.frames[0] == FrameV::Stmts(ss, 0));
    assert(scoped(1, s.frames, 0));
}

/// The scopes are there behind every answer too.
pub proof fn law_scopes_last_answers(m: InterpV, w: WorldV, a: AnswerV)
    requires
        sound(m),
        m.frames.len() > 0,
        super::machine::fits_frame(m.frames.last(), a),
    ensures
        sound(answered(m, w, a).0),
{
    let m1 = InterpV { frames: m.frames.drop_last(), now: NowV::Fall, ..m };
    let f = m.frames.last();
    lemma_pop(m.env.len(), m.frames);
    assert(sound(m1));
    match f {
        FrameV::Ask(p, span) => {
            if let AnswerV::World(r) = a {
                let (_, o) = crate::builtins::finished(w, super::machine::place(m1, span), p, r);
                lemma_absorbed(m1, o, span);
            }
        },
        FrameV::LibCall(t, func, l, span) => {
            if let AnswerV::World(r) = a {
                lemma_absorbed(
                    m1,
                    super::ffi::result_of(super::machine::place(m1, span), t, func, l, r),
                    span,
                );
            }
        },
        FrameV::CallLoad(c, args, span, _) => {
            let m2 = InterpV { libs: m1.libs.insert(super::machine::lib_of(c)), ..m1 };
            lemma_invoking(m2, c, args, span);
        },
        FrameV::LoadLib(_) => {},
        f => lemma_imports(m1, f, a),
    }
}

proof fn lemma_imports(m: InterpV, f: FrameV, a: AnswerV)
    requires
        sound(m),
    ensures
        sound(import_answered(m, f, a).0),
{
    reveal(adopting);
    reveal(fetching);
    reveal(fetched);
    lemma_more(m.env.len(), m.env.len(), m.frames, m.frames.len() as int);
    match f {
        FrameV::ImportText(i) => lemma_push(m.env.len(), m.frames, FrameV::ImportAdopt(i)),
        FrameV::ImportCache(i) => {
            lemma_push(m.env.len(), m.frames, FrameV::ImportAdopt(i));
            lemma_push(m.env.len(), m.frames, FrameV::ImportNet(i));
        },
        FrameV::ImportNet(i) => {
            if let AnswerV::World(crate::builtins::world::ReplyV::Bytes(b)) = a {
                if let Ok(t) = crate::builtins::http::response_text(super::machine::place(m, i.span), i.url, b) {
                    lemma_push(m.env.len(), m.frames, FrameV::ImportSave(i, t));
                }
            }
        },
        FrameV::ImportSave(i, _) => lemma_push(m.env.len(), m.frames, FrameV::ImportAdopt(i)),
        FrameV::ImportAdopt(i) => {
            if let AnswerV::Module(ss) = a {
                let f1 = m.frames.push(FrameV::Module(m.env));
                lemma_push(1, m.frames, FrameV::Module(m.env));
                lemma_push(1, f1, FrameV::Stmts(ss, 0));
            }
        },
        FrameV::LoadHeader(l, _) => {
            if let AnswerV::Sigs(ss) = a {
                let lib = super::machine::lib_name(m.windows, l.alias, l.path);
                lemma_loading(
                    InterpV { sigs: super::machine::with_sigs(m.sigs, lib, ss, ss.len() as int), ..m },
                    l,
                );
            }
        },
        _ => {},
    }
}

/// What an operation comes to, where it needs no answer.
pub open spec fn settled(o: OutV) -> Option<Result<ValueV, ErrV>> {
    match o {
        OutV::Value(v) => Some(Ok(v)),
        OutV::Error(e) => Some(Err(e)),
        OutV::Ask(..) => None,
    }
}

/// What an expression of literals, variables, fields and operators means where the program
/// stands: a value or an error. Nothing is said of one that needs an answer or a call.
pub open spec fn meaning(m: InterpV, e: ExprV) -> Option<Result<ValueV, ErrV>>
    decreases e,
{
    match e {
        ExprV::IntLit(..) | ExprV::BoolLit(..) | ExprV::StrLit(..) | ExprV::Ident { .. } => match eval_step(m, e).0.now {
            NowV::Give(v) => Some(Ok(v)),
            NowV::Raise(x) => Some(Err(x)),
            _ => None,
        },
        ExprV::Field { obj, field, span } => match meaning(m, *obj) {
            Some(Ok(v)) => settled(field_of(super::machine::place(m, span), v, field)),
            r => r,
        },
        ExprV::Unary { op, expr, span } => match meaning(m, *expr) {
            Some(Ok(v)) => settled(super::ops::prefix_of(super::machine::place(m, span), op, v)),
            r => r,
        },
        ExprV::Binary { op, lhs, rhs, span } => match meaning(m, *lhs) {
            Some(Ok(l)) => if op == BinOp::And && l == ValueV::Bool(false) {
                Some(Ok(ValueV::Bool(false)))
            } else if op == BinOp::Or && l == ValueV::Bool(true) {
                Some(Ok(ValueV::Bool(true)))
            } else {
                match meaning(m, *rhs) {
                    Some(Ok(r)) => if op == BinOp::And || op == BinOp::Or {
                        settled(super::ops::bool_of(super::machine::place(m, span), r))
                    } else {
                        settled(super::ops::infix_of(super::machine::place(m, span), op, l, r))
                    },
                    r => r,
                }
            },
            r => r,
        },
        _ => None,
    }
}

/// A program that comes to what an expression means: its value is handed on, or its error
/// raised, and all else is as it was.
pub open spec fn reached(m: InterpV, r: Result<ValueV, ErrV>) -> InterpV {
    match r {
        Ok(v) => giving(m, v),
        Err(e) => raising(m, e),
    }
}

/// Steps behind steps.
pub proof fn lemma_ran_on(m: InterpV, w: WorldV, a: nat, b: nat)
    requires
        ran(m, w, a).2 is None,
    ensures
        ran(m, w, a + b) == ran(ran(m, w, a).0, ran(m, w, a).1, b),
    decreases a,
{
    if a > 0 && !(m.now is Over) && !(m.now is Wait) {
        let (m2, w2, want) = stepped(m, w);
        lemma_ran_on(m2, w2, (a - 1) as nat, b);
    }
}

/// One more step, from where some steps led.
proof fn lemma_ran_step(m: InterpV, w: WorldV, a: nat, n: InterpV)
    requires
        ran(m, w, a) == (n, w, None::<WantV>),
        stepped(n, w).1 == w,
        stepped(n, w).2 is None,
        !(n.now is Over),
        !(n.now is Wait),
    ensures
        ran(m, w, a + 1) == (stepped(n, w).0, w, None::<WantV>),
{
    lemma_ran_on(m, w, a, 1);
    let (n2, w2, want) = stepped(n, w);
    assert(ran(n2, w2, 0) == (n2, w2, None::<WantV>));
}

/// How many steps the evaluation of an expression takes.
pub open spec fn steps_of(m: InterpV, e: ExprV) -> nat
    decreases e,
{
    match e {
        ExprV::Field { obj, .. } => 1 + steps_of(m, *obj) + 1,
        ExprV::Unary { expr, .. } => 1 + steps_of(m, *expr) + 1,
        ExprV::Binary { op, lhs, rhs, .. } => match meaning(m, *lhs) {
            Some(Ok(l)) => if (op == BinOp::And && l == ValueV::Bool(false)) || (op == BinOp::Or && l == ValueV::Bool(
                true,
            )) {
                1 + steps_of(m, *lhs) + 1
            } else {
                1 + steps_of(m, *lhs) + 1 + steps_of(m, *rhs) + 1
            },
            _ => 1 + steps_of(m, *lhs) + 1,
        },
        _ => 1,
    }
}

proof fn lemma_same_meaning(m: InterpV, n: InterpV, e: ExprV)
    requires
        m.file == n.file,
        m.src == n.src,
        m.env == n.env,
    ensures
        meaning(m, e) == meaning(n, e),
        steps_of(m, e) == steps_of(n, e),
    decreases e,
{
    match e {
        ExprV::Field { obj, .. } => lemma_same_meaning(m, n, *obj),
        ExprV::Unary { expr, .. } => lemma_same_meaning(m, n, *expr),
        ExprV::Binary { lhs, rhs, .. } => {
            lemma_same_meaning(m, n, *lhs);
            lemma_same_meaning(m, n, *rhs);
        },
        _ => {},
    }
}

/// The evaluation of the one operand of an expression, inside a frame.
proof fn lemma_operand(m: InterpV, w: WorldV, start: InterpV, a: nat, f: FrameV, e: ExprV) -> (n: InterpV)
    requires
        ran(start, w, a) == (inside(m, f, e), w, None::<WantV>),
        meaning(m, e) is Some,
    ensures
        n == (InterpV { frames: m.frames.push(f), ..m }),
        ran(start, w, a + steps_of(m, e)) == (reached(n, meaning(m, e)->0), w, None::<WantV>),
    decreases e, 3int,
{
    let n = InterpV { frames: m.frames.push(f), ..m };
    lemma_same_meaning(m, n, e);
    law_expression_means_its_value(n, w, e);
    assert(inside(m, f, e) == (InterpV { now: NowV::Eval(e), ..n }));
    lemma_ran_on(start, w, a, steps_of(m, e));
    n
}

/// The first step of an evaluation.
proof fn lemma_first(m: InterpV, w: WorldV, e: ExprV)
    requires
        eval_step(InterpV { now: NowV::Fall, ..m }, e).1 is None,
    ensures
        ran(InterpV { now: NowV::Eval(e), ..m }, w, 1) == (
            eval_step(InterpV { now: NowV::Fall, ..m }, e).0,
            w,
            None::<WantV>,
        ),
{
    let start = InterpV { now: NowV::Eval(e), ..m };
    assert(ran(start, w, 0) == (start, w, None::<WantV>));
    lemma_ran_step(start, w, 0, start);
}

proof fn lemma_one_operand(m: InterpV, w: WorldV, e: ExprV, f: FrameV, inner: ExprV)
    requires
        meaning(m, e) is Some,
        match e {
            ExprV::Field { obj, field, span } => f == FrameV::Field(field, span) && inner == *obj,
            ExprV::Unary { op, expr, span } => f == FrameV::Unary(op, span) && inner == *expr,
            _ => false,
        },
    ensures
        ran(InterpV { now: NowV::Eval(e), ..m }, w, steps_of(m, e)) == (
            reached(m, meaning(m, e)->0),
            w,
            None::<WantV>,
        ),
    decreases e, 0int,
{
    let start = InterpV { now: NowV::Eval(e), ..m };
    lemma_first(m, w, e);
    let n = lemma_operand(m, w, start, 1, f, inner);
    lemma_finish(m, w, start, 1 + steps_of(m, inner), f, meaning(m, inner)->0);
}

#[verifier::rlimit(60)]
proof fn lemma_two_operands(m: InterpV, w: WorldV, op: BinOp, lhs: ExprV, rhs: ExprV, span: Span, e: ExprV)
    requires
        e matches ExprV::Binary { op: o, lhs: l, rhs: r, span: s } && o == op && *l == lhs && *r == rhs && s == span,
        meaning(m, e) is Some,
    ensures
        ran(InterpV { now: NowV::Eval(e), ..m }, w, steps_of(m, e)) == (
            reached(m, meaning(m, e)->0),
            w,
            None::<WantV>,
        ),
    decreases e, 0int,
{
    let start = InterpV { now: NowV::Eval(e), ..m };
    let idle = InterpV { now: NowV::Fall, ..m };
    let f = FrameV::Left(op, rhs, span);
    lemma_first(m, w, e);
    let n = lemma_operand(m, w, start, 1, f, lhs);
    let k = 1 + steps_of(m, lhs);
    match meaning(m, lhs)->0 {
        Err(x) => lemma_finish(m, w, start, k, f, Err(x)),
        Ok(l) => {
            let there = giving(n, l);
            assert(n.frames.drop_last() =~= m.frames);
            assert(n.frames.last() == f);
            lemma_left(there, w, idle, f, l);
            lemma_ran_step(start, w, k, there);
            if !((op == BinOp::And && l == ValueV::Bool(false)) || (op == BinOp::Or && l == ValueV::Bool(true))) {
                let g = if op == BinOp::And || op == BinOp::Or {
                    FrameV::Logic(span)
                } else {
                    FrameV::Right(op, l, span)
                };
                let n2 = lemma_operand(m, w, start, k + 1, g, rhs);
                lemma_finish(m, w, start, k + 1 + steps_of(m, rhs), g, meaning(m, rhs)->0);
            }
        },
    }
}

/// The step behind the left side of an operator.
proof fn lemma_left(there: InterpV, w: WorldV, idle: InterpV, f: FrameV, l: ValueV)
    requires
        there.now == NowV::Give(l),
        there.frames.len() > 0,
        there.frames.last() == f,
        idle == (InterpV { now: NowV::Fall, frames: there.frames.drop_last(), ..there }),
        f is Left,
    ensures
        stepped(there, w) == (give_to(idle, f, l).0, w, None::<WantV>),
{
}

/// An expression of literals, variables, fields and operators comes to what it means,
/// whatever is in work around it: its value is handed on, or its error raised, and neither a
/// variable nor the world has changed.
pub proof fn law_expression_means_its_value(m: InterpV, w: WorldV, e: ExprV)
    requires
        meaning(m, e) is Some,
    ensures
        ran(InterpV { now: NowV::Eval(e), ..m }, w, steps_of(m, e)) == (
            reached(m, meaning(m, e)->0),
            w,
            None::<WantV>,
        ),
    decreases e, 2int,
{
    match e {
        ExprV::Field { obj, field, span } => lemma_one_operand(m, w, e, FrameV::Field(field, span), *obj),
        ExprV::Unary { op, expr, span } => lemma_one_operand(m, w, e, FrameV::Unary(op, span), *expr),
        ExprV::Binary { op, lhs, rhs, span } => lemma_two_operands(m, w, op, *lhs, *rhs, span, e),
        _ => lemma_first(m, w, e),
    }
}

/// The last step of an expression: the operation of its frame, or the error goes through.
proof fn lemma_finish(m: InterpV, w: WorldV, start: InterpV, a: nat, f: FrameV, r: Result<ValueV, ErrV>)
    requires
        ran(start, w, a) == (
            reached(InterpV { frames: m.frames.push(f), ..m }, r),
            w,
            None::<WantV>,
        ),
        f is Field || f is Unary || f is Right || f is Logic || (f is Left && r is Err),
        r matches Ok(v) ==> give_to(InterpV { now: NowV::Fall, ..m }, f, v).1 is None,
    ensures
        ran(start, w, a + 1) == (
            match r {
                Ok(v) => give_to(InterpV { now: NowV::Fall, ..m }, f, v).0,
                Err(x) => raising(m, x),
            },
            w,
            None::<WantV>,
        ),
{
    let n = InterpV { frames: m.frames.push(f), ..m };
    let there = reached(n, r);
    assert(n.frames.drop_last() =~= m.frames);
    assert(n.frames.last() == f);
    lemma_ran_step(start, w, a, there);
}

/// A module that was fetched runs as the text that is kept of it, and a module that is kept
/// is not fetched again.
pub proof fn law_kept_modules_stay(m: InterpV, i: ImportV, text: Seq<char>)
    ensures
        import_answered(m, FrameV::ImportSave(i, text), AnswerV::World(ReplyV::Done)) == import_answered(
            m,
            FrameV::ImportCache(i),
            AnswerV::World(ReplyV::MaybeText(Some(text))),
        ),
        !(import_answered(m, FrameV::ImportCache(i), AnswerV::World(ReplyV::MaybeText(Some(text)))).1 matches Some(
            WantV::Download(..),
        )),
{
    reveal(adopting);
}

/// Another name of a function calls the function, where nothing else has that name.
pub proof fn law_alias_calls_the_function(
    m: InterpV,
    w: WorldV,
    original: Seq<char>,
    new: Seq<char>,
    at: Span,
    args: Seq<ValueV>,
    span: Span,
)
    requires
        !m.fns.dom().contains(new),
        !m.structs.dom().contains(new),
        !names().contains(new),
    ensures
        ({
            let m2 = exec_step(m, StmtV::Alias { original, new_name: new, span: at }).0;
            call_step(m2, w, new, args, span) == (
                InterpV { now: NowV::Call(original, args, span), ..m2 },
                w,
                None::<WantV>,
            )
        }),
{
}

/// Calls are never nested deeper than the limit.
#[verifier::rlimit(50)]
#[verifier::spinoff_prover]
pub proof fn law_depth_is_bounded(m: InterpV, w: WorldV)
    requires
        m.depth <= DEPTH_LIMIT,
    ensures
        stepped(m, w).0.depth <= DEPTH_LIMIT,
{
}

} // verus!
