//! The functions that exported functions need.

use vstd::prelude::*;

use super::infer::is_in;
use super::types::{c_err, cfn_v, cfns_v, top, CFn, CFnV, Codegen, CodegenV};
use crate::ast::{expr_v, exprs_v, stmt_v, stmts_v, Expr, ExprV, Program, Stmt, StmtV};
use crate::error::{codes, ErrV, ZError};
use crate::lexer::Span;
use crate::table::Table;
use crate::text::{cat3, strs};

verus! {

/// The exported names with those of a statement.
pub open spec fn stmt_exports(s: StmtV, done: Seq<Seq<char>>) -> Seq<Seq<char>>
    decreases s, 0int,
{
    match s {
        StmtV::Export { name, .. } => done.push(name),
        StmtV::Block { stmts, .. } => exports_of(stmts, stmts.len() as int, done),
        StmtV::If { then_branch, else_branch, .. } => {
            let d = exports_of(then_branch, then_branch.len() as int, done);
            match else_branch {
                Some(b) => exports_of(b, b.len() as int, d),
                None => d,
            }
        },
        StmtV::While { body, .. } => exports_of(body, body.len() as int, done),
        _ => done,
    }
}

/// The exported names with those of the first `n` statements.
pub open spec fn exports_of(ss: Seq<StmtV>, n: int, done: Seq<Seq<char>>) -> Seq<Seq<char>>
    decreases ss, n,
{
    if n <= 0 || n > ss.len() {
        done
    } else {
        stmt_exports(ss[n - 1], exports_of(ss, n - 1, done))
    }
}

fn collect_exports_stmts(ss: &Vec<Stmt>, out: &mut Vec<String>)
    ensures
        strs(final(out)@) == exports_of(stmts_v(ss@), ss.len() as int, strs(old(out)@)),
    decreases ss,
{
    let ghost d0 = strs(out@);
    let mut i: usize = 0;
    while i < ss.len()
        invariant
            i <= ss.len(),
            strs(out@) == exports_of(stmts_v(ss@), i as int, d0),
        decreases ss.len() - i,
    {
        let s = &ss[i];
        let ghost was = strs(out@);
        assert(stmts_v(ss@)[i as int] == stmt_v(ss@[i as int]));
        assert(decreases_to!(ss@ => ss@[i as int]));
        match s {
            Stmt::Export { name, .. } => {
                out.push(name.clone());
                assert(strs(out@) =~= was.push(name@));
            },
            Stmt::Block { stmts, .. } => collect_exports_stmts(stmts, out),
            Stmt::If { then_branch, else_branch, .. } => {
                collect_exports_stmts(then_branch, out);
                if let Some(b) = else_branch {
                    collect_exports_stmts(b, out);
                }
            },
            Stmt::While { body, .. } => collect_exports_stmts(body, out),
            _ => {},
        }
        assert(strs(out@) == stmt_exports(stmts_v(ss@)[i as int], was));
        i = i + 1;
    }
}

/// The names of all exported functions.
pub fn collect_exports(program: &Program) -> (r: Vec<String>)
    ensures
        strs(r@) == exports_of(program@, program@.len() as int, Seq::empty()),
{
    let mut out: Vec<String> = Vec::new();
    assert(strs(out@) =~= Seq::empty());
    collect_exports_stmts(&program.stmts, &mut out);
    out
}

/// The functions with those that a statement defines: a function itself, unless it is a
/// temporary one, and those of blocks, branches and loops.
pub open spec fn stmt_cfns(s: StmtV, m: Map<Seq<char>, CFnV>) -> Map<Seq<char>, CFnV>
    decreases s, 0int,
{
    match s {
        StmtV::FnDef { name, params, ret, body, tmp, .. } => if tmp {
            m
        } else {
            stmts_cfns(body, body.len() as int, m.insert(name, CFnV { params, ret, body }))
        },
        StmtV::Block { stmts, .. } => stmts_cfns(stmts, stmts.len() as int, m),
        StmtV::If { then_branch, else_branch, .. } => {
            let m1 = stmts_cfns(then_branch, then_branch.len() as int, m);
            match else_branch {
                Some(b) => stmts_cfns(b, b.len() as int, m1),
                None => m1,
            }
        },
        StmtV::While { body, .. } => stmts_cfns(body, body.len() as int, m),
        StmtV::ForIn { body, .. } => stmts_cfns(body, body.len() as int, m),
        StmtV::Try { body, handler, .. } => stmts_cfns(
            handler,
            handler.len() as int,
            stmts_cfns(body, body.len() as int, m),
        ),
        _ => m,
    }
}

/// The functions with those that the first `n` statements define.
pub open spec fn stmts_cfns(ss: Seq<StmtV>, n: int, m: Map<Seq<char>, CFnV>) -> Map<Seq<char>, CFnV>
    decreases ss, n,
{
    if n <= 0 || n > ss.len() {
        m
    } else {
        stmt_cfns(ss[n - 1], stmts_cfns(ss, n - 1, m))
    }
}

/// Registers the functions that statements define.
pub fn collect_fns<'a>(t: &mut Table<CFn<'a>>, ss: &'a Vec<Stmt>)
    requires
        old(t).wf(),
    ensures
        final(t).wf(),
        cfns_v(final(t)@) == stmts_cfns(stmts_v(ss@), ss.len() as int, cfns_v(old(t)@)),
    decreases ss,
{
    let ghost m0 = cfns_v(t@);
    let mut i: usize = 0;
    while i < ss.len()
        invariant
            i <= ss.len(),
            t.wf(),
            cfns_v(t@) == stmts_cfns(stmts_v(ss@), i as int, m0),
        decreases ss.len() - i,
    {
        let s = &ss[i];
        let ghost was = cfns_v(t@);
        let ghost before = t@;
        assert(stmts_v(ss@)[i as int] == stmt_v(ss@[i as int]));
        assert(decreases_to!(ss@ => ss@[i as int]));
        match s {
            Stmt::FnDef { name, params, ret, body, tmp, .. } => {
                if !*tmp {
                    let f = CFn { params, ret: *ret, body };
                    t.insert(name.as_str(), f);
                    assert(cfns_v(t@) =~= cfns_v(before).insert(name@, cfn_v(f)));
                    collect_fns(t, body);
                }
            },
            Stmt::Block { stmts, .. } => collect_fns(t, stmts),
            Stmt::If { then_branch, else_branch, .. } => {
                collect_fns(t, then_branch);
                if let Some(b) = else_branch {
                    collect_fns(t, b);
                }
            },
            Stmt::While { body, .. } => collect_fns(t, body),
            Stmt::ForIn { body, .. } => collect_fns(t, body),
            Stmt::Try { body, handler, .. } => {
                collect_fns(t, body);
                collect_fns(t, handler);
            },
            _ => {},
        }
        assert(cfns_v(t@) == stmt_cfns(stmts_v(ss@)[i as int], was));
        i = i + 1;
    }
}

/// The functions that were found: in the order in which they are done with, and all that
/// were looked at.
pub struct Reach {
    pub order: Vec<String>,
    pub seen: Vec<String>,
}

/// The functions that were found, mathematically.
pub struct ReachV {
    pub order: Seq<Seq<char>>,
    pub seen: Seq<Seq<char>>,
}

impl View for Reach {
    type V = ReachV;

    open spec fn view(&self) -> ReachV {
        ReachV { order: strs(self.order@), seen: strs(self.seen@) }
    }
}

/// The functions found with one function and all that it calls. No more than `left` of them
/// are entered inside one another.
pub open spec fn reached(g: CodegenV, name: Seq<char>, st: ReachV, left: nat) -> ReachV
    decreases left, 0int, st, 0int,
{
    if st.seen.contains(name) || !g.fns.dom().contains(name) || left == 0 {
        st
    } else {
        let body = g.fns[name].body;
        let inner = stmts_calls(
            g,
            body,
            body.len() as int,
            ReachV { seen: st.seen.push(name), ..st },
            (left - 1) as nat,
        );
        ReachV { order: inner.order.push(name), ..inner }
    }
}

/// The functions found with those that a statement calls.
pub open spec fn stmt_calls(g: CodegenV, s: StmtV, st: ReachV, left: nat) -> ReachV
    decreases left, 2int, s, 0int,
{
    match s {
        StmtV::Assign { value, .. } => expr_calls(g, value, st, left),
        StmtV::VarDecl { init, .. } => match init {
            Some(e) => expr_calls(g, e, st, left),
            None => st,
        },
        StmtV::Block { stmts, .. } => stmts_calls(g, stmts, stmts.len() as int, st, left),
        StmtV::If { cond, then_branch, else_branch, .. } => {
            let a = expr_calls(g, cond, st, left);
            let b = stmts_calls(g, then_branch, then_branch.len() as int, a, left);
            match else_branch {
                Some(x) => stmts_calls(g, x, x.len() as int, b, left),
                None => b,
            }
        },
        StmtV::While { cond, body, .. } => {
            let a = expr_calls(g, cond, st, left);
            stmts_calls(g, body, body.len() as int, a, left)
        },
        StmtV::Return { value, .. } => match value {
            Some(e) => expr_calls(g, e, st, left),
            None => st,
        },
        StmtV::ExprStmt { expr, .. } => expr_calls(g, expr, st, left),
        _ => st,
    }
}

/// The functions found with those that the first `n` statements call.
pub open spec fn stmts_calls(g: CodegenV, ss: Seq<StmtV>, n: int, st: ReachV, left: nat) -> ReachV
    decreases left, 2int, ss, n,
{
    if n <= 0 || n > ss.len() {
        st
    } else {
        stmt_calls(g, ss[n - 1], stmts_calls(g, ss, n - 1, st, left), left)
    }
}

/// The functions found with those that an expression calls.
pub open spec fn expr_calls(g: CodegenV, e: ExprV, st: ReachV, left: nat) -> ReachV
    decreases left, 1int, e, 0int,
{
    match e {
        ExprV::Call { callee, args, .. } => args_calls(g, args, args.len() as int, reached(g, callee, st, left), left),
        ExprV::Unary { expr, .. } => expr_calls(g, *expr, st, left),
        ExprV::Binary { lhs, rhs, .. } => expr_calls(g, *rhs, expr_calls(g, *lhs, st, left), left),
        _ => st,
    }
}

/// The functions found with those that the first `n` arguments call.
pub open spec fn args_calls(g: CodegenV, es: Seq<ExprV>, n: int, st: ReachV, left: nat) -> ReachV
    decreases left, 1int, es, n,
{
    if n <= 0 || n > es.len() {
        st
    } else {
        expr_calls(g, es[n - 1], args_calls(g, es, n - 1, st, left), left)
    }
}

/// The error of an export of what does not exist.
pub open spec fn no_export(g: CodegenV, name: Seq<char>) -> ErrV {
    c_err(
        g,
        codes::UNDEFINED@,
        "cannot export undefined function `"@ + name + "`"@,
        top(),
        "define the function before exporting it"@,
    )
}

/// The functions that exports from the `i`-th on need, behind those that were found.
pub open spec fn needed(g: CodegenV, es: Seq<Seq<char>>, i: int, st: ReachV) -> Result<ReachV, ErrV>
    decreases es.len() - i,
{
    if i < 0 || i >= es.len() {
        Ok(st)
    } else if !st.seen.contains(es[i]) && !g.fns.dom().contains(es[i]) {
        Err(no_export(g, es[i]))
    } else {
        needed(g, es, i + 1, reached(g, es[i], st, g.count))
    }
}

/// What the search for functions comes to, mathematically.
pub open spec fn reach_r(r: Result<Reach, ZError>) -> Result<ReachV, ErrV> {
    match r {
        Ok(x) => Ok(x@),
        Err(e) => Err(e@),
    }
}

impl<'a> Codegen<'a> {
    /// The error of an export of what does not exist.
    pub fn export_err(&self, name: &str) -> (r: ZError)
        ensures
            r@ == no_export(self@, name@),
    {
        let msg = cat3("cannot export undefined function `", name, "`");
        self.zerr(
            codes::UNDEFINED,
            msg.as_str(),
            Span { line: 1, col: 1, len: 1 },
            "define the function before exporting it",
        )
    }

    /// Finds a function and all that it calls.
    fn collect_reachable(&self, name: &str, st: &mut Reach, left: usize)
        requires
            self.wf(),
        ensures
            final(st)@ == reached(self@, name@, old(st)@, left as nat),
        decreases left, 0int, *old(st), 0int,
    {
        if is_in(&st.seen, name) || left == 0 {
            return;
        }
        if let Some(f) = self.fns.get(name) {
            let ghost was = st@;
            st.seen.push(name.to_owned());
            assert(strs(st.seen@) =~= was.seen.push(name@));
            assert(self@.fns[name@] == cfn_v(*f));
            self.collect_calls(f.body, st, left - 1);
            let ghost inner = st@;
            st.order.push(name.to_owned());
            assert(strs(st.order@) =~= inner.order.push(name@));
        }
    }

    /// Finds the functions that statements call.
    fn collect_calls(&self, ss: &'a Vec<Stmt>, st: &mut Reach, left: usize)
        requires
            self.wf(),
        ensures
            final(st)@ == stmts_calls(self@, stmts_v(ss@), ss.len() as int, old(st)@, left as nat),
        decreases left, 2int, ss, 0int,
    {
        let ghost st0 = st@;
        let mut i: usize = 0;
        while i < ss.len()
            invariant
                i <= ss.len(),
                self.wf(),
                st@ == stmts_calls(self@, stmts_v(ss@), i as int, st0, left as nat),
            decreases ss.len() - i,
        {
            let s = &ss[i];
            let ghost was = st@;
            assert(stmts_v(ss@)[i as int] == stmt_v(ss@[i as int]));
            assert(decreases_to!(ss@ => ss@[i as int]));
            match s {
                Stmt::Assign { value, .. } => self.collect_calls_expr(value, st, left),
                Stmt::Block { stmts, .. } => {
                    self.collect_calls(stmts, st, left);
                },
                Stmt::VarDecl { init, .. } => {
                    if let Some(e) = init {
                        self.collect_calls_expr(e, st, left);
                    }
                },
                Stmt::If { cond, then_branch, else_branch, .. } => {
                    self.collect_calls_expr(cond, st, left);
                    self.collect_calls(then_branch, st, left);
                    if let Some(b) = else_branch {
                        self.collect_calls(b, st, left);
                    }
                },
                Stmt::While { cond, body, .. } => {
                    self.collect_calls_expr(cond, st, left);
                    self.collect_calls(body, st, left);
                },
                Stmt::Return { value, .. } => {
                    if let Some(e) = value {
                        self.collect_calls_expr(e, st, left);
                    }
                },
                Stmt::ExprStmt { expr, .. } => self.collect_calls_expr(expr, st, left),
                _ => {},
            }
            assert(st@ == stmt_calls(self@, stmts_v(ss@)[i as int], was, left as nat));
            i = i + 1;
        }
    }

    /// Finds the functions that an expression calls.
    fn collect_calls_expr(&self, e: &'a Expr, st: &mut Reach, left: usize)
        requires
            self.wf(),
        ensures
            final(st)@ == expr_calls(self@, expr_v(*e), old(st)@, left as nat),
        decreases left, 1int, e, 0int,
    {
        match e {
            Expr::Call { callee, args, .. } => {
                self.collect_reachable(callee.as_str(), st, left);
                let ghost st0 = st@;
                let mut i: usize = 0;
                while i < args.len()
                    invariant
                        i <= args.len(),
                        self.wf(),
                        decreases_to!(e => args@),
                        st@ == args_calls(self@, exprs_v(args@), i as int, st0, left as nat),
                    decreases args.len() - i,
                {
                    let ghost was = st@;
                    assert(exprs_v(args@)[i as int] == expr_v(args@[i as int]));
                    assert(decreases_to!(args@ => args@[i as int]));
                    self.collect_calls_expr(&args[i], st, left);
                    assert(st@ == expr_calls(self@, exprs_v(args@)[i as int], was, left as nat));
                    i = i + 1;
                }
            },
            Expr::Unary { expr, .. } => self.collect_calls_expr(expr, st, left),
            Expr::Binary { lhs, rhs, .. } => {
                self.collect_calls_expr(lhs, st, left);
                self.collect_calls_expr(rhs, st, left);
            },
            _ => {},
        }
    }

    /// The functions that exports need.
    pub fn find_needed(&self, es: &Vec<String>) -> (r: Result<Reach, ZError>)
        requires
            self.wf(),
        ensures
            reach_r(r) == needed(
                self@,
                strs(es@),
                0,
                ReachV { order: Seq::empty(), seen: Seq::empty() },
            ),
    {
        let mut st = Reach { order: Vec::new(), seen: Vec::new() };
        assert(strs(st.order@) =~= Seq::empty());
        assert(strs(st.seen@) =~= Seq::empty());
        let ghost goal = needed(self@, strs(es@), 0, st@);
        let mut i: usize = 0;
        while i < es.len()
            invariant
                i <= es.len(),
                self.wf(),
                goal == needed(self@, strs(es@), 0, ReachV { order: Seq::empty(), seen: Seq::empty() }),
                needed(self@, strs(es@), i as int, st@) == goal,
            decreases es.len() - i,
        {
            assert(strs(es@)[i as int] == es@[i as int]@);
            let name = es[i].as_str();
            if !is_in(&st.seen, name) && !self.fns.contains_key(name) {
                return Err(self.export_err(name));
            }
            self.collect_reachable(name, &mut st, self.fns.len());
            i = i + 1;
        }
        Ok(st)
    }
}

} // verus!
