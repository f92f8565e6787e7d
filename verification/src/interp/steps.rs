//! The steps of a running program.

use vstd::prelude::*;

use super::env::{
    declare, env_v, env_wf, get, list_env, new_env, new_scope, pop_scope, push_scope, scope_v,
    set_or_declare,
};
use super::ffi::{call_ffi_typed, call_plain};
use super::machine::{
    absorbed, bound, call_step, dict_pairs, entering, eval_step, exec_step, fall_step, falling,
    field_names, for_step, for_v, forked, frame_v, frame_wf, frames_v, func_of, give_to, giving,
    inside, instance, invoking, lib_name, lib_of, lib_step, list_pairs, literal_pieces, load_v,
    loading, looping, matching, miscounted, no_bool, pairs_v, place, raise_step, raising, ret_step, shallower,
    sig_map, snapshot, text_map, thrown, waiting, want_v, with_sigs, with_text, ForRef,
    Frame, FrameV, ImportRef, Interp, InterpV, LoadRef, Now, NowV, Want, DEPTH_LIMIT,
};
use super::ops::{default_value, field, infix, prefix, require_bool_val, values_eq};
use crate::ast::{
    arms_v, entries_v, expr_span, expr_v, exprs_v, fields_v, opt_expr_v, params_v, seg_v, segs_v,
    sigs_v, stmt_v, stmts_v, BinOp, Expr, FStrSeg, FfiSig, FfiTy, Param, Stmt, TyName,
};
use crate::builtins::basics::show_pieces;
use crate::builtins::names::is_builtin;
use crate::builtins::path::file_stem;
use crate::builtins::world::{fault, Out, Pending, Place, Request};
use crate::builtins::{call, World, WorldV};
use crate::error::{codes, opt_str, ZError};
use crate::lexer::Span;
use crate::table::Table;
use crate::text::{cat3, cat4, cat5, chars, dec, dec_usize, eq, has_char, slice};
use crate::texts;
use crate::value::{dict_v, pieces_v, shown, value_v, values_v, ErrorObj, Piece, PieceV, Value, ValueV};
use crate::words::{find_last, join, starts_with};

verus! {

impl<'a> Interp<'a> {
    /// Adds a frame.
    pub(crate) fn push(&mut self, f: Frame<'a>)
        requires
            old(self).wf(),
            frame_wf(f),
        ensures
            final(self).wf(),
            final(self)@ == (InterpV { frames: old(self)@.frames.push(frame_v(f)), ..old(self)@ }),
    {
        let ghost before = self.frames@;
        self.frames.push(f);
        assert(frames_v(self.frames@) =~= frames_v(before).push(frame_v(f)));
    }

    /// Hands a value on.
    pub(crate) fn give(&mut self, v: Value) -> (r: Option<Want<'a>>)
        requires
            old(self).wf(),
        ensures
            final(self).wf(),
            final(self)@ == giving(old(self)@, v@),
            r is None,
    {
        self.now = Now::Give(v);
        None
    }

    /// Goes on behind a statement.
    pub(crate) fn fall(&mut self) -> (r: Option<Want<'a>>)
        requires
            old(self).wf(),
        ensures
            final(self).wf(),
            final(self)@ == falling(old(self)@),
            r is None,
    {
        self.now = Now::Fall;
        None
    }

    /// Raises an error.
    pub(crate) fn raise(&mut self, e: ZError) -> (r: Option<Want<'a>>)
        requires
            old(self).wf(),
        ensures
            final(self).wf(),
            final(self)@ == raising(old(self)@, e@),
            r is None,
    {
        self.now = Now::Raise(e);
        None
    }

    /// Raises an error at a place of the program.
    pub(crate) fn runtime_err(&mut self, code: &'static str, msg: &str, span: Span, help: Option<&str>) -> (r: Option<Want<'a>>)
        requires
            old(self).wf(),
        ensures
            final(self).wf(),
            final(self)@ == raising(old(self)@, fault(place(old(self)@, span), code@, msg@, opt_str(help))),
            r is None,
    {
        let e = Place { file: self.file.as_str(), src: self.src.as_str(), span, windows: self.windows }.fault(code, msg, help);
        self.raise(e)
    }

    /// Evaluates an expression inside a frame.
    pub(crate) fn eval_in(&mut self, f: Frame<'a>, e: &'a Expr) -> (r: Option<Want<'a>>)
        requires
            old(self).wf(),
            frame_wf(f),
        ensures
            final(self).wf(),
            final(self)@ == inside(old(self)@, frame_v(f), expr_v(*e)),
            r is None,
    {
        self.push(f);
        self.now = Now::Eval(e);
        None
    }

    /// Waits for an answer inside a frame.
    pub(crate) fn wait(&mut self, f: Frame<'a>, w: Want<'a>) -> (r: Option<Want<'a>>)
        requires
            old(self).wf(),
            frame_wf(f),
        ensures
            final(self).wf(),
            final(self)@ == waiting(old(self)@, frame_v(f)),
            r == Some(w),
    {
        self.push(f);
        self.now = Now::Wait;
        Some(w)
    }

    /// Goes on behind an operation.
    pub(crate) fn absorb(&mut self, o: Out, span: Span) -> (r: Option<Want<'a>>)
        requires
            old(self).wf(),
        ensures
            final(self).wf(),
            (final(self)@, want_v(r)) == absorbed(old(self)@, o@, span),
    {
        match o {
            Out::Value(v) => self.give(v),
            Out::Error(e) => self.raise(e),
            Out::Ask(q, p) => self.wait(Frame::Ask(p, span), Want::World(q)),
        }
    }

    /// Enters a block.
    pub(crate) fn exec_block(&mut self, ss: &'a Vec<Stmt>) -> (r: Option<Want<'a>>)
        requires
            old(self).wf(),
        ensures
            final(self).wf(),
            final(self)@ == entering(old(self)@, stmts_v(ss@)),
            r is None,
    {
        let s = new_scope();
        push_scope(&mut self.env, s);
        self.push(Frame::Block);
        self.push(Frame::Stmts(ss, 0));
        self.fall()
    }

    /// Goes on with a text at a place of its pieces.
    pub(crate) fn eval_text(&mut self, segs: &'a Vec<FStrSeg>, from: usize, done: Vec<Piece>, span: Span) -> (r: Option<Want<'a>>)
        requires
            old(self).wf(),
            from <= segs.len(),
        ensures
            final(self).wf(),
            (final(self)@, want_v(r)) == with_text(
                old(self)@,
                segs_v(segs@),
                from as int,
                pieces_v(done@),
                span,
            ),
    {
        let mut ps = done;
        let mut i: usize = from;
        let ghost goal = literal_pieces(segs_v(segs@), from as int, pieces_v(done@));
        while i < segs.len()
            invariant
                i <= segs.len(),
                old(self).wf(),
                *self == *old(self),
                goal == literal_pieces(segs_v(segs@), from as int, pieces_v(done@)),
                literal_pieces(segs_v(segs@), i as int, pieces_v(ps@)) == goal,
            decreases segs.len() - i,
        {
            assert(segs_v(segs@)[i as int] == seg_v(segs@[i as int]));
            match &segs[i] {
                FStrSeg::Code(e) => {
                    return self.eval_in(Frame::FStr(segs, i, ps, span), e);
                },
                FStrSeg::Lit(t) => {
                    let ghost before = pieces_v(ps@);
                    ps.push(Piece::Text(t.clone()));
                    assert(pieces_v(ps@) =~= before.push(PieceV::Text(t@)));
                },
            }
            i = i + 1;
        }
        let o = show_pieces(ps, false);
        self.absorb(o, span)
    }

    /// Evaluates an expression.
    pub(crate) fn eval_expr(&mut self, e: &'a Expr) -> (r: Option<Want<'a>>)
        requires
            old(self).wf(),
        ensures
            final(self).wf(),
            (final(self)@, want_v(r)) == eval_step(old(self)@, expr_v(*e)),
    {
        match e {
            Expr::IntLit(n, _) => self.give(Value::Int(*n)),
            Expr::FloatLit(t, s) => self.absorb(
                Out::Ask(Request::FloatFromText(t.clone()), Pending::ToFloat(t.clone())),
                *s,
            ),
            Expr::BoolLit(b, _) => self.give(Value::Bool(*b)),
            Expr::StrLit(t, _) => self.give(Value::Str(t.clone())),
            Expr::Ident { name, span } => {
                let found = match get(&self.env, name.as_str()) {
                    Some(v) => Some(v.dup()),
                    None => None,
                };
                match found {
                    Some(v) => self.give(v),
                    None => {
                        let msg = cat3("undefined variable `", name.as_str(), "`");
                        self.runtime_err(
                            codes::UNDEFINED,
                            msg.as_str(),
                            *span,
                            Some("declare the variable before reading it"),
                        )
                    },
                }
            },
            Expr::ListLit(items, _) => {
                let none: Vec<Value> = Vec::new();
                assert(values_v(none@) =~= Seq::empty());
                if items.len() == 0 {
                    self.give(Value::List(none))
                } else {
                    assert(exprs_v(items@)[0] == expr_v(items@[0]));
                    self.eval_in(Frame::List(items, none), &items[0])
                }
            },
            Expr::DictLit(es, _) => {
                let none: Vec<(String, Value)> = Vec::new();
                assert(dict_v(none@) =~= Seq::empty());
                assert(entries_v(es@).len() == es.len());
                if es.len() == 0 {
                    self.give(Value::Dict(none))
                } else {
                    assert(entries_v(es@)[0] == (es@[0].0@, expr_v(es@[0].1)));
                    self.eval_in(Frame::Dict(es, none), &es[0].1)
                }
            },
            Expr::FStr(segs, s) => {
                let none: Vec<Piece> = Vec::new();
                assert(pieces_v(none@) =~= Seq::empty());
                self.eval_text(segs, 0, none, *s)
            },
            Expr::Field { obj, field, span } => self.eval_in(Frame::Field(field, *span), obj),
            Expr::Unary { op, expr, span } => self.eval_in(Frame::Unary(*op, *span), expr),
            Expr::Binary { op, lhs, rhs, span } => self.eval_in(Frame::Left(*op, rhs, *span), lhs),
            Expr::Call { callee, args, span } => {
                let none: Vec<Value> = Vec::new();
                assert(values_v(none@) =~= Seq::empty());
                if args.len() == 0 {
                    self.now = Now::Call(callee, none, *span);
                    None
                } else {
                    assert(exprs_v(args@)[0] == expr_v(args@[0]));
                    self.eval_in(Frame::Args(callee, args, none, *span, false), &args[0])
                }
            },
            Expr::Match { value, arms, span } => self.eval_in(Frame::MatchOn(arms, *span), value),
        }
    }

    /// The program that runs a call beside this one.
    pub(crate) fn fork(&self, callee: &'a String, args: Vec<Value>, span: Span) -> (r: Interp<'a>)
        requires
            self.wf(),
        ensures
            r.wf(),
            r@ == forked(self@, callee@, values_v(args@), span),
    {
        let r = Interp {
            file: self.file.clone(),
            src: self.src.clone(),
            debug: false,
            windows: self.windows,
            depth: 0,
            fns: self.fns.copy(),
            structs: self.structs.copy(),
            sigs: Table::new(),
            lazy_libs: self.lazy_libs.copy(),
            aliases: self.aliases.copy(),
            libs: Table::new(),
            env: new_env(),
            frames: Vec::new(),
            now: Now::Call(callee, args, span),
        };
        assert(sig_map(r.sigs@) =~= Map::empty());
        assert(r.libs@.dom() =~= Set::empty());
        assert(frames_v(r.frames@) =~= Seq::empty());
        r
    }

    /// Registers signatures under the name of a library.
    pub(crate) fn add_sigs(&mut self, lib: &str, new: &'a Vec<FfiSig>)
        requires
            old(self).wf(),
        ensures
            final(self).wf(),
            final(self)@ == (InterpV {
                sigs: with_sigs(old(self)@.sigs, lib@, sigs_v(new@), new.len() as int),
                ..old(self)@
            }),
    {
        let mut i: usize = 0;
        while i < new.len()
            invariant
                i <= new.len(),
                self.wf(),
                self@ == (InterpV {
                    sigs: with_sigs(old(self)@.sigs, lib@, sigs_v(new@), i as int),
                    ..old(self)@
                }),
            decreases new.len() - i,
        {
            let key = cat3(lib, ".", new[i].name.as_str());
            let ghost before = self.sigs@;
            assert(sigs_v(new@)[i as int] == new@[i as int]@);
            self.sigs.insert(key.as_str(), &new[i]);
            assert(sig_map(self.sigs@) =~= sig_map(before).insert(key@, new@[i as int]@));
            i = i + 1;
        }
    }

    /// Loads a library once its header is done with.
    pub(crate) fn exec_load(&mut self, l: LoadRef<'a>) -> (r: Option<Want<'a>>)
        requires
            old(self).wf(),
        ensures
            final(self).wf(),
            (final(self)@, want_v(r)) == loading(old(self)@, load_v(l)),
    {
        let lib = name_lib(self.windows, l.alias, l.path.as_str());
        self.add_sigs(lib.as_str(), l.sigs);
        if l.lazy {
            let ghost before = self.lazy_libs@;
            self.lazy_libs.insert(lib.as_str(), l.path);
            assert(text_map(self.lazy_libs@) =~= text_map(before).insert(lib@, l.path@));
            self.fall()
        } else {
            self.wait(Frame::LoadLib(l), Want::Load(lib, l.path.clone()))
        }
    }

    /// Shows all variables at a breakpoint.
    pub(crate) fn do_breakpoint(&mut self, span: Span) -> (r: Option<Want<'a>>)
        requires
            old(self).wf(),
        ensures
            final(self).wf(),
            (final(self)@, want_v(r)) == absorbed(
                InterpV { frames: old(self)@.frames.push(FrameV::Pause), ..old(self)@ },
                crate::builtins::basics::showing(snapshot(old(self)@, span), true),
                span,
            ),
    {
        let n = dec_usize(span.line);
        let head = cat5("[Hone Debug] 断点触发 -> ", self.file.as_str(), ":", n.as_str(), "\n--- 变量快照 ---");
        let mut ps: Vec<Piece> = Vec::new();
        ps.push(Piece::Text(head));
        assert(pieces_v(ps@) =~= seq![PieceV::Text(head@)]);
        list_env(&self.env, &mut ps);
        self.push(Frame::Pause);
        let o = show_pieces(ps, true);
        self.absorb(o, span)
    }

    /// Executes a statement.
    #[verifier::rlimit(40)]
    pub(crate) fn exec_stmt(&mut self, s: &'a Stmt) -> (r: Option<Want<'a>>)
        requires
            old(self).wf(),
        ensures
            final(self).wf(),
            (final(self)@, want_v(r)) == exec_step(old(self)@, stmt_v(*s)),
    {
        match s {
            Stmt::VarDecl { name, ty, init, .. } => match init {
                Some(e) => self.eval_in(Frame::Store(name), e),
                None => {
                    set_or_declare(&mut self.env, name.as_str(), default_value(*ty));
                    self.fall()
                },
            },
            Stmt::Assign { name, value, .. } => self.eval_in(Frame::Store(name), value),
            Stmt::Block { stmts, .. } => self.exec_block(stmts),
            Stmt::If { cond, then_branch, else_branch, .. } => self.eval_in(
                Frame::If(expr_span(cond), then_branch, else_branch),
                cond,
            ),
            Stmt::While { cond, body, .. } => self.eval_in(Frame::WhileTest(cond, body), cond),
            Stmt::ForIn { var, var2, iter, body, span } => self.eval_in(
                Frame::ForHead(ForRef { var, var2, body, iter_span: expr_span(iter), span: *span }),
                iter,
            ),
            Stmt::Return { value, .. } => match value {
                Some(e) => self.eval_in(Frame::Return, e),
                None => {
                    self.now = Now::Ret(Value::Null);
                    None
                },
            },
            Stmt::ExprStmt { expr, .. } => self.eval_in(Frame::Drop, expr),
            Stmt::Breakpoint { span } => if self.debug {
                self.do_breakpoint(*span)
            } else {
                self.fall()
            },
            Stmt::Import { name, url, alias, span } => {
                let i = ImportRef { name, url, alias, span: *span };
                if starts_with(url.as_str(), "http://") || starts_with(url.as_str(), "https://") {
                    self.wait(Frame::ImportCache(i), Want::Cached(name.clone()))
                } else {
                    self.wait(Frame::ImportText(i), Want::World(Request::ReadFile(url.clone())))
                }
            },
            Stmt::Load { lazy, path, alias, from, sigs, span } => {
                let l = LoadRef { lazy: *lazy, path, alias, sigs, span: *span };
                match from {
                    Some(h) => self.wait(Frame::LoadHeader(l, h.clone()), Want::Header(h.clone())),
                    None => self.exec_load(l),
                }
            },
            Stmt::Alias { original, new_name, .. } => {
                let ghost before = self.aliases@;
                self.aliases.insert(new_name.as_str(), original);
                assert(text_map(self.aliases@) =~= text_map(before).insert(new_name@, original@));
                self.fall()
            },
            Stmt::Go { callee, args, span } => {
                let none: Vec<Value> = Vec::new();
                assert(values_v(none@) =~= Seq::empty());
                if args.len() == 0 {
                    let child = self.fork(callee, none, *span);
                    let _ = self.fall();
                    Some(Want::Spawn(Box::new(child)))
                } else {
                    assert(exprs_v(args@)[0] == expr_v(args@[0]));
                    self.eval_in(Frame::Args(callee, args, none, *span, true), &args[0])
                }
            },
            Stmt::DebugPrint { expr, .. } => if self.debug {
                self.eval_in(Frame::Debug, expr)
            } else {
                self.fall()
            },
            Stmt::Try { body, catch_var, handler, .. } => {
                self.push(Frame::Try(catch_var, handler));
                self.exec_block(body)
            },
            Stmt::Throw { value, span } => self.eval_in(Frame::Throw(*span), value),
            _ => self.fall(),
        }
    }

    /// Goes on with a loop over pairs at a place.
    pub(crate) fn exec_for(&mut self, f: ForRef<'a>, pairs: Vec<(Value, Value)>, i: usize) -> (r: Option<Want<'a>>)
        requires
            old(self).wf(),
        ensures
            final(self).wf(),
            final(self)@ == looping(old(self)@, for_v(f), pairs_v(pairs@), i as int),
            r is None,
    {
        if i >= pairs.len() {
            return self.fall();
        }
        assert(pairs_v(pairs@)[i as int] == (pairs@[i as int].0@, pairs@[i as int].1@));
        let mut s = new_scope();
        declare(&mut s, f.var.as_str(), pairs[i].0.dup());
        if let Some(k) = f.var2 {
            declare(&mut s, k.as_str(), pairs[i].1.dup());
        }
        push_scope(&mut self.env, s);
        self.push(Frame::For(f, pairs, i + 1));
        self.push(Frame::Stmts(f.body, 0));
        self.fall()
    }

    /// Starts a loop over a value.
    pub(crate) fn start_for(&mut self, f: ForRef<'a>, v: Value) -> (r: Option<Want<'a>>)
        requires
            old(self).wf(),
        ensures
            final(self).wf(),
            final(self)@ == for_step(old(self)@, for_v(f), v@),
            r is None,
    {
        match &v {
            Value::List(vs) => if f.var2.is_some() {
                self.runtime_err(
                    codes::TYPE_MISMATCH,
                    "`for k, v in` requires a dict, got a list",
                    f.span,
                    Some("iterate lists with a single variable: `for x in list`"),
                )
            } else {
                let pairs = pair_list(vs);
                self.exec_for(f, pairs, 0)
            },
            Value::Dict(es) => {
                let pairs = pair_dict(es);
                self.exec_for(f, pairs, 0)
            },
            v => {
                let msg = cat3("`for in` requires a list or dict, got `", v.kind_name(), "`");
                self.runtime_err(
                    codes::TYPE_MISMATCH,
                    msg.as_str(),
                    f.iter_span,
                    Some("iterate a list with `for x in list` or a dict with `for k, v in dict`"),
                )
            },
        }
    }

    /// Tries the arms of a match from a place on.
    pub(crate) fn try_arm(&mut self, arms: &'a Vec<(Option<Expr>, Expr)>, i: usize, v: Value, span: Span) -> (r: Option<Want<'a>>)
        requires
            old(self).wf(),
        ensures
            final(self).wf(),
            final(self)@ == matching(old(self)@, arms_v(arms@), i as int, v@, span),
            r is None,
    {
        if i >= arms.len() {
            return self.runtime_err(
                codes::SYNTAX,
                "no match arm matched the value",
                span,
                Some("add a `_` wildcard arm as the fallback"),
            );
        }
        assert(arms_v(arms@)[i as int] == (opt_expr_v(arms@[i as int].0), expr_v(arms@[i as int].1)));
        match &arms[i].0 {
            None => {
                self.now = Now::Eval(&arms[i].1);
                None
            },
            Some(p) => self.eval_in(Frame::MatchTry(arms, i, v, span), p),
        }
    }

    /// Throws a value.
    pub(crate) fn throw(&mut self, v: Value, span: Span) -> (r: Option<Want<'a>>)
        requires
            old(self).wf(),
        ensures
            final(self).wf(),
            final(self)@ == raising(old(self)@, thrown(old(self)@, v@, span)),
            r is None,
    {
        match &v {
            Value::Str(s) => self.runtime_err(codes::THROW, s.as_str(), span, None),
            Value::Error(e) => if eq(e.file.as_str(), self.file.as_str()) {
                let x = ZError::new(
                    e.code,
                    e.message.as_str(),
                    self.file.as_str(),
                    self.src.as_str(),
                    e.line,
                    e.col,
                    1,
                    None,
                );
                self.raise(x)
            } else {
                let line = dec_usize(e.line);
                let col = dec_usize(e.col);
                let at = cat5(":", line.as_str(), ":", col.as_str(), ")");
                let msg = cat4(e.message.as_str(), " (at ", e.file.as_str(), at.as_str());
                assert(msg@ =~= e.message@ + " (at "@ + e.file@ + ":"@ + dec(e.line as nat) + ":"@ + dec(e.col as nat)
                    + ")"@);
                self.raise(ZError::plain(e.code, msg.as_str(), None))
            },
            v => {
                let msg = cat3("`throw` accepts a `str` or `error`, got `", v.kind_name(), "`");
                self.runtime_err(codes::TYPE_MISMATCH, msg.as_str(), span, None)
            },
        }
    }

    /// Raises the error of a condition that is no `bool`.
    pub(crate) fn not_bool(&mut self, what: &str, v: &Value, span: Span) -> (r: Option<Want<'a>>)
        requires
            old(self).wf(),
        ensures
            final(self).wf(),
            final(self)@ == no_bool(old(self)@, what@, v@, span),
            r is None,
    {
        let msg = cat4(what, " condition must be `bool`, got `", v.kind_name(), "`");
        self.runtime_err(codes::COND_NOT_BOOL, msg.as_str(), span, None)
    }

    /// Goes on behind the left side of an operator.
    pub(crate) fn eval_binary(&mut self, op: BinOp, v: Value, rhs: &'a Expr, span: Span) -> (r: Option<Want<'a>>)
        requires
            old(self).wf(),
        ensures
            final(self).wf(),
            (final(self)@, want_v(r)) == give_to(old(self)@, FrameV::Left(op, expr_v(*rhs), span), v@),
    {
        match op {
            BinOp::And => match v {
                Value::Bool(false) => self.give(Value::Bool(false)),
                _ => self.eval_in(Frame::Logic(span), rhs),
            },
            BinOp::Or => match v {
                Value::Bool(true) => self.give(Value::Bool(true)),
                _ => self.eval_in(Frame::Logic(span), rhs),
            },
            _ => self.eval_in(Frame::Right(op, v, span), rhs),
        }
    }

    /// Applies an operation to a value at a place.
    pub(crate) fn apply(&mut self, f: Frame<'a>, v: Value) -> (r: Option<Want<'a>>)
        requires
            old(self).wf(),
            f is Field || f is Unary || f is Right || f is Logic || f is MatchTry,
        ensures
            final(self).wf(),
            (final(self)@, want_v(r)) == give_to(old(self)@, frame_v(f), v@),
    {
        match f {
            Frame::Field(n, span) => {
                let o = field(
                    &Place { file: self.file.as_str(), src: self.src.as_str(), span, windows: self.windows },
                    &v,
                    n.as_str(),
                );
                self.absorb(o, span)
            },
            Frame::Unary(op, span) => {
                let o = prefix(&Place { file: self.file.as_str(), src: self.src.as_str(), span, windows: self.windows }, op, &v);
                self.absorb(o, span)
            },
            Frame::Right(op, l, span) => {
                let o = infix(&Place { file: self.file.as_str(), src: self.src.as_str(), span, windows: self.windows }, op, &l, &v);
                self.absorb(o, span)
            },
            Frame::Logic(span) => {
                let o = require_bool_val(&Place { file: self.file.as_str(), src: self.src.as_str(), span, windows: self.windows }, &v);
                self.absorb(o, span)
            },
            Frame::MatchTry(arms, i, w, span) => {
                let t = values_eq(&Place { file: self.file.as_str(), src: self.src.as_str(), span, windows: self.windows }, &w, &v);
                match t {
                    Err(e) => self.raise(e),
                    Ok(t) => if i < arms.len() {
                        if t {
                            assert(arms_v(arms@)[i as int] == (
                                opt_expr_v(arms@[i as int].0),
                                expr_v(arms@[i as int].1),
                            ));
                            self.now = Now::Eval(&arms[i].1);
                            None
                        } else {
                            self.try_arm(arms, i + 1, w, span)
                        }
                    } else {
                        self.try_arm(arms, arms.len(), w, span)
                    },
                }
            },
            _ => self.fall(),
        }
    }

    /// Adds a value to those of a list, a dictionary or a call.
    pub(crate) fn collect(&mut self, f: Frame<'a>, v: Value) -> (r: Option<Want<'a>>)
        requires
            old(self).wf(),
            f is List || f is Dict || f is Args,
        ensures
            final(self).wf(),
            (final(self)@, want_v(r)) == give_to(old(self)@, frame_v(f), v@),
    {
        match f {
            Frame::List(es, d) => {
                let mut d = d;
                let ghost before = values_v(d@);
                d.push(v);
                assert(values_v(d@) =~= before.push(v@));
                if d.len() < es.len() {
                    assert(exprs_v(es@)[d.len() as int] == expr_v(es@[d.len() as int]));
                    let n: usize = d.len();
                    self.eval_in(Frame::List(es, d), &es[n])
                } else {
                    self.give(Value::List(d))
                }
            },
            Frame::Dict(es, d) => {
                let mut d = d;
                assert(entries_v(es@).len() == es.len());
                assert(dict_v(d@).len() == d.len());
                if d.len() >= es.len() {
                    return self.fall();
                }
                let ghost before = dict_v(d@);
                let ghost k = d.len() as int;
                assert(entries_v(es@)[k] == (es@[k].0@, expr_v(es@[k].1)));
                let key = es[d.len()].0.clone();
                d.push((key, v));
                assert(dict_v(d@) =~= before.push((key@, v@)));
                if d.len() < es.len() {
                    let n: usize = d.len();
                    assert(entries_v(es@)[n as int] == (es@[n as int].0@, expr_v(es@[n as int].1)));
                    self.eval_in(Frame::Dict(es, d), &es[n].1)
                } else {
                    self.give(Value::Dict(d))
                }
            },
            Frame::Args(c, es, d, span, go) => {
                let mut d = d;
                let ghost before = values_v(d@);
                d.push(v);
                assert(values_v(d@) =~= before.push(v@));
                if d.len() < es.len() {
                    assert(exprs_v(es@)[d.len() as int] == expr_v(es@[d.len() as int]));
                    let n: usize = d.len();
                    self.eval_in(Frame::Args(c, es, d, span, go), &es[n])
                } else if go {
                    let child = self.fork(c, d, span);
                    let _ = self.fall();
                    Some(Want::Spawn(Box::new(child)))
                } else {
                    self.now = Now::Call(c, d, span);
                    None
                }
            },
            _ => self.fall(),
        }
    }

    /// Hands a value on to a frame.
    #[verifier::rlimit(40)]
    pub(crate) fn give_to(&mut self, f: Frame<'a>, v: Value) -> (r: Option<Want<'a>>)
        requires
            old(self).wf(),
            frame_wf(f),
        ensures
            final(self).wf(),
            (final(self)@, want_v(r)) == give_to(old(self)@, frame_v(f), v@),
    {
        match f {
            Frame::If(span, t, e) => match &v {
                Value::Bool(b) => if *b {
                    self.exec_block(t)
                } else {
                    match e {
                        Some(x) => self.exec_block(x),
                        None => self.fall(),
                    }
                },
                v => self.not_bool("if", v, span),
            },
            Frame::WhileTest(c, b) => match &v {
                Value::Bool(t) => if *t {
                    self.push(Frame::WhileBody(c, b));
                    self.exec_block(b)
                } else {
                    self.fall()
                },
                v => self.not_bool("while", v, expr_span(c)),
            },
            Frame::ForHead(r) => self.start_for(r, v),
            Frame::Store(n) => {
                set_or_declare(&mut self.env, n.as_str(), v);
                self.fall()
            },
            Frame::Return => {
                self.now = Now::Ret(v);
                None
            },
            Frame::Throw(span) => self.throw(v, span),
            Frame::Debug => {
                let mut ps: Vec<Piece> = Vec::new();
                ps.push(Piece::Text("[debug] ".to_owned()));
                v.pieces(&mut ps);
                assert(pieces_v(ps@) =~= seq![PieceV::Text("[debug] "@)] + shown(v@));
                self.push(Frame::Drop);
                let o = show_pieces(ps, true);
                self.absorb(o, Span { line: 0, col: 0, len: 0 })
            },
            Frame::FStr(segs, i, ps, span) => {
                let mut ps = ps;
                v.pieces(&mut ps);
                if i < segs.len() {
                    self.eval_text(segs, i + 1, ps, span)
                } else {
                    self.eval_text(segs, segs.len(), ps, span)
                }
            },
            Frame::Left(op, rhs, span) => self.eval_binary(op, v, rhs, span),
            Frame::MatchOn(arms, span) => self.try_arm(arms, 0, v, span),
            Frame::List(..) | Frame::Dict(..) | Frame::Args(..) => self.collect(f, v),
            Frame::Field(..) | Frame::Unary(..) | Frame::Right(..) | Frame::Logic(..) | Frame::MatchTry(..) => {
                self.apply(f, v)
            },
            Frame::Pause => self.wait(Frame::Paused, Want::Pause),
            Frame::Block | Frame::For(..) | Frame::Body(_) | Frame::Module(_) => {
                self.push(f);
                self.fall()
            },
            _ => self.fall(),
        }
    }

    /// Takes the innermost frame away.
    pub(crate) fn pop(&mut self) -> (r: Option<Frame<'a>>)
        requires
            old(self).wf(),
        ensures
            final(self).wf(),
            match r {
                Some(f) => {
                    &&& old(self)@.frames.len() > 0
                    &&& frame_wf(f)
                    &&& frame_v(f) == old(self)@.frames.last()
                    &&& final(self)@ == (InterpV { frames: old(self)@.frames.drop_last(), ..old(self)@ })
                },
                None => old(self)@.frames.len() == 0 && final(self)@ == old(self)@,
            },
    {
        let ghost before = self.frames@;
        let r = self.frames.pop();
        proof {
            if before.len() > 0 {
                assert(frame_wf(before[before.len() - 1]));
                assert(frames_v(self.frames@) =~= frames_v(before).drop_last());
            }
        }
        r
    }

    /// Goes back to the scopes of a caller.
    pub(crate) fn leave(&mut self, env: Vec<Table<Value>>)
        requires
            old(self).wf(),
            env_wf(env@),
        ensures
            final(self).wf(),
            final(self)@ == (InterpV { env: env_v(env@), depth: shallower(old(self)@.depth), ..old(self)@ }),
    {
        self.env = env;
        if self.depth > 0 {
            self.depth = self.depth - 1;
        }
    }

    /// Goes on behind a statement.
    pub(crate) fn fall_out(&mut self) -> (r: Option<Want<'a>>)
        requires
            old(self).wf(),
            old(self)@.now is Fall,
        ensures
            final(self).wf(),
            final(self)@ == fall_step(old(self)@),
            r is None,
    {
        match self.pop() {
            None => {
                self.now = Now::Over(None);
                None
            },
            Some(f) => match f {
                Frame::Stmts(ss, i) => if i < ss.len() {
                    assert(stmts_v(ss@)[i as int] == stmt_v(ss@[i as int]));
                    self.push(Frame::Stmts(ss, i + 1));
                    self.now = Now::Exec(&ss[i]);
                    None
                } else {
                    None
                },
                Frame::Block => {
                    pop_scope(&mut self.env);
                    None
                },
                Frame::Body(env) => {
                    self.leave(env);
                    self.give(Value::Null)
                },
                Frame::Module(env) => {
                    self.env = env;
                    None
                },
                Frame::WhileBody(c, b) => self.eval_in(Frame::WhileTest(c, b), c),
                Frame::For(f, ps, i) => {
                    pop_scope(&mut self.env);
                    self.exec_for(f, ps, i)
                },
                _ => None,
            },
        }
    }

    /// Leaves a function with a value.
    pub(crate) fn return_out(&mut self, v: Value) -> (r: Option<Want<'a>>)
        requires
            old(self).wf(),
        ensures
            final(self).wf(),
            final(self)@ == ret_step(InterpV { now: NowV::Ret(v@), ..old(self)@ }, v@),
            r is None,
    {
        match self.pop() {
            None => {
                self.now = Now::Over(None);
                None
            },
            Some(f) => match f {
                Frame::Body(env) => {
                    self.leave(env);
                    self.give(v)
                },
                Frame::Module(env) => {
                    self.env = env;
                    self.fall()
                },
                Frame::Block | Frame::For(..) => {
                    pop_scope(&mut self.env);
                    self.now = Now::Ret(v);
                    None
                },
                _ => {
                    self.now = Now::Ret(v);
                    None
                },
            },
        }
    }

    /// Looks for what catches an error.
    pub(crate) fn raise_out(&mut self, e: ZError) -> (r: Option<Want<'a>>)
        requires
            old(self).wf(),
        ensures
            final(self).wf(),
            final(self)@ == raise_step(InterpV { now: NowV::Raise(e@), ..old(self)@ }, e@),
            r is None,
    {
        match self.pop() {
            None => {
                self.now = Now::Over(Some(e));
                None
            },
            Some(f) => match f {
                Frame::Try(n, h) => {
                    let mut s = new_scope();
                    declare(&mut s, n.as_str(), Value::Error(ErrorObj::from_err(&e)));
                    push_scope(&mut self.env, s);
                    self.push(Frame::Block);
                    self.push(Frame::Stmts(h, 0));
                    self.fall()
                },
                Frame::Body(env) => {
                    self.leave(env);
                    self.raise(e)
                },
                Frame::Module(env) => {
                    self.env = env;
                    self.raise(e)
                },
                Frame::Block => {
                    pop_scope(&mut self.env);
                    self.raise(e)
                },
                _ => self.raise(e),
            },
        }
    }

    /// Calls a function of a loaded library.
    pub(crate) fn invoke(&mut self, c: &'a String, a: Vec<Value>, span: Span) -> (r: Option<Want<'a>>)
        requires
            old(self).wf(),
        ensures
            final(self).wf(),
            (final(self)@, want_v(r)) == invoking(old(self)@, c@, values_v(a@), span),
    {
        let (lib, func) = split_name(c.as_str());
        match self.sigs.get(c.as_str()) {
            Some(sig) => {
                let ret = sig.ret;
                let x = call_ffi_typed(
                    &Place { file: self.file.as_str(), src: self.src.as_str(), span, windows: self.windows },
                    sig,
                    func.as_str(),
                    &a,
                );
                match x {
                    Err(e) => self.raise(e),
                    Ok(args) => {
                        let w = Want::Call(lib.clone(), func.clone(), args, ret);
                        self.wait(Frame::LibCall(ret, func, lib, span), w)
                    },
                }
            },
            None => {
                let x = call_plain(
                    &Place { file: self.file.as_str(), src: self.src.as_str(), span, windows: self.windows },
                    c.as_str(),
                    &a,
                );
                match x {
                    Err(e) => self.raise(e),
                    Ok(args) => {
                        let w = Want::Call(lib.clone(), func.clone(), args, FfiTy::Int);
                        self.wait(Frame::LibCall(FfiTy::Int, func, lib, span), w)
                    },
                }
            },
        }
    }

    /// Calls a function of a library.
    pub(crate) fn call_lib_fn(&mut self, plugins: &Table<String>, c: &'a String, a: Vec<Value>, span: Span) -> (r: Option<Want<'a>>)
        requires
            old(self).wf(),
            plugins.wf(),
        ensures
            final(self).wf(),
            forall|w: WorldV|
                w.plugins == texts::texts_v(*plugins) ==> (final(self)@, want_v(r)) == #[trigger] lib_step(
                    old(self)@,
                    w,
                    c@,
                    values_v(a@),
                    span,
                ),
    {
        let (lib, _) = split_name(c.as_str());
        if self.libs.contains_key(lib.as_str()) {
            return self.invoke(c, a, span);
        }
        let known = match self.lazy_libs.get(lib.as_str()) {
            Some(p) => Some((*p).clone()),
            None => match texts::get(plugins, lib.as_str()) {
                Some(p) => Some(p.clone()),
                None => None,
            },
        };
        match known {
            Some(path) => self.wait(Frame::CallLoad(c, a, span, path.clone()), Want::Load(lib, path)),
            None => {
                let msg = cat3("library `", lib.as_str(), "` is not loaded");
                let help = cat5(
                    "add `load \"path/to/lib\" as ",
                    lib.as_str(),
                    ";` or `plugin.load(path, \"",
                    lib.as_str(),
                    "\")` before calling",
                );
                self.runtime_err(codes::NOT_FOUND, msg.as_str(), span, Some(help.as_str()))
            },
        }
    }

    /// Calls a built-in function.
    pub(crate) fn call_builtin(&mut self, w: &mut World, c: &str, a: &Vec<Value>, span: Span) -> (r: Option<Want<'a>>)
        requires
            old(self).wf(),
            old(w).wf(),
        ensures
            final(self).wf(),
            final(w).wf(),
            ({
                let (w2, o) = crate::builtins::called(old(w)@, place(old(self)@, span), c@, values_v(a@));
                final(w)@ == w2 && (final(self)@, want_v(r)) == absorbed(old(self)@, o, span)
            }),
    {
        let o = call(w, &Place { file: self.file.as_str(), src: self.src.as_str(), span, windows: self.windows }, c, a);
        self.absorb(o, span)
    }

    /// Builds a struct.
    pub(crate) fn build(&mut self, fs: &'a Vec<(String, TyName)>, c: &str, a: &Vec<Value>, span: Span) -> (r: Option<Want<'a>>)
        requires
            old(self).wf(),
            !old(self)@.fns.dom().contains(c@),
            old(self)@.structs.dom().contains(c@),
            old(self)@.structs[c@] == fields_v(fs@),
        ensures
            final(self).wf(),
            forall|w: WorldV| (final(self)@, w, want_v(r)) == #[trigger] call_step(old(self)@, w, c@, values_v(a@), span),
    {
        if fs.len() != a.len() {
            let want = dec_usize(fs.len());
            let got = dec_usize(a.len());
            let head = cat3("struct `", c, "` expects ");
            let msg = cat4(head.as_str(), want.as_str(), " fields, got ", got.as_str());
            assert(msg@ =~= "struct `"@ + c@ + "` expects "@ + dec(fs.len() as nat) + " fields, got "@ + dec(
                a.len() as nat,
            ));
            let ns = names_of(fs);
            let list = join(&ns, ", ");
            let help = cat5("construct with `", c, "(", list.as_str(), ")`");
            self.runtime_err(codes::ARG_COUNT, msg.as_str(), span, Some(help.as_str()))
        } else {
            let es = zip_fields(fs, a);
            self.give(Value::Dict(es))
        }
    }

    /// Raises the error of a call with another number of arguments.
    fn wrong_count(&mut self, c: &str, want: usize, got: usize, span: Span) -> (r: Option<Want<'a>>)
        requires
            old(self).wf(),
        ensures
            final(self).wf(),
            final(self)@ == miscounted(old(self)@, c@, want as nat, got as nat, span),
            r is None,
    {
        let n = dec_usize(want);
        let k = dec_usize(got);
        let mut msg = cat5("wrong number of arguments: `", c, "` expects ", n.as_str(), ", got ");
        msg.append(k.as_str());
        self.runtime_err(codes::ARG_COUNT, msg.as_str(), span, Some("pass one argument for each parameter"))
    }

    /// Calls a function by name.
    #[verifier::rlimit(40)]
    pub(crate) fn call_fn(&mut self, w: &mut World, c: &'a String, a: Vec<Value>, span: Span) -> (r: Option<Want<'a>>)
        requires
            old(self).wf(),
            old(w).wf(),
        ensures
            final(self).wf(),
            final(w).wf(),
            (final(self)@, final(w)@, want_v(r)) == call_step(old(self)@, old(w)@, c@, values_v(a@), span),
    {
        let found = match self.fns.get(c.as_str()) {
            Some(f) => Some(*f),
            None => None,
        };
        if let Some(f) = found {
            if self.depth >= DEPTH_LIMIT {
                return self.runtime_err(
                    codes::RECURSION_DEPTH,
                    "recursion depth exceeded (limit 5000)",
                    span,
                    Some("check for infinite recursion, or rewrite iteratively"),
                );
            }
            if f.params.len() != a.len() {
                return self.wrong_count(c.as_str(), f.params.len(), a.len(), span);
            }
            let s = bind(f.params, &a);
            let mut env: Vec<Table<Value>> = Vec::new();
            env.push(s);
            assert(env_v(env@) =~= seq![scope_v(s)]);
            assert(env_wf(env@));
            std::mem::swap(&mut env, &mut self.env);
            self.depth = self.depth + 1;
            self.push(Frame::Body(env));
            self.push(Frame::Stmts(f.body, 0));
            return self.fall();
        }
        let made = match self.structs.get(c.as_str()) {
            Some(fs) => Some(*fs),
            None => None,
        };
        if let Some(fs) = made {
            return self.build(fs, c.as_str(), &a, span);
        }
        if is_builtin(c.as_str()) {
            return self.call_builtin(w, c.as_str(), &a, span);
        }
        let other = match self.aliases.get(c.as_str()) {
            Some(o) => Some(*o),
            None => None,
        };
        if let Some(o) = other {
            self.now = Now::Call(o, a, span);
            return None;
        }
        if has_char(c.as_str(), '.') {
            return self.call_lib_fn(&w.plugins, c, a, span);
        }
        self.call_builtin(w, c.as_str(), &a, span)
    }

}

/// The name of a library.
pub(crate) fn name_lib(windows: bool, alias: &Option<String>, path: &str) -> (r: String)
    ensures
        r@ == lib_name(windows, crate::error::opt_text(*alias), path@),
{
    match alias {
        Some(a) => a.clone(),
        None => {
            let f = file_stem(windows, path);
            if chars(f.as_str()).len() == 0 {
                "lib".to_owned()
            } else {
                f
            }
        },
    }
}

/// The pairs of a list.
fn pair_list(vs: &Vec<Value>) -> (r: Vec<(Value, Value)>)
    ensures
        pairs_v(r@) == list_pairs(values_v(vs@)),
{
    let mut out: Vec<(Value, Value)> = Vec::new();
    let mut i: usize = 0;
    while i < vs.len()
        invariant
            i <= vs.len(),
            out.len() == i,
            forall|k: int|
                0 <= k < i ==> (#[trigger] out@[k]).0@ == value_v(vs@[k]) && out@[k].1@ == ValueV::Null,
        decreases vs.len() - i,
    {
        out.push((vs[i].dup(), Value::Null));
        i = i + 1;
    }
    assert(pairs_v(out@) =~= list_pairs(values_v(vs@)));
    out
}

/// The pairs of a dictionary.
fn pair_dict(es: &Vec<(String, Value)>) -> (r: Vec<(Value, Value)>)
    ensures
        pairs_v(r@) == dict_pairs(dict_v(es@)),
{
    let mut out: Vec<(Value, Value)> = Vec::new();
    let mut i: usize = 0;
    while i < es.len()
        invariant
            i <= es.len(),
            out.len() == i,
            forall|k: int|
                0 <= k < i ==> (#[trigger] out@[k]).0@ == ValueV::Str(es@[k].0@) && out@[k].1@ == value_v(es@[k].1),
        decreases es.len() - i,
    {
        out.push((Value::Str(es[i].0.clone()), es[i].1.dup()));
        i = i + 1;
    }
    assert(pairs_v(out@) =~= dict_pairs(dict_v(es@)));
    out
}

/// The library and the function of a full name.
pub(crate) fn split_name(c: &str) -> (r: (String, String))
    ensures
        r.0@ == lib_of(c@),
        r.1@ == func_of(c@),
{
    let v = chars(c);
    match find_last(&v, '.') {
        Some(i) => {
            let n: usize = v.len();
            let r = (slice(&v, 0, i), slice(&v, i + 1, n));
            assert(r.0@ =~= c@.take(i as int));
            assert(r.1@ =~= c@.skip(i + 1));
            r
        },
        None => {
            let r = (String::new(), slice(&v, 0, v.len()));
            assert(r.0@ =~= Seq::empty());
            assert(r.1@ =~= c@);
            r
        },
    }
}

/// The scope of a call.
fn bind(ps: &Vec<Param>, vs: &Vec<Value>) -> (r: Table<Value>)
    requires
        ps.len() == vs.len(),
    ensures
        r.wf(),
        scope_v(r) == bound(params_v(ps@), values_v(vs@), vs.len() as int),
{
    let mut s = new_scope();
    let mut i: usize = 0;
    while i < ps.len()
        invariant
            i <= ps.len(),
            ps.len() == vs.len(),
            s.wf(),
            scope_v(s) == bound(params_v(ps@), values_v(vs@), i as int),
        decreases ps.len() - i,
    {
        assert(params_v(ps@)[i as int] == ps@[i as int]@);
        assert(values_v(vs@)[i as int] == value_v(vs@[i as int]));
        declare(&mut s, ps[i].name.as_str(), vs[i].dup());
        i = i + 1;
    }
    s
}

/// The names of fields.
fn names_of(fs: &Vec<(String, TyName)>) -> (r: Vec<String>)
    ensures
        crate::text::strs(r@) == field_names(fields_v(fs@)),
{
    let mut out: Vec<String> = Vec::new();
    let mut i: usize = 0;
    while i < fs.len()
        invariant
            i <= fs.len(),
            out.len() == i,
            forall|k: int| 0 <= k < i ==> (#[trigger] out@[k])@ == fs@[k].0@,
        decreases fs.len() - i,
    {
        out.push(fs[i].0.clone());
        i = i + 1;
    }
    assert(crate::text::strs(out@) =~= field_names(fields_v(fs@)));
    out
}

/// A struct as a dictionary of its fields.
fn zip_fields(fs: &Vec<(String, TyName)>, vs: &Vec<Value>) -> (r: Vec<(String, Value)>)
    requires
        fs.len() == vs.len(),
    ensures
        dict_v(r@) == instance(fields_v(fs@), values_v(vs@)),
{
    let mut out: Vec<(String, Value)> = Vec::new();
    let mut i: usize = 0;
    while i < vs.len()
        invariant
            i <= vs.len(),
            fs.len() == vs.len(),
            out.len() == i,
            forall|k: int| 0 <= k < i ==> (#[trigger] out@[k]).0@ == fs@[k].0@ && value_v(out@[k].1) == value_v(vs@[k]),
        decreases vs.len() - i,
    {
        out.push((fs[i].0.clone(), vs[i].dup()));
        i = i + 1;
    }
    assert(dict_v(out@) =~= instance(fields_v(fs@), values_v(vs@)));
    out
}

} // verus!
