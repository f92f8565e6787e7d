//! The state of a running program, and what one step makes of it.

use vstd::prelude::*;

use super::defs::{fns_v, modules_fns, structs_v, FnDef, FnV};
use super::env::{closed_scope, env_get, env_lines, env_set, env_v, env_wf, no_scope, ScopeV};
use super::ffi::{cargs_v, fits_result, plain_args, result_of, typed_args, CArg, CArgV};
use super::ops::{bool_of, default_of, equal_of, field_of, infix_of, prefix_of};
use crate::ast::{
    arms_v, entries_v, expr_v, exprs_v, segs_v, sigs_v, stmt_v, stmts_v, BinOp, Expr, ExprV, FStrSeg, FfiSig,
    FfiSigV, FfiTy, ParamV, Program, SegV, Stmt, StmtV, TyName, UnOp,
};
use crate::builtins::basics::showing;
use crate::builtins::http::{host_of, http_call, net_fault, response_text};
use crate::builtins::names::names;
use crate::builtins::path::stem_of;
use crate::builtins::world::{
    fault, HttpCall, HttpCallV, OutV, Pending, PendingV, PlaceV, Reply, ReplyV, Request, RequestV,
};
use crate::builtins::{called, finished, fits, WorldV};
use crate::error::{codes, err_at, err_plain, opt_text, ErrV, ZError};
use crate::lexer::Span;
use crate::parser::grammar::program_of;
use crate::table::Table;
use crate::text::dec;
use crate::value::{caught, dict_v, pieces_v, shown, values_v, Piece, PieceV, Value, ValueV};
use crate::words::{joined_by, last_pos, starts};

verus! {

/// The deepest that calls may nest.
pub const DEPTH_LIMIT: usize = 5000;

/// What a program does next.
pub enum Now<'a> {
    /// Evaluate an expression.
    Eval(&'a Expr),
    /// Execute a statement.
    Exec(&'a Stmt),
    /// Call a function.
    Call(&'a String, Vec<Value>, Span),
    /// Hand a value on.
    Give(Value),
    /// Go on behind a statement.
    Fall,
    /// Leave a function with a value.
    Ret(Value),
    /// Look for what catches an error.
    Raise(ZError),
    /// Wait for an answer.
    Wait,
    /// Nothing more: the program is over, by an error or not.
    Over(Option<ZError>),
}

/// What a program does next, mathematically.
pub enum NowV {
    Eval(ExprV),
    Exec(StmtV),
    Call(Seq<char>, Seq<ValueV>, Span),
    Give(ValueV),
    Fall,
    Ret(ValueV),
    Raise(ErrV),
    Wait,
    Over(Option<ErrV>),
}

/// The mathematical form of what a program does next.
pub open spec fn now_v(n: Now) -> NowV {
    match n {
        Now::Eval(e) => NowV::Eval(expr_v(*e)),
        Now::Exec(s) => NowV::Exec(stmt_v(*s)),
        Now::Call(c, a, s) => NowV::Call(c@, values_v(a@), s),
        Now::Give(v) => NowV::Give(v@),
        Now::Fall => NowV::Fall,
        Now::Ret(v) => NowV::Ret(v@),
        Now::Raise(e) => NowV::Raise(e@),
        Now::Wait => NowV::Wait,
        Now::Over(e) => NowV::Over(crate::builtins::world::opt_err(e)),
    }
}

/// The parts of a loop over a list or a dictionary.
#[derive(Clone, Copy)]
pub struct ForRef<'a> {
    pub var: &'a String,
    pub var2: &'a Option<String>,
    pub body: &'a Vec<Stmt>,
    pub iter_span: Span,
    pub span: Span,
}

/// The parts of a loop, mathematically.
pub struct ForV {
    pub var: Seq<char>,
    pub var2: Option<Seq<char>>,
    pub body: Seq<StmtV>,
    pub iter_span: Span,
    pub span: Span,
}

/// The mathematical form of the parts of a loop.
pub open spec fn for_v(f: ForRef) -> ForV {
    ForV {
        var: f.var@,
        var2: opt_text(*f.var2),
        body: stmts_v(f.body@),
        iter_span: f.iter_span,
        span: f.span,
    }
}

/// The parts of an import.
#[derive(Clone, Copy)]
pub struct ImportRef<'a> {
    pub name: &'a String,
    pub url: &'a String,
    pub alias: &'a Option<String>,
    pub span: Span,
}

/// The parts of an import, mathematically.
pub struct ImportV {
    pub name: Seq<char>,
    pub url: Seq<char>,
    pub alias: Option<Seq<char>>,
    pub span: Span,
}

/// The mathematical form of the parts of an import.
pub open spec fn import_v(i: ImportRef) -> ImportV {
    ImportV { name: i.name@, url: i.url@, alias: opt_text(*i.alias), span: i.span }
}

/// The parts of a `load`.
#[derive(Clone, Copy)]
pub struct LoadRef<'a> {
    pub lazy: bool,
    pub path: &'a String,
    pub alias: &'a Option<String>,
    pub sigs: &'a Vec<FfiSig>,
    pub span: Span,
}

/// The parts of a `load`, mathematically.
pub struct LoadV {
    pub lazy: bool,
    pub path: Seq<char>,
    pub alias: Option<Seq<char>>,
    pub sigs: Seq<FfiSigV>,
    pub span: Span,
}

/// The mathematical form of the parts of a `load`.
pub open spec fn load_v(l: LoadRef) -> LoadV {
    LoadV { lazy: l.lazy, path: l.path@, alias: opt_text(*l.alias), sigs: sigs_v(l.sigs@), span: l.span }
}

/// What is left to do around what a program does now.
pub enum Frame<'a> {
    /// The statements of a row from a place on.
    Stmts(&'a Vec<Stmt>, usize),
    /// Close the innermost scope.
    Block,
    /// Go back from a function to the scopes of its caller.
    Body(Vec<Table<Value>>),
    /// Go back from a module to the scopes of its importer.
    Module(Vec<Table<Value>>),
    /// Choose a branch.
    If(Span, &'a Vec<Stmt>, &'a Option<Vec<Stmt>>),
    /// Test the condition of a loop.
    WhileTest(&'a Expr, &'a Vec<Stmt>),
    /// Test again behind the body of a loop.
    WhileBody(&'a Expr, &'a Vec<Stmt>),
    /// Start a loop over a list or a dictionary.
    ForHead(ForRef<'a>),
    /// Go on with a loop over pairs from a place on.
    For(ForRef<'a>, Vec<(Value, Value)>, usize),
    /// Catch an error under a name.
    Try(&'a String, &'a Vec<Stmt>),
    /// Give a variable the value.
    Store(&'a String),
    /// Drop the value.
    Drop,
    /// Return the value.
    Return,
    Throw(Span),
    /// Print the value for debugging.
    Debug,
    /// The items of a list behind those that are there.
    List(&'a Vec<Expr>, Vec<Value>),
    /// The entries of a dictionary behind those that are there.
    Dict(&'a Vec<(String, Expr)>, Vec<(String, Value)>),
    /// The pieces of a text, of which one place is in work, behind those that are there.
    FStr(&'a Vec<FStrSeg>, usize, Vec<Piece>, Span),
    Field(&'a String, Span),
    Unary(UnOp, Span),
    /// The right side of an operator is still to do.
    Left(BinOp, &'a Expr, Span),
    /// The left side of an operator is done.
    Right(BinOp, Value, Span),
    /// The right side of `&&` or `||`.
    Logic(Span),
    /// Choose an arm for the value.
    MatchOn(&'a Vec<(Option<Expr>, Expr)>, Span),
    /// Compare a value with the pattern of an arm.
    MatchTry(&'a Vec<(Option<Expr>, Expr)>, usize, Value, Span),
    /// The arguments of a call behind those that are there; whether it runs on its own.
    Args(&'a String, &'a Vec<Expr>, Vec<Value>, Span, bool),
    /// A built-in function waits for an answer.
    Ask(Pending, Span),
    /// Wait for the user.
    Pause,
    Paused,
    ImportText(ImportRef<'a>),
    ImportCache(ImportRef<'a>),
    ImportNet(ImportRef<'a>),
    ImportSave(ImportRef<'a>, String),
    ImportAdopt(ImportRef<'a>),
    LoadHeader(LoadRef<'a>, String),
    LoadLib(LoadRef<'a>),
    /// A library is loaded for a call.
    CallLoad(&'a String, Vec<Value>, Span, String),
    /// A function of a library runs: its result, its name and its library.
    LibCall(FfiTy, String, String, Span),
}

/// What is left to do, mathematically.
pub enum FrameV {
    Stmts(Seq<StmtV>, int),
    Block,
    Body(Seq<ScopeV>),
    Module(Seq<ScopeV>),
    If(Span, Seq<StmtV>, Option<Seq<StmtV>>),
    WhileTest(ExprV, Seq<StmtV>),
    WhileBody(ExprV, Seq<StmtV>),
    ForHead(ForV),
    For(ForV, Seq<(ValueV, ValueV)>, int),
    Try(Seq<char>, Seq<StmtV>),
    Store(Seq<char>),
    Drop,
    Return,
    Throw(Span),
    Debug,
    List(Seq<ExprV>, Seq<ValueV>),
    Dict(Seq<(Seq<char>, ExprV)>, Seq<(Seq<char>, ValueV)>),
    FStr(Seq<SegV>, int, Seq<PieceV>, Span),
    Field(Seq<char>, Span),
    Unary(UnOp, Span),
    Left(BinOp, ExprV, Span),
    Right(BinOp, ValueV, Span),
    Logic(Span),
    MatchOn(Seq<(Option<ExprV>, ExprV)>, Span),
    MatchTry(Seq<(Option<ExprV>, ExprV)>, int, ValueV, Span),
    Args(Seq<char>, Seq<ExprV>, Seq<ValueV>, Span, bool),
    Ask(PendingV, Span),
    Pause,
    Paused,
    ImportText(ImportV),
    ImportCache(ImportV),
    ImportNet(ImportV),
    ImportSave(ImportV, Seq<char>),
    ImportAdopt(ImportV),
    LoadHeader(LoadV, Seq<char>),
    LoadLib(LoadV),
    CallLoad(Seq<char>, Seq<ValueV>, Span, Seq<char>),
    LibCall(FfiTy, Seq<char>, Seq<char>, Span),
}

/// The mathematical form of pairs of values.
pub open spec fn pairs_v(s: Seq<(Value, Value)>) -> Seq<(ValueV, ValueV)> {
    s.map_values(|e: (Value, Value)| (e.0@, e.1@))
}

/// The mathematical form of an optional row of statements.
pub open spec fn opt_stmts_v(o: Option<Vec<Stmt>>) -> Option<Seq<StmtV>> {
    match o {
        Some(b) => Some(stmts_v(b@)),
        None => None,
    }
}

/// The mathematical form of what is left to do.
pub open spec fn frame_v(f: Frame) -> FrameV {
    match f {
        Frame::Stmts(s, i) => FrameV::Stmts(stmts_v(s@), i as int),
        Frame::Block => FrameV::Block,
        Frame::Body(e) => FrameV::Body(env_v(e@)),
        Frame::Module(e) => FrameV::Module(env_v(e@)),
        Frame::If(s, t, e) => FrameV::If(s, stmts_v(t@), opt_stmts_v(*e)),
        Frame::WhileTest(c, b) => FrameV::WhileTest(expr_v(*c), stmts_v(b@)),
        Frame::WhileBody(c, b) => FrameV::WhileBody(expr_v(*c), stmts_v(b@)),
        Frame::ForHead(r) => FrameV::ForHead(for_v(r)),
        Frame::For(r, p, i) => FrameV::For(for_v(r), pairs_v(p@), i as int),
        Frame::Try(n, h) => FrameV::Try(n@, stmts_v(h@)),
        Frame::Store(n) => FrameV::Store(n@),
        Frame::Drop => FrameV::Drop,
        Frame::Return => FrameV::Return,
        Frame::Throw(s) => FrameV::Throw(s),
        Frame::Debug => FrameV::Debug,
        Frame::List(e, d) => FrameV::List(exprs_v(e@), values_v(d@)),
        Frame::Dict(e, d) => FrameV::Dict(entries_v(e@), dict_v(d@)),
        Frame::FStr(g, i, p, s) => FrameV::FStr(segs_v(g@), i as int, pieces_v(p@), s),
        Frame::Field(n, s) => FrameV::Field(n@, s),
        Frame::Unary(o, s) => FrameV::Unary(o, s),
        Frame::Left(o, e, s) => FrameV::Left(o, expr_v(*e), s),
        Frame::Right(o, v, s) => FrameV::Right(o, v@, s),
        Frame::Logic(s) => FrameV::Logic(s),
        Frame::MatchOn(a, s) => FrameV::MatchOn(arms_v(a@), s),
        Frame::MatchTry(a, i, v, s) => FrameV::MatchTry(arms_v(a@), i as int, v@, s),
        Frame::Args(c, a, d, s, g) => FrameV::Args(c@, exprs_v(a@), values_v(d@), s, g),
        Frame::Ask(p, s) => FrameV::Ask(p@, s),
        Frame::Pause => FrameV::Pause,
        Frame::Paused => FrameV::Paused,
        Frame::ImportText(i) => FrameV::ImportText(import_v(i)),
        Frame::ImportCache(i) => FrameV::ImportCache(import_v(i)),
        Frame::ImportNet(i) => FrameV::ImportNet(import_v(i)),
        Frame::ImportSave(i, c) => FrameV::ImportSave(import_v(i), c@),
        Frame::ImportAdopt(i) => FrameV::ImportAdopt(import_v(i)),
        Frame::LoadHeader(l, h) => FrameV::LoadHeader(load_v(l), h@),
        Frame::LoadLib(l) => FrameV::LoadLib(load_v(l)),
        Frame::CallLoad(c, a, s, p) => FrameV::CallLoad(c@, values_v(a@), s, p@),
        Frame::LibCall(t, f, l, s) => FrameV::LibCall(t, f@, l@, s),
    }
}

/// The mathematical form of frames.
pub open spec fn frames_v(s: Seq<Frame>) -> Seq<FrameV> {
    s.map_values(|f: Frame| frame_v(f))
}

/// Whether the tables that a frame keeps are sound.
pub open spec fn frame_wf(f: Frame) -> bool {
    match f {
        Frame::Body(e) => env_wf(e@),
        Frame::Module(e) => env_wf(e@),
        _ => true,
    }
}

/// A running program.
pub struct Interp<'a> {
    pub file: String,
    pub src: String,
    pub debug: bool,
    pub windows: bool,
    pub depth: usize,
    pub fns: Table<FnDef<'a>>,
    pub structs: Table<&'a Vec<(String, TyName)>>,
    pub sigs: Table<&'a FfiSig>,
    pub lazy_libs: Table<&'a String>,
    pub aliases: Table<&'a String>,
    pub libs: Table<bool>,
    pub env: Vec<Table<Value>>,
    pub frames: Vec<Frame<'a>>,
    pub now: Now<'a>,
}

/// A running program, mathematically.
#[verifier::ext_equal]
pub struct InterpV {
    pub file: Seq<char>,
    pub src: Seq<char>,
    pub debug: bool,
    pub windows: bool,
    pub depth: int,
    pub fns: Map<Seq<char>, FnV>,
    pub structs: Map<Seq<char>, Seq<(Seq<char>, TyName)>>,
    pub sigs: Map<Seq<char>, FfiSigV>,
    pub lazy_libs: Map<Seq<char>, Seq<char>>,
    pub aliases: Map<Seq<char>, Seq<char>>,
    pub libs: Set<Seq<char>>,
    pub env: Seq<ScopeV>,
    pub frames: Seq<FrameV>,
    pub now: NowV,
}

/// The mathematical form of signatures by name.
pub open spec fn sig_map(m: Map<Seq<char>, &FfiSig>) -> Map<Seq<char>, FfiSigV> {
    m.map_values(|s: &FfiSig| s@)
}

/// The mathematical form of texts by name.
pub open spec fn text_map(m: Map<Seq<char>, &String>) -> Map<Seq<char>, Seq<char>> {
    m.map_values(|s: &String| s@)
}

impl<'a> View for Interp<'a> {
    type V = InterpV;

    open spec fn view(&self) -> InterpV {
        InterpV {
            file: self.file@,
            src: self.src@,
            debug: self.debug,
            windows: self.windows,
            depth: self.depth as int,
            fns: fns_v(self.fns@),
            structs: structs_v(self.structs@),
            sigs: sig_map(self.sigs@),
            lazy_libs: text_map(self.lazy_libs@),
            aliases: text_map(self.aliases@),
            libs: self.libs@.dom(),
            env: env_v(self.env@),
            frames: frames_v(self.frames@),
            now: now_v(self.now),
        }
    }
}

impl<'a> Interp<'a> {
    /// Whether all tables of the program are sound.
    pub open spec fn wf(self) -> bool {
        &&& self.fns.wf() && self.structs.wf() && self.sigs.wf() && self.lazy_libs.wf() && self.aliases.wf()
            && self.libs.wf()
        &&& env_wf(self.env@)
        &&& forall|i: int| 0 <= i < self.frames.len() ==> frame_wf(#[trigger] self.frames@[i])
        &&& self.depth <= DEPTH_LIMIT
    }
}

/// What a program wants of the world outside.
pub enum Want<'a> {
    /// What a built-in function asks.
    World(Request),
    /// The text of a module that was fetched before.
    Cached(String),
    /// Fetch a module.
    Download(String, HttpCall),
    /// Keep the text of a module.
    SaveModule(String, String),
    /// Hold a module for as long as the program runs.
    Adopt(Program),
    /// The signatures of a header file.
    Header(String),
    /// Load a library at a path under a name.
    Load(String, String),
    /// Call a function of a library.
    Call(String, String, Vec<CArg>, FfiTy),
    /// Run a program beside this one; nothing is answered.
    Spawn(Box<Interp<'a>>),
    /// Wait for the user.
    Pause,
}

/// What a program wants, mathematically.
pub enum WantV {
    World(RequestV),
    Cached(Seq<char>),
    Download(Seq<char>, HttpCallV),
    SaveModule(Seq<char>, Seq<char>),
    Adopt(Seq<StmtV>),
    Header(Seq<char>),
    Load(Seq<char>, Seq<char>),
    Call(Seq<char>, Seq<char>, Seq<CArgV>, FfiTy),
    Spawn(InterpV),
    Pause,
}

/// The mathematical form of what a program wants.
pub open spec fn want_v(w: Option<Want>) -> Option<WantV> {
    match w {
        None => None,
        Some(Want::World(r)) => Some(WantV::World(r@)),
        Some(Want::Cached(n)) => Some(WantV::Cached(n@)),
        Some(Want::Download(n, c)) => Some(WantV::Download(n@, c@)),
        Some(Want::SaveModule(n, c)) => Some(WantV::SaveModule(n@, c@)),
        Some(Want::Adopt(p)) => Some(WantV::Adopt(p@)),
        Some(Want::Header(h)) => Some(WantV::Header(h@)),
        Some(Want::Load(n, p)) => Some(WantV::Load(n@, p@)),
        Some(Want::Call(l, f, a, t)) => Some(WantV::Call(l@, f@, cargs_v(a@), t)),
        Some(Want::Spawn(m)) => Some(WantV::Spawn((*m)@)),
        Some(Want::Pause) => Some(WantV::Pause),
    }
}

/// An answer to what a program wants.
pub enum Answer<'a> {
    World(Reply),
    /// A module that is held.
    Module(&'a Program),
    /// The signatures of a header file.
    Sigs(&'a Vec<FfiSig>),
}

/// An answer, mathematically.
pub enum AnswerV {
    World(ReplyV),
    Module(Seq<StmtV>),
    Sigs(Seq<FfiSigV>),
}

/// The mathematical form of an answer.
pub open spec fn answer_v(a: Answer) -> AnswerV {
    match a {
        Answer::World(r) => AnswerV::World(r@),
        Answer::Module(p) => AnswerV::Module(p@),
        Answer::Sigs(s) => AnswerV::Sigs(sigs_v(s@)),
    }
}

/// A place in the program.
pub open spec fn place(m: InterpV, span: Span) -> PlaceV {
    PlaceV { file: m.file, src: m.src, span, windows: m.windows }
}

/// The program when a value is handed on.
pub open spec fn giving(m: InterpV, v: ValueV) -> InterpV {
    InterpV { now: NowV::Give(v), ..m }
}

/// The program when it goes on behind a statement.
pub open spec fn falling(m: InterpV) -> InterpV {
    InterpV { now: NowV::Fall, ..m }
}

/// The program when an error is raised.
pub open spec fn raising(m: InterpV, e: ErrV) -> InterpV {
    InterpV { now: NowV::Raise(e), ..m }
}

/// The program when an expression is evaluated inside a frame.
pub open spec fn inside(m: InterpV, f: FrameV, e: ExprV) -> InterpV {
    InterpV { frames: m.frames.push(f), now: NowV::Eval(e), ..m }
}

/// The program when it waits inside a frame.
pub open spec fn waiting(m: InterpV, f: FrameV) -> InterpV {
    InterpV { frames: m.frames.push(f), now: NowV::Wait, ..m }
}

/// The program behind an operation: its value is handed on, its error raised, and an answer
/// that it needs is waited for.
pub open spec fn absorbed(m: InterpV, o: OutV, span: Span) -> (InterpV, Option<WantV>) {
    match o {
        OutV::Value(v) => (giving(m, v), None),
        OutV::Error(e) => (raising(m, e), None),
        OutV::Ask(r, p) => (waiting(m, FrameV::Ask(p, span)), Some(WantV::World(r))),
    }
}

/// The program when it enters a block.
pub open spec fn entering(m: InterpV, ss: Seq<StmtV>) -> InterpV {
    InterpV {
        env: m.env.push(no_scope()),
        frames: m.frames.push(FrameV::Block).push(FrameV::Stmts(ss, 0)),
        now: NowV::Fall,
        ..m
    }
}

/// The pieces of a text from place `i` on up to the next expression, behind those that are
/// there, and its place.
pub open spec fn literal_pieces(segs: Seq<SegV>, i: int, ps: Seq<PieceV>) -> (int, Seq<PieceV>)
    decreases segs.len() - i,
{
    if i < 0 || i >= segs.len() {
        (segs.len() as int, ps)
    } else {
        match segs[i] {
            SegV::Lit(t) => literal_pieces(segs, i + 1, ps.push(PieceV::Text(t))),
            SegV::Code(_) => (i, ps),
        }
    }
}

/// The program when it goes on with a text at place `i`.
pub open spec fn with_text(m: InterpV, segs: Seq<SegV>, i: int, ps: Seq<PieceV>, span: Span) -> (
    InterpV,
    Option<WantV>,
) {
    let (k, qs) = literal_pieces(segs, i, ps);
    if 0 <= k < segs.len() && segs[k] is Code {
        (inside(m, FrameV::FStr(segs, k, qs, span), segs[k]->Code_0), None)
    } else {
        absorbed(m, showing(qs, false), span)
    }
}

/// Evaluating an expression.
pub open spec fn eval_step(m: InterpV, e: ExprV) -> (InterpV, Option<WantV>) {
    match e {
        ExprV::IntLit(n, _) => (giving(m, ValueV::Int(n)), None),
        ExprV::FloatLit(t, s) => absorbed(m, OutV::Ask(RequestV::FloatFromText(t), PendingV::ToFloat(t)), s),
        ExprV::BoolLit(b, _) => (giving(m, ValueV::Bool(b)), None),
        ExprV::StrLit(t, _) => (giving(m, ValueV::Str(t)), None),
        ExprV::Ident { name, span } => match env_get(m.env, name) {
            Some(v) => (giving(m, v), None),
            None => (
                raising(
                    m,
                    fault(
                        place(m, span),
                        codes::UNDEFINED@,
                        "undefined variable `"@ + name + "`"@,
                        Some("declare the variable before reading it"@),
                    ),
                ),
                None,
            ),
        },
        ExprV::ListLit(items, _) => if items.len() == 0 {
            (giving(m, ValueV::List(Seq::empty())), None)
        } else {
            (inside(m, FrameV::List(items, Seq::empty()), items[0]), None)
        },
        ExprV::DictLit(es, _) => if es.len() == 0 {
            (giving(m, ValueV::Dict(Seq::empty())), None)
        } else {
            (inside(m, FrameV::Dict(es, Seq::empty()), es[0].1), None)
        },
        ExprV::FStr(segs, s) => with_text(m, segs, 0, Seq::empty(), s),
        ExprV::Field { obj, field, span } => (inside(m, FrameV::Field(field, span), *obj), None),
        ExprV::Unary { op, expr, span } => (inside(m, FrameV::Unary(op, span), *expr), None),
        ExprV::Binary { op, lhs, rhs, span } => (inside(m, FrameV::Left(op, *rhs, span), *lhs), None),
        ExprV::Call { callee, args, span } => if args.len() == 0 {
            (InterpV { now: NowV::Call(callee, Seq::empty(), span), ..m }, None)
        } else {
            (inside(m, FrameV::Args(callee, args, Seq::empty(), span, false), args[0]), None)
        },
        ExprV::Match { value, arms, span } => (inside(m, FrameV::MatchOn(arms, span), *value), None),
    }
}

/// The name of a library: its own, or that of its file without the ending.
pub open spec fn lib_name(windows: bool, alias: Option<Seq<char>>, path: Seq<char>) -> Seq<char> {
    match alias {
        Some(a) => a,
        None => if stem_of(windows, path).len() == 0 {
            "lib"@
        } else {
            stem_of(windows, path)
        },
    }
}

/// The signatures with the first `n` of a row, under the name of a library.
pub open spec fn with_sigs(sigs: Map<Seq<char>, FfiSigV>, lib: Seq<char>, new: Seq<FfiSigV>, n: int) -> Map<
    Seq<char>,
    FfiSigV,
>
    decreases n,
{
    if n <= 0 || n > new.len() {
        sigs
    } else {
        with_sigs(sigs, lib, new, n - 1).insert(lib + "."@ + new[n - 1].name, new[n - 1])
    }
}

/// The program when the header of a `load` is done with.
pub open spec fn loading(m: InterpV, l: LoadV) -> (InterpV, Option<WantV>) {
    let lib = lib_name(m.windows, l.alias, l.path);
    let m1 = InterpV { sigs: with_sigs(m.sigs, lib, l.sigs, l.sigs.len() as int), ..m };
    if l.lazy {
        (falling(InterpV { lazy_libs: m1.lazy_libs.insert(lib, l.path), ..m1 }), None)
    } else {
        (waiting(m1, FrameV::LoadLib(l)), Some(WantV::Load(lib, l.path)))
    }
}

/// Executing a statement.
pub open spec fn exec_step(m: InterpV, s: StmtV) -> (InterpV, Option<WantV>) {
    match s {
        StmtV::VarDecl { name, ty, init, .. } => match init {
            Some(e) => (inside(m, FrameV::Store(name), e), None),
            None => (falling(InterpV { env: env_set(m.env, name, default_of(ty)), ..m }), None),
        },
        StmtV::Assign { name, value, .. } => (inside(m, FrameV::Store(name), value), None),
        StmtV::Block { stmts, .. } => (entering(m, stmts), None),
        StmtV::If { cond, then_branch, else_branch, .. } => (
            inside(m, FrameV::If(cond.span(), then_branch, else_branch), cond),
            None,
        ),
        StmtV::While { cond, body, .. } => (inside(m, FrameV::WhileTest(cond, body), cond), None),
        StmtV::ForIn { var, var2, iter, body, span } => (
            inside(m, FrameV::ForHead(ForV { var, var2, body, iter_span: iter.span(), span }), iter),
            None,
        ),
        StmtV::Return { value, .. } => match value {
            Some(e) => (inside(m, FrameV::Return, e), None),
            None => (InterpV { now: NowV::Ret(ValueV::Null), ..m }, None),
        },
        StmtV::ExprStmt { expr, .. } => (inside(m, FrameV::Drop, expr), None),
        StmtV::Breakpoint { span } => if m.debug {
            absorbed(
                InterpV { frames: m.frames.push(FrameV::Pause), ..m },
                showing(snapshot(m, span), true),
                span,
            )
        } else {
            (falling(m), None)
        },
        StmtV::Import { name, url, alias, span } => {
            let i = ImportV { name, url, alias, span };
            if starts(url, "http://"@) || starts(url, "https://"@) {
                (waiting(m, FrameV::ImportCache(i)), Some(WantV::Cached(name)))
            } else {
                (waiting(m, FrameV::ImportText(i)), Some(WantV::World(RequestV::ReadFile(url))))
            }
        },
        StmtV::Load { lazy, path, alias, from, sigs, span } => {
            let l = LoadV { lazy, path, alias, sigs, span };
            match from {
                Some(h) => (waiting(m, FrameV::LoadHeader(l, h)), Some(WantV::Header(h))),
                None => loading(m, l),
            }
        },
        StmtV::Alias { original, new_name, .. } => (
            falling(InterpV { aliases: m.aliases.insert(new_name, original), ..m }),
            None,
        ),
        StmtV::Go { callee, args, span } => if args.len() == 0 {
            (falling(m), Some(WantV::Spawn(forked(m, callee, Seq::empty(), span))))
        } else {
            (inside(m, FrameV::Args(callee, args, Seq::empty(), span, true), args[0]), None)
        },
        StmtV::DebugPrint { expr, .. } => if m.debug {
            (inside(m, FrameV::Debug, expr), None)
        } else {
            (falling(m), None)
        },
        StmtV::Try { body, catch_var, handler, .. } => (
            entering(InterpV { frames: m.frames.push(FrameV::Try(catch_var, handler)), ..m }, body),
            None,
        ),
        StmtV::Throw { value, span } => (inside(m, FrameV::Throw(span), value), None),
        _ => (falling(m), None),
    }
}

/// The pieces of all variables at a breakpoint.
pub open spec fn snapshot(m: InterpV, span: Span) -> Seq<PieceV> {
    env_lines(
        m.env,
        m.env.len() as int,
        Seq::empty(),
        seq![
            PieceV::Text(
                "[Hone Debug] 断点触发 -> "@ + m.file + ":"@ + dec(span.line as nat) + "\n--- 变量快照 ---"@,
            ),
        ],
    )
}

/// The program that runs a call beside this one: it has the definitions, but neither the
/// variables nor the loaded libraries and their signatures.
pub open spec fn forked(m: InterpV, callee: Seq<char>, args: Seq<ValueV>, span: Span) -> InterpV {
    InterpV {
        debug: false,
        depth: 0,
        sigs: Map::empty(),
        libs: Set::empty(),
        env: seq![no_scope()],
        frames: Seq::empty(),
        now: NowV::Call(callee, args, span),
        ..m
    }
}

/// The program when it goes on with a loop over pairs at place `i`.
pub open spec fn looping(m: InterpV, f: ForV, pairs: Seq<(ValueV, ValueV)>, i: int) -> InterpV {
    if i < 0 || i >= pairs.len() {
        falling(m)
    } else {
        let s = no_scope().put(f.var, pairs[i].0);
        let s2 = match f.var2 {
            Some(k) => s.put(k, pairs[i].1),
            None => s,
        };
        InterpV {
            env: m.env.push(s2),
            frames: m.frames.push(FrameV::For(f, pairs, i + 1)).push(FrameV::Stmts(f.body, 0)),
            now: NowV::Fall,
            ..m
        }
    }
}

/// The pairs of a list.
pub open spec fn list_pairs(vs: Seq<ValueV>) -> Seq<(ValueV, ValueV)> {
    vs.map_values(|v: ValueV| (v, ValueV::Null))
}

/// The pairs of a dictionary.
pub open spec fn dict_pairs(es: Seq<(Seq<char>, ValueV)>) -> Seq<(ValueV, ValueV)> {
    es.map_values(|e: (Seq<char>, ValueV)| (ValueV::Str(e.0), e.1))
}

/// The program when it starts a loop over a value.
pub open spec fn for_step(m: InterpV, f: ForV, v: ValueV) -> InterpV {
    match v {
        ValueV::List(vs) => if f.var2 is Some {
            raising(
                m,
                fault(
                    place(m, f.span),
                    codes::TYPE_MISMATCH@,
                    "`for k, v in` requires a dict, got a list"@,
                    Some("iterate lists with a single variable: `for x in list`"@),
                ),
            )
        } else {
            looping(m, f, list_pairs(vs), 0)
        },
        ValueV::Dict(es) => looping(m, f, dict_pairs(es), 0),
        v => raising(
            m,
            fault(
                place(m, f.iter_span),
                codes::TYPE_MISMATCH@,
                "`for in` requires a list or dict, got `"@ + v.type_text() + "`"@,
                Some("iterate a list with `for x in list` or a dict with `for k, v in dict`"@),
            ),
        ),
    }
}

/// The program when it tries the arms of a match from `i` on.
pub open spec fn matching(m: InterpV, arms: Seq<(Option<ExprV>, ExprV)>, i: int, v: ValueV, span: Span) -> InterpV {
    if i < 0 || i >= arms.len() {
        raising(
            m,
            fault(
                place(m, span),
                codes::SYNTAX@,
                "no match arm matched the value"@,
                Some("add a `_` wildcard arm as the fallback"@),
            ),
        )
    } else {
        match arms[i].0 {
            None => InterpV { now: NowV::Eval(arms[i].1), ..m },
            Some(p) => inside(m, FrameV::MatchTry(arms, i, v, span), p),
        }
    }
}

/// The error that a thrown value stands for: a text is a user's error, and a caught error
/// is raised again, at its old place where that is in this file.
pub open spec fn thrown(m: InterpV, v: ValueV, span: Span) -> ErrV {
    match v {
        ValueV::Str(s) => fault(place(m, span), codes::THROW@, s, None),
        ValueV::Error(e) => if e.file == m.file {
            err_at(e.code, e.message, m.file, m.src, e.line, e.col, 1, None)
        } else {
            err_plain(
                e.code,
                e.message + " (at "@ + e.file + ":"@ + dec(e.line) + ":"@ + dec(e.col) + ")"@,
                None,
            )
        },
        v => fault(
            place(m, span),
            codes::TYPE_MISMATCH@,
            "`throw` accepts a `str` or `error`, got `"@ + v.type_text() + "`"@,
            None,
        ),
    }
}

/// The error of a condition that is no `bool`.
pub open spec fn no_bool(m: InterpV, what: Seq<char>, v: ValueV, span: Span) -> InterpV {
    raising(
        m,
        fault(
            place(m, span),
            codes::COND_NOT_BOOL@,
            what + " condition must be `bool`, got `"@ + v.type_text() + "`"@,
            None,
        ),
    )
}

/// Handing a value on to the innermost frame.
pub open spec fn give_step(m: InterpV, v: ValueV) -> (InterpV, Option<WantV>) {
    if m.frames.len() == 0 {
        (InterpV { now: NowV::Over(None), ..m }, None)
    } else {
        give_to(InterpV { frames: m.frames.drop_last(), ..m }, m.frames.last(), v)
    }
}

/// Handing a value on to a frame.
pub open spec fn give_to(m: InterpV, f: FrameV, v: ValueV) -> (InterpV, Option<WantV>) {
    match f {
        FrameV::If(span, t, e) => match v {
            ValueV::Bool(b) => if b {
                (entering(m, t), None)
            } else {
                match e {
                    Some(x) => (entering(m, x), None),
                    None => (falling(m), None),
                }
            },
            v => (no_bool(m, "if"@, v, span), None),
        },
        FrameV::WhileTest(c, b) => match v {
            ValueV::Bool(t) => if t {
                (entering(InterpV { frames: m.frames.push(FrameV::WhileBody(c, b)), ..m }, b), None)
            } else {
                (falling(m), None)
            },
            v => (no_bool(m, "while"@, v, c.span()), None),
        },
        FrameV::ForHead(r) => (for_step(m, r, v), None),
        FrameV::Store(n) => (falling(InterpV { env: env_set(m.env, n, v), ..m }), None),
        FrameV::Return => (InterpV { now: NowV::Ret(v), ..m }, None),
        FrameV::Throw(span) => (raising(m, thrown(m, v, span)), None),
        FrameV::Debug => absorbed(
            InterpV { frames: m.frames.push(FrameV::Drop), ..m },
            showing(seq![PieceV::Text("[debug] "@)] + shown(v), true),
            Span { line: 0, col: 0, len: 0 },
        ),
        FrameV::List(es, d) => {
            let d2 = d.push(v);
            if d2.len() < es.len() {
                (inside(m, FrameV::List(es, d2), es[d2.len() as int]), None)
            } else {
                (giving(m, ValueV::List(d2)), None)
            }
        },
        FrameV::Dict(es, d) => if d.len() >= es.len() {
            (falling(m), None)
        } else {
            let d2 = d.push((es[d.len() as int].0, v));
            if d2.len() < es.len() {
                (inside(m, FrameV::Dict(es, d2), es[d2.len() as int].1), None)
            } else {
                (giving(m, ValueV::Dict(d2)), None)
            }
        },
        FrameV::FStr(segs, i, ps, span) => with_text(m, segs, i + 1, ps + shown(v), span),
        FrameV::Field(n, span) => absorbed(m, field_of(place(m, span), v, n), span),
        FrameV::Unary(op, span) => absorbed(m, prefix_of(place(m, span), op, v), span),
        FrameV::Left(op, rhs, span) => if op == BinOp::And {
            if v == ValueV::Bool(false) {
                (giving(m, ValueV::Bool(false)), None)
            } else {
                (inside(m, FrameV::Logic(span), rhs), None)
            }
        } else if op == BinOp::Or {
            if v == ValueV::Bool(true) {
                (giving(m, ValueV::Bool(true)), None)
            } else {
                (inside(m, FrameV::Logic(span), rhs), None)
            }
        } else {
            (inside(m, FrameV::Right(op, v, span), rhs), None)
        },
        FrameV::Right(op, l, span) => absorbed(m, infix_of(place(m, span), op, l, v), span),
        FrameV::Logic(span) => absorbed(m, bool_of(place(m, span), v), span),
        FrameV::MatchOn(arms, span) => (matching(m, arms, 0, v, span), None),
        FrameV::MatchTry(arms, i, w, span) => match equal_of(place(m, span), w, v) {
            Err(e) => (raising(m, e), None),
            Ok(t) => if t && 0 <= i < arms.len() {
                (InterpV { now: NowV::Eval(arms[i].1), ..m }, None)
            } else {
                (matching(m, arms, i + 1, w, span), None)
            },
        },
        FrameV::Args(c, es, d, span, go) => {
            let d2 = d.push(v);
            if d2.len() < es.len() {
                (inside(m, FrameV::Args(c, es, d2, span, go), es[d2.len() as int]), None)
            } else if go {
                (falling(m), Some(WantV::Spawn(forked(m, c, d2, span))))
            } else {
                (InterpV { now: NowV::Call(c, d2, span), ..m }, None)
            }
        },
        FrameV::Pause => (waiting(m, FrameV::Paused), Some(WantV::Pause)),
        FrameV::Block | FrameV::For(..) | FrameV::Body(_) | FrameV::Module(_) => (
            falling(InterpV { frames: m.frames.push(f), ..m }),
            None,
        ),
        _ => (falling(m), None),
    }
}

/// One call less deep.
pub open spec fn shallower(depth: int) -> int {
    if depth > 0 {
        depth - 1
    } else {
        depth
    }
}

/// Going on behind a statement.
pub open spec fn fall_step(m: InterpV) -> InterpV {
    if m.frames.len() == 0 {
        InterpV { now: NowV::Over(None), ..m }
    } else {
        let m1 = InterpV { frames: m.frames.drop_last(), ..m };
        match m.frames.last() {
            FrameV::Stmts(ss, i) => if 0 <= i < ss.len() {
                InterpV { frames: m1.frames.push(FrameV::Stmts(ss, i + 1)), now: NowV::Exec(ss[i]), ..m1 }
            } else {
                m1
            },
            FrameV::Block => InterpV { env: closed_scope(m.env), ..m1 },
            FrameV::Body(e) => InterpV {
                env: e,
                depth: shallower(m.depth),
                now: NowV::Give(ValueV::Null),
                ..m1
            },
            FrameV::Module(e) => InterpV { env: e, ..m1 },
            FrameV::WhileBody(c, b) => inside(m1, FrameV::WhileTest(c, b), c),
            FrameV::For(f, ps, i) => looping(InterpV { env: closed_scope(m.env), ..m1 }, f, ps, i),
            _ => m1,
        }
    }
}

/// Leaving a function with a value.
pub open spec fn ret_step(m: InterpV, v: ValueV) -> InterpV {
    if m.frames.len() == 0 {
        InterpV { now: NowV::Over(None), ..m }
    } else {
        let m1 = InterpV { frames: m.frames.drop_last(), ..m };
        match m.frames.last() {
            FrameV::Body(e) => InterpV { env: e, depth: shallower(m.depth), now: NowV::Give(v), ..m1 },
            FrameV::Module(e) => InterpV { env: e, now: NowV::Fall, ..m1 },
            FrameV::Block | FrameV::For(..) => InterpV { env: closed_scope(m.env), ..m1 },
            _ => m1,
        }
    }
}

/// Looking for what catches an error.
pub open spec fn raise_step(m: InterpV, e: ErrV) -> InterpV {
    if m.frames.len() == 0 {
        InterpV { now: NowV::Over(Some(e)), ..m }
    } else {
        let m1 = InterpV { frames: m.frames.drop_last(), ..m };
        match m.frames.last() {
            FrameV::Try(n, h) => InterpV {
                env: m.env.push(no_scope().put(n, ValueV::Error(caught(e)))),
                frames: m1.frames.push(FrameV::Block).push(FrameV::Stmts(h, 0)),
                now: NowV::Fall,
                ..m1
            },
            FrameV::Body(x) => InterpV { env: x, depth: shallower(m.depth), ..m1 },
            FrameV::Module(x) => InterpV { env: x, ..m1 },
            FrameV::Block => InterpV { env: closed_scope(m.env), ..m1 },
            _ => m1,
        }
    }
}

/// The scope of a call: the first `n` parameters with their arguments.
pub open spec fn bound(ps: Seq<ParamV>, vs: Seq<ValueV>, n: int) -> ScopeV
    decreases n,
{
    if n <= 0 || n > ps.len() || n > vs.len() {
        no_scope()
    } else {
        bound(ps, vs, n - 1).put(ps[n - 1].name, vs[n - 1])
    }
}

/// The names of fields.
pub open spec fn field_names(fs: Seq<(Seq<char>, TyName)>) -> Seq<Seq<char>> {
    fs.map_values(|f: (Seq<char>, TyName)| f.0)
}

/// A struct as a dictionary of its fields.
pub open spec fn instance(fs: Seq<(Seq<char>, TyName)>, vs: Seq<ValueV>) -> Seq<(Seq<char>, ValueV)> {
    Seq::new(vs.len(), |i: int| (fs[i].0, vs[i]))
}

/// The error of a call with another number of arguments than there are parameters.
pub open spec fn miscounted(m: InterpV, c: Seq<char>, want: nat, got: nat, span: Span) -> InterpV {
    raising(
        m,
        fault(
            place(m, span),
            codes::ARG_COUNT@,
            "wrong number of arguments: `"@ + c + "` expects "@ + dec(want) + ", got "@ + dec(got),
            Some("pass one argument for each parameter"@),
        ),
    )
}

/// Calling a function by name: a function of the program, a struct, a built-in function,
/// another name of a function, or a function of a library, in this order.
pub open spec fn call_step(m: InterpV, w: WorldV, c: Seq<char>, a: Seq<ValueV>, span: Span) -> (
    InterpV,
    WorldV,
    Option<WantV>,
) {
    if m.fns.dom().contains(c) {
        if m.depth >= DEPTH_LIMIT {
            (
                raising(
                    m,
                    fault(
                        place(m, span),
                        codes::RECURSION_DEPTH@,
                        "recursion depth exceeded (limit 5000)"@,
                        Some("check for infinite recursion, or rewrite iteratively"@),
                    ),
                ),
                w,
                None,
            )
        } else if m.fns[c].params.len() != a.len() {
            (miscounted(m, c, m.fns[c].params.len(), a.len(), span), w, None)
        } else {
            let f = m.fns[c];
            (
                InterpV {
                    depth: m.depth + 1,
                    env: seq![bound(f.params, a, a.len() as int)],
                    frames: m.frames.push(FrameV::Body(m.env)).push(FrameV::Stmts(f.body, 0)),
                    now: NowV::Fall,
                    ..m
                },
                w,
                None,
            )
        }
    } else if m.structs.dom().contains(c) {
        let fs = m.structs[c];
        if fs.len() != a.len() {
            (
                raising(
                    m,
                    fault(
                        place(m, span),
                        codes::ARG_COUNT@,
                        "struct `"@ + c + "` expects "@ + dec(fs.len()) + " fields, got "@ + dec(a.len()),
                        Some(
                            "construct with `"@ + c + "("@ + joined_by(field_names(fs), ", "@, fs.len() as int)
                                + ")`"@,
                        ),
                    ),
                ),
                w,
                None,
            )
        } else {
            (giving(m, ValueV::Dict(instance(fs, a))), w, None)
        }
    } else if names().contains(c) {
        let (w2, o) = called(w, place(m, span), c, a);
        let (m2, want) = absorbed(m, o, span);
        (m2, w2, want)
    } else if m.aliases.dom().contains(c) {
        (InterpV { now: NowV::Call(m.aliases[c], a, span), ..m }, w, None)
    } else if c.contains('.') {
        let (m2, want) = lib_step(m, w, c, a, span);
        (m2, w, want)
    } else {
        let (w2, o) = called(w, place(m, span), c, a);
        let (m2, want) = absorbed(m, o, span);
        (m2, w2, want)
    }
}

/// The library of a full name.
pub open spec fn lib_of(c: Seq<char>) -> Seq<char> {
    match last_pos(c, '.', c.len() as int) {
        Some(i) => c.take(i),
        None => Seq::empty(),
    }
}

/// The function of a full name.
pub open spec fn func_of(c: Seq<char>) -> Seq<char> {
    match last_pos(c, '.', c.len() as int) {
        Some(i) => c.skip(i + 1),
        None => c,
    }
}

/// Calling a function of a library, which is loaded first where it is known but not loaded.
pub open spec fn lib_step(m: InterpV, w: WorldV, c: Seq<char>, a: Seq<ValueV>, span: Span) -> (
    InterpV,
    Option<WantV>,
) {
    let lib = lib_of(c);
    if m.libs.contains(lib) {
        invoking(m, c, a, span)
    } else if m.lazy_libs.dom().contains(lib) {
        (
            waiting(m, FrameV::CallLoad(c, a, span, m.lazy_libs[lib])),
            Some(WantV::Load(lib, m.lazy_libs[lib])),
        )
    } else {
        match w.plugins.get(lib) {
            Some(path) => (waiting(m, FrameV::CallLoad(c, a, span, path)), Some(WantV::Load(lib, path))),
            None => (
                raising(
                    m,
                    fault(
                        place(m, span),
                        codes::NOT_FOUND@,
                        "library `"@ + lib + "` is not loaded"@,
                        Some(
                            "add `load \"path/to/lib\" as "@ + lib + ";` or `plugin.load(path, \""@ + lib
                                + "\")` before calling"@,
                        ),
                    ),
                ),
                None,
            ),
        }
    }
}

/// Calling a function of a loaded library.
pub open spec fn invoking(m: InterpV, c: Seq<char>, a: Seq<ValueV>, span: Span) -> (InterpV, Option<WantV>) {
    let lib = lib_of(c);
    let func = func_of(c);
    if m.sigs.dom().contains(c) {
        let sig = m.sigs[c];
        match typed_args(place(m, span), sig, func, a) {
            Err(e) => (raising(m, e), None),
            Ok(args) => (
                waiting(m, FrameV::LibCall(sig.ret, func, lib, span)),
                Some(WantV::Call(lib, func, args, sig.ret)),
            ),
        }
    } else {
        match plain_args(place(m, span), c, a) {
            Err(e) => (raising(m, e), None),
            Ok(args) => (
                waiting(m, FrameV::LibCall(FfiTy::Int, func, lib, span)),
                Some(WantV::Call(lib, func, args, FfiTy::Int)),
            ),
        }
    }
}

/// One step of a program: what it does now is taken up and done.
pub open spec fn stepped(m: InterpV, w: WorldV) -> (InterpV, WorldV, Option<WantV>) {
    let n = InterpV { now: NowV::Fall, ..m };
    match m.now {
        NowV::Eval(e) => {
            let (m2, want) = eval_step(n, e);
            (m2, w, want)
        },
        NowV::Exec(s) => {
            let (m2, want) = exec_step(n, s);
            (m2, w, want)
        },
        NowV::Call(c, a, span) => call_step(n, w, c, a, span),
        NowV::Give(v) => {
            let (m2, want) = give_step(n, v);
            (m2, w, want)
        },
        NowV::Fall => (fall_step(m), w, None),
        NowV::Ret(v) => (ret_step(m, v), w, None),
        NowV::Raise(e) => (raise_step(m, e), w, None),
        NowV::Wait | NowV::Over(_) => (m, w, None),
    }
}

/// A program behind so many steps, or behind as many as it takes before it wants something,
/// waits or is over.
pub open spec fn ran(m: InterpV, w: WorldV, n: nat) -> (InterpV, WorldV, Option<WantV>)
    decreases n,
{
    if n == 0 || m.now is Over || m.now is Wait {
        (m, w, None)
    } else {
        let (m2, w2, want) = stepped(m, w);
        if want is Some {
            (m2, w2, want)
        } else {
            ran(m2, w2, (n - 1) as nat)
        }
    }
}

/// The program when it has the text of a module: it is held once it is read.
#[verifier::opaque]
pub open spec fn adopting(m: InterpV, i: ImportV, code: Seq<char>) -> (InterpV, Option<WantV>) {
    match program_of(i.name + ".hn"@, code) {
        Err(e) => (
            raising(
                m,
                fault(
                    place(m, i.span),
                    codes::SYNTAX@,
                    "cannot parse imported module `"@ + i.name + "`: "@ + e.msg,
                    Some("check the module source"@),
                ),
            ),
            None,
        ),
        Ok(ss) => (waiting(m, FrameV::ImportAdopt(i)), Some(WantV::Adopt(ss))),
    }
}

/// An error about a module.
pub open spec fn no_module(m: InterpV, i: ImportV, msg: Seq<char>, help: Option<Seq<char>>) -> (
    InterpV,
    Option<WantV>,
) {
    (raising(m, fault(place(m, i.span), codes::NOT_FOUND@, msg, help)), None)
}

/// The error of a library that cannot be loaded.
pub open spec fn no_library(m: InterpV, path: Seq<char>, e: Seq<char>, span: Span) -> InterpV {
    raising(
        m,
        fault(
            place(m, span),
            codes::DLL_LOAD@,
            "cannot load dynamic library `"@ + path + "`: "@ + e,
            Some("check the library path and architecture"@),
        ),
    )
}

/// Whether an answer is one that a program can go on with.
pub open spec fn fits_frame(f: FrameV, a: AnswerV) -> bool {
    match f {
        FrameV::Ask(p, _) => a matches AnswerV::World(r) && fits(p, r),
        FrameV::Paused => a matches AnswerV::World(r) && r is Done,
        FrameV::ImportText(_) => a matches AnswerV::World(r) && (r is Text || r is Trouble),
        FrameV::ImportCache(_) => a matches AnswerV::World(r) && (r is MaybeText || r is Trouble),
        FrameV::ImportNet(_) => a matches AnswerV::World(r) && (r is Bytes || r is NetTrouble),
        FrameV::ImportSave(..) => a matches AnswerV::World(r) && (r is Done || r is Trouble),
        FrameV::ImportAdopt(_) => a is Module,
        FrameV::LoadHeader(..) => a is Sigs || (a matches AnswerV::World(r) && r is Trouble),
        FrameV::LoadLib(_) | FrameV::CallLoad(..) => a matches AnswerV::World(r) && (r is Done || r is Trouble),
        FrameV::LibCall(t, ..) => a matches AnswerV::World(r) && fits_result(t, r),
        _ => false,
    }
}

/// Going on with an answer.
pub open spec fn answered(m: InterpV, w: WorldV, a: AnswerV) -> (InterpV, WorldV, Option<WantV>) {
    if m.frames.len() == 0 {
        (m, w, None)
    } else {
        let m1 = InterpV { frames: m.frames.drop_last(), now: NowV::Fall, ..m };
        match m.frames.last() {
            FrameV::Ask(p, span) => match a {
                AnswerV::World(r) => {
                    let (w2, o) = finished(w, place(m1, span), p, r);
                    let (m2, want) = absorbed(m1, o, span);
                    (m2, w2, want)
                },
                _ => (m1, w, None),
            },
            FrameV::LibCall(t, f, l, span) => match a {
                AnswerV::World(r) => {
                    let (m2, want) = absorbed(m1, result_of(place(m1, span), t, f, l, r), span);
                    (m2, w, want)
                },
                _ => (m1, w, None),
            },
            FrameV::LoadLib(l) => {
                let lib = lib_name(m.windows, l.alias, l.path);
                match a {
                    AnswerV::World(ReplyV::Trouble(_, e)) => (no_library(m1, l.path, e, l.span), w, None),
                    _ => (
                        InterpV { libs: m1.libs.insert(lib), ..m1 },
                        WorldV { plugins: w.plugins.put(lib, l.path), ..w },
                        None,
                    ),
                }
            },
            FrameV::CallLoad(c, args, span, path) => match a {
                AnswerV::World(ReplyV::Trouble(_, e)) => (no_library(m1, path, e, span), w, None),
                _ => {
                    let m2 = InterpV { libs: m1.libs.insert(lib_of(c)), ..m1 };
                    let (m3, want) = invoking(m2, c, args, span);
                    (m3, w, want)
                },
            },
            f => {
                let (m2, want) = import_answered(m1, f, a);
                (m2, w, want)
            },
        }
    }
}

/// The program when it fetches a module.
#[verifier::opaque]
pub open spec fn fetching(m: InterpV, i: ImportV) -> (InterpV, Option<WantV>) {
    match http_call(place(m, i.span), i.url, "GET"@, None) {
        Ok(c) => (waiting(m, FrameV::ImportNet(i)), Some(WantV::Download(i.name, c))),
        Err(e) => (raising(m, e), None),
    }
}

/// The program when it was answered what a module is: its text is kept.
#[verifier::opaque]
pub open spec fn fetched(m: InterpV, i: ImportV, a: AnswerV) -> (InterpV, Option<WantV>) {
    match a {
        AnswerV::World(ReplyV::Bytes(b)) => match response_text(place(m, i.span), i.url, b) {
            Ok(t) => (waiting(m, FrameV::ImportSave(i, t)), Some(WantV::SaveModule(i.name, t))),
            Err(e) => (raising(m, e), None),
        },
        AnswerV::World(ReplyV::NetTrouble(s, k, e)) => (
            raising(m, net_fault(place(m, i.span), i.url, host_of(i.url), s, k, e)),
            None,
        ),
        _ => (m, None),
    }
}

/// Going on with an answer about a module or a header file.
pub open spec fn import_answered(m: InterpV, f: FrameV, a: AnswerV) -> (InterpV, Option<WantV>) {
    match f {
        FrameV::ImportText(i) => match a {
            AnswerV::World(ReplyV::Text(t)) => adopting(m, i, t),
            AnswerV::World(ReplyV::Trouble(_, e)) => no_module(
                m,
                i,
                "cannot read local module `"@ + i.name + "` at `"@ + i.url + "`: "@ + e,
                Some("check the module path; local paths are relative to the working directory"@),
            ),
            _ => (m, None),
        },
        FrameV::ImportCache(i) => match a {
            AnswerV::World(ReplyV::MaybeText(Some(t))) => adopting(m, i, t),
            AnswerV::World(ReplyV::MaybeText(None)) => fetching(m, i),
            AnswerV::World(ReplyV::Trouble(_, e)) => no_module(
                m,
                i,
                "cannot read cached module `"@ + i.name + "`: "@ + e,
                None,
            ),
            _ => (m, None),
        },
        FrameV::ImportNet(i) => fetched(m, i, a),
        FrameV::ImportSave(i, t) => match a {
            AnswerV::World(ReplyV::Done) => adopting(m, i, t),
            AnswerV::World(ReplyV::Trouble(_, e)) => no_module(
                m,
                i,
                "cannot cache module `"@ + i.name + "`: "@ + e,
                None,
            ),
            _ => (m, None),
        },
        FrameV::ImportAdopt(i) => match a {
            AnswerV::Module(ss) => imported(m, i, ss),
            _ => (m, None),
        },
        FrameV::LoadHeader(l, h) => match a {
            AnswerV::Sigs(ss) => {
                let lib = lib_name(m.windows, l.alias, l.path);
                loading(InterpV { sigs: with_sigs(m.sigs, lib, ss, ss.len() as int), ..m }, l)
            },
            AnswerV::World(ReplyV::Trouble(_, e)) => (
                raising(
                    m,
                    fault(
                        place(m, l.span),
                        codes::NOT_FOUND@,
                        "cannot read header `"@ + h + "`: "@ + e,
                        Some("check the header path, or remove the `from` clause"@),
                    ),
                ),
                None,
            ),
            _ => (m, None),
        },
        _ => (m, None),
    }
}

/// The program when it has a module: its functions are taken in, and it runs in scopes of
/// its own.
pub open spec fn imported(m: InterpV, i: ImportV, ss: Seq<StmtV>) -> (InterpV, Option<WantV>) {
    let prefix = match i.alias {
        Some(x) => x,
        None => i.name,
    };
    (
        InterpV {
            fns: modules_fns(ss, ss.len() as int, i.name, prefix, m.fns),
            env: seq![no_scope()],
            frames: m.frames.push(FrameV::Module(m.env)).push(FrameV::Stmts(ss, 0)),
            ..m
        },
        None,
    )
}

/// A program that is about to start.
pub open spec fn started(ss: Seq<StmtV>, file: Seq<char>, src: Seq<char>, debug: bool, windows: bool) -> InterpV {
    InterpV {
        file,
        src,
        debug,
        windows,
        depth: 0,
        fns: super::defs::stmts_fns(ss, ss.len() as int, Map::empty()),
        structs: super::defs::stmts_structs(ss, ss.len() as int, Map::empty()),
        sigs: Map::empty(),
        lazy_libs: Map::empty(),
        aliases: Map::empty(),
        libs: Set::empty(),
        env: seq![no_scope()],
        frames: seq![FrameV::Stmts(ss, 0)],
        now: NowV::Fall,
    }
}

} // verus!
