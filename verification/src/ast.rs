//! The abstract syntax of a program, and its mathematical form.

use vstd::prelude::*;

use crate::error::opt_text;
use crate::lexer::Span;

verus! {

/// A whole program.
pub struct Program {
    pub stmts: Vec<Stmt>,
}

/// A statement.
#[allow(inconsistent_fields)]
pub enum Stmt {
    /// `x = expr;`: declares `x` where it does not exist yet.
    Assign { name: String, value: Expr, span: Span },
    /// `int x = 10;`, `x : int = 10;` or `x : int;`.
    VarDecl { name: String, ty: TyName, init: Option<Expr>, span: Span },
    /// `{ ... }`.
    Block { stmts: Vec<Stmt>, span: Span },
    If { cond: Expr, then_branch: Vec<Stmt>, else_branch: Option<Vec<Stmt>>, span: Span },
    While { cond: Expr, body: Vec<Stmt>, span: Span },
    /// `for x in expr { ... }` or `for k, v in dict { ... }`.
    ForIn { var: String, var2: Option<String>, iter: Expr, body: Vec<Stmt>, span: Span },
    Return { value: Option<Expr>, span: Span },
    /// A function; a temporary one (`tmp fn`) is left out of compiled libraries.
    FnDef {
        name: String,
        params: Vec<Param>,
        ret: Option<TyName>,
        body: Vec<Stmt>,
        span: Span,
        tmp: bool,
    },
    /// `debug_print(expr);`: output in debug mode only.
    DebugPrint { expr: Box<Expr>, span: Span },
    ExprStmt { expr: Expr, span: Span },
    Breakpoint { span: Span },
    /// `@export name;`: exports a function to the C ABI.
    Export { name: String, span: Span },
    /// `import "name" from "url" [as alias];`.
    Import { name: String, url: String, alias: Option<String>, span: Span },
    /// `load [lazy] "path" [as alias] [from "header.h"] [{ fn signature; ... }]`.
    Load {
        lazy: bool,
        path: String,
        alias: Option<String>,
        from: Option<String>,
        sigs: Vec<FfiSig>,
        span: Span,
    },
    /// `use namespace;`.
    Use { namespace: String, span: Span },
    /// `alias original as new_name;`.
    Alias { original: String, new_name: String, span: Span },
    /// `go callee(args);`.
    Go { callee: String, args: Vec<Expr>, span: Span },
    /// `try { ... } catch e { ... }`.
    Try { body: Vec<Stmt>, catch_var: String, handler: Vec<Stmt>, span: Span },
    /// `throw expr;`.
    Throw { value: Expr, span: Span },
    /// `struct Name { field: type, ... };`.
    StructDef { name: String, fields: Vec<(String, TyName)>, span: Span },
}

/// A parameter of a function.
pub struct Param {
    pub name: String,
    pub ty: Option<TyName>,
    pub span: Span,
}

/// A type that can be written down.
#[derive(Debug, Clone, Copy, PartialEq, Eq, Structural)]
pub enum TyName {
    Int,
    Float,
    Bool,
    Str,
}

/// A C ABI type of a signature block.
#[derive(Debug, Clone, Copy, PartialEq, Eq, Structural)]
pub enum FfiTy {
    /// `int64_t`.
    Int,
    /// `double`.
    Float,
    /// `bool`.
    Bool,
    /// `const char*`.
    Str,
    /// `void*`.
    Ptr,
    /// `void`, as a result only.
    Void,
}

impl FfiTy {
    /// The name of the type.
    pub open spec fn text(self) -> Seq<char> {
        match self {
            FfiTy::Int => "int"@,
            FfiTy::Float => "float"@,
            FfiTy::Bool => "bool"@,
            FfiTy::Str => "str"@,
            FfiTy::Ptr => "ptr"@,
            FfiTy::Void => "void"@,
        }
    }

    /// The name of the type.
    pub fn name(&self) -> (r: &'static str)
        ensures
            r@ == self.text(),
    {
        match self {
            FfiTy::Int => "int",
            FfiTy::Float => "float",
            FfiTy::Bool => "bool",
            FfiTy::Str => "str",
            FfiTy::Ptr => "ptr",
            FfiTy::Void => "void",
        }
    }
}

/// A parameter of a signature: `name: ty`.
pub struct FfiParam {
    pub name: String,
    pub ty: FfiTy,
    pub span: Span,
}

/// A signature: `fn name(p: ty, ...) -> ret;`. A prototype that cannot be called is
/// kept with the reason.
pub struct FfiSig {
    pub name: String,
    pub params: Vec<FfiParam>,
    pub ret: FfiTy,
    pub unsupported: Option<&'static str>,
    pub span: Span,
}

/// A piece of an interpolated text.
pub enum FStrSeg {
    Lit(String),
    Code(Expr),
}

/// An expression.
#[allow(inconsistent_fields)]
pub enum Expr {
    IntLit(i64, Span),
    /// A floating-point literal, by the digits it was written with.
    FloatLit(String, Span),
    BoolLit(bool, Span),
    StrLit(String, Span),
    Ident { name: String, span: Span },
    /// `[a, b, c]`.
    ListLit(Vec<Expr>, Span),
    /// `{"key": value, ...}`.
    DictLit(Vec<(String, Expr)>, Span),
    /// `f"..."`.
    FStr(Vec<FStrSeg>, Span),
    /// `obj.field`.
    Field { obj: Box<Expr>, field: String, span: Span },
    Unary { op: UnOp, expr: Box<Expr>, span: Span },
    Binary { op: BinOp, lhs: Box<Expr>, rhs: Box<Expr>, span: Span },
    /// A call; the callee is a full name such as `time.now`.
    Call { callee: String, args: Vec<Expr>, span: Span },
    /// `match value { pattern => body, ..., _ => body }`; no pattern stands for `_`.
    Match { value: Box<Expr>, arms: Vec<(Option<Expr>, Expr)>, span: Span },
}

/// A prefix operator.
#[derive(Debug, Clone, Copy, PartialEq, Eq, Structural)]
pub enum UnOp {
    Neg,
    Not,
}

/// An infix operator.
#[derive(Debug, Clone, Copy, PartialEq, Eq, Structural)]
pub enum BinOp {
    Add,
    Sub,
    Mul,
    Div,
    Mod,
    Eq,
    Ne,
    Lt,
    Le,
    Gt,
    Ge,
    And,
    Or,
}

impl BinOp {
    /// How the operator is written.
    pub open spec fn text(self) -> Seq<char> {
        match self {
            BinOp::Add => "+"@,
            BinOp::Sub => "-"@,
            BinOp::Mul => "*"@,
            BinOp::Div => "/"@,
            BinOp::Mod => "%"@,
            BinOp::Eq => "=="@,
            BinOp::Ne => "!="@,
            BinOp::Lt => "<"@,
            BinOp::Le => "<="@,
            BinOp::Gt => ">"@,
            BinOp::Ge => ">="@,
            BinOp::And => "&&"@,
            BinOp::Or => "||"@,
        }
    }

    /// How the operator is written.
    pub fn symbol(&self) -> (r: &'static str)
        ensures
            r@ == self.text(),
    {
        match self {
            BinOp::Add => "+",
            BinOp::Sub => "-",
            BinOp::Mul => "*",
            BinOp::Div => "/",
            BinOp::Mod => "%",
            BinOp::Eq => "==",
            BinOp::Ne => "!=",
            BinOp::Lt => "<",
            BinOp::Le => "<=",
            BinOp::Gt => ">",
            BinOp::Ge => ">=",
            BinOp::And => "&&",
            BinOp::Or => "||",
        }
    }
}

/// The place of an expression.
pub fn expr_span(e: &Expr) -> (r: Span)
    ensures
        r == e@.span(),
{
    match e {
        Expr::IntLit(_, s) => *s,
        Expr::FloatLit(_, s) => *s,
        Expr::BoolLit(_, s) => *s,
        Expr::StrLit(_, s) => *s,
        Expr::ListLit(_, s) => *s,
        Expr::DictLit(_, s) => *s,
        Expr::FStr(_, s) => *s,
        Expr::Ident { span, .. } => *span,
        Expr::Field { span, .. } => *span,
        Expr::Call { span, .. } => *span,
        Expr::Unary { span, .. } => *span,
        Expr::Binary { span, .. } => *span,
        Expr::Match { span, .. } => *span,
    }
}

/// A statement, mathematically.
#[allow(inconsistent_fields)]
pub enum StmtV {
    Assign { name: Seq<char>, value: ExprV, span: Span },
    VarDecl { name: Seq<char>, ty: TyName, init: Option<ExprV>, span: Span },
    Block { stmts: Seq<StmtV>, span: Span },
    If { cond: ExprV, then_branch: Seq<StmtV>, else_branch: Option<Seq<StmtV>>, span: Span },
    While { cond: ExprV, body: Seq<StmtV>, span: Span },
    ForIn { var: Seq<char>, var2: Option<Seq<char>>, iter: ExprV, body: Seq<StmtV>, span: Span },
    Return { value: Option<ExprV>, span: Span },
    FnDef {
        name: Seq<char>,
        params: Seq<ParamV>,
        ret: Option<TyName>,
        body: Seq<StmtV>,
        span: Span,
        tmp: bool,
    },
    DebugPrint { expr: ExprV, span: Span },
    ExprStmt { expr: ExprV, span: Span },
    Breakpoint { span: Span },
    Export { name: Seq<char>, span: Span },
    Import { name: Seq<char>, url: Seq<char>, alias: Option<Seq<char>>, span: Span },
    Load {
        lazy: bool,
        path: Seq<char>,
        alias: Option<Seq<char>>,
        from: Option<Seq<char>>,
        sigs: Seq<FfiSigV>,
        span: Span,
    },
    Use { namespace: Seq<char>, span: Span },
    Alias { original: Seq<char>, new_name: Seq<char>, span: Span },
    Go { callee: Seq<char>, args: Seq<ExprV>, span: Span },
    Try { body: Seq<StmtV>, catch_var: Seq<char>, handler: Seq<StmtV>, span: Span },
    Throw { value: ExprV, span: Span },
    StructDef { name: Seq<char>, fields: Seq<(Seq<char>, TyName)>, span: Span },
}

/// A parameter, mathematically.
pub struct ParamV {
    pub name: Seq<char>,
    pub ty: Option<TyName>,
    pub span: Span,
}

/// A parameter of a signature, mathematically.
pub struct FfiParamV {
    pub name: Seq<char>,
    pub ty: FfiTy,
    pub span: Span,
}

/// A signature, mathematically.
pub struct FfiSigV {
    pub name: Seq<char>,
    pub params: Seq<FfiParamV>,
    pub ret: FfiTy,
    pub unsupported: Option<Seq<char>>,
    pub span: Span,
}

/// A piece of an interpolated text, mathematically.
pub enum SegV {
    Lit(Seq<char>),
    Code(ExprV),
}

/// An expression, mathematically.
#[allow(inconsistent_fields)]
pub enum ExprV {
    IntLit(i64, Span),
    FloatLit(Seq<char>, Span),
    BoolLit(bool, Span),
    StrLit(Seq<char>, Span),
    Ident { name: Seq<char>, span: Span },
    ListLit(Seq<ExprV>, Span),
    DictLit(Seq<(Seq<char>, ExprV)>, Span),
    FStr(Seq<SegV>, Span),
    Field { obj: Box<ExprV>, field: Seq<char>, span: Span },
    Unary { op: UnOp, expr: Box<ExprV>, span: Span },
    Binary { op: BinOp, lhs: Box<ExprV>, rhs: Box<ExprV>, span: Span },
    Call { callee: Seq<char>, args: Seq<ExprV>, span: Span },
    Match { value: Box<ExprV>, arms: Seq<(Option<ExprV>, ExprV)>, span: Span },
}

impl ExprV {
    /// The place of the expression.
    pub open spec fn span(self) -> Span {
        match self {
            ExprV::IntLit(_, s) => s,
            ExprV::FloatLit(_, s) => s,
            ExprV::BoolLit(_, s) => s,
            ExprV::StrLit(_, s) => s,
            ExprV::ListLit(_, s) => s,
            ExprV::DictLit(_, s) => s,
            ExprV::FStr(_, s) => s,
            ExprV::Ident { span, .. } => span,
            ExprV::Field { span, .. } => span,
            ExprV::Call { span, .. } => span,
            ExprV::Unary { span, .. } => span,
            ExprV::Binary { span, .. } => span,
            ExprV::Match { span, .. } => span,
        }
    }
}

impl View for Param {
    type V = ParamV;

    open spec fn view(&self) -> ParamV {
        ParamV { name: self.name@, ty: self.ty, span: self.span }
    }
}

impl View for FfiParam {
    type V = FfiParamV;

    open spec fn view(&self) -> FfiParamV {
        FfiParamV { name: self.name@, ty: self.ty, span: self.span }
    }
}

/// Parameters, mathematically.
pub open spec fn params_v(ps: Seq<Param>) -> Seq<ParamV> {
    ps.map_values(|p: Param| p@)
}

/// Signature parameters, mathematically.
pub open spec fn ffi_params_v(ps: Seq<FfiParam>) -> Seq<FfiParamV> {
    ps.map_values(|p: FfiParam| p@)
}

impl View for FfiSig {
    type V = FfiSigV;

    open spec fn view(&self) -> FfiSigV {
        FfiSigV {
            name: self.name@,
            params: ffi_params_v(self.params@),
            ret: self.ret,
            unsupported: match self.unsupported {
                Some(s) => Some(s@),
                None => None,
            },
            span: self.span,
        }
    }
}

/// Signatures, mathematically.
pub open spec fn sigs_v(ss: Seq<FfiSig>) -> Seq<FfiSigV> {
    ss.map_values(|s: FfiSig| s@)
}

/// Struct fields, mathematically.
pub open spec fn fields_v(fs: Seq<(String, TyName)>) -> Seq<(Seq<char>, TyName)> {
    fs.map_values(|f: (String, TyName)| (f.0@, f.1))
}

/// The mathematical form of an expression.
pub open spec fn expr_v(e: Expr) -> ExprV
    decreases e,
{
    match e {
        Expr::IntLit(n, span) => ExprV::IntLit(n, span),
        Expr::FloatLit(t, span) => ExprV::FloatLit(t@, span),
        Expr::BoolLit(b, span) => ExprV::BoolLit(b, span),
        Expr::StrLit(s, span) => ExprV::StrLit(s@, span),
        Expr::Ident { name, span } => ExprV::Ident { name: name@, span },
        Expr::ListLit(items, span) => ExprV::ListLit(exprs_v(items@), span),
        Expr::DictLit(entries, span) => ExprV::DictLit(entries_v(entries@), span),
        Expr::FStr(segs, span) => ExprV::FStr(segs_v(segs@), span),
        Expr::Field { obj, field, span } => ExprV::Field {
            obj: Box::new(expr_v(*obj)),
            field: field@,
            span,
        },
        Expr::Unary { op, expr, span } => ExprV::Unary { op, expr: Box::new(expr_v(*expr)), span },
        Expr::Binary { op, lhs, rhs, span } => ExprV::Binary {
            op,
            lhs: Box::new(expr_v(*lhs)),
            rhs: Box::new(expr_v(*rhs)),
            span,
        },
        Expr::Call { callee, args, span } => ExprV::Call {
            callee: callee@,
            args: exprs_v(args@),
            span,
        },
        Expr::Match { value, arms, span } => ExprV::Match {
            value: Box::new(expr_v(*value)),
            arms: arms_v(arms@),
            span,
        },
    }
}

/// The mathematical form of a list of expressions.
pub open spec fn exprs_v(es: Seq<Expr>) -> Seq<ExprV>
    decreases es,
{
    Seq::new(
        es.len(),
        |i: int|
            if 0 <= i < es.len() {
                expr_v(es[i])
            } else {
                arbitrary()
            },
    )
}

/// The mathematical form of the entries of a dictionary.
pub open spec fn entries_v(es: Seq<(String, Expr)>) -> Seq<(Seq<char>, ExprV)>
    decreases es,
{
    Seq::new(
        es.len(),
        |i: int|
            if 0 <= i < es.len() {
                (es[i].0@, expr_v(es[i].1))
            } else {
                arbitrary()
            },
    )
}

/// The mathematical form of one piece of an interpolated text.
pub open spec fn seg_v(s: FStrSeg) -> SegV
    decreases s,
{
    match s {
        FStrSeg::Lit(t) => SegV::Lit(t@),
        FStrSeg::Code(e) => SegV::Code(expr_v(e)),
    }
}

/// The mathematical form of the pieces of an interpolated text.
pub open spec fn segs_v(ss: Seq<FStrSeg>) -> Seq<SegV>
    decreases ss,
{
    Seq::new(
        ss.len(),
        |i: int|
            if 0 <= i < ss.len() {
                seg_v(ss[i])
            } else {
                arbitrary()
            },
    )
}

/// The mathematical form of an optional expression.
pub open spec fn opt_expr_v(e: Option<Expr>) -> Option<ExprV>
    decreases e,
{
    match e {
        Some(e) => Some(expr_v(e)),
        None => None,
    }
}

/// The mathematical form of the arms of a match.
pub open spec fn arms_v(es: Seq<(Option<Expr>, Expr)>) -> Seq<(Option<ExprV>, ExprV)>
    decreases es,
{
    Seq::new(
        es.len(),
        |i: int|
            if 0 <= i < es.len() {
                (opt_expr_v(es[i].0), expr_v(es[i].1))
            } else {
                arbitrary()
            },
    )
}

impl View for Expr {
    type V = ExprV;

    open spec fn view(&self) -> ExprV {
        expr_v(*self)
    }
}

/// The mathematical form of a statement.
pub open spec fn stmt_v(s: Stmt) -> StmtV
    decreases s,
{
    match s {
        Stmt::Assign { name, value, span } => StmtV::Assign {
            name: name@,
            value: expr_v(value),
            span,
        },
        Stmt::VarDecl { name, ty, init, span } => StmtV::VarDecl {
            name: name@,
            ty,
            init: opt_expr_v(init),
            span,
        },
        Stmt::Block { stmts, span } => StmtV::Block { stmts: stmts_v(stmts@), span },
        Stmt::If { cond, then_branch, else_branch, span } => StmtV::If {
            cond: expr_v(cond),
            then_branch: stmts_v(then_branch@),
            else_branch: match else_branch {
                Some(b) => Some(stmts_v(b@)),
                None => None,
            },
            span,
        },
        Stmt::While { cond, body, span } => StmtV::While {
            cond: expr_v(cond),
            body: stmts_v(body@),
            span,
        },
        Stmt::ForIn { var, var2, iter, body, span } => StmtV::ForIn {
            var: var@,
            var2: opt_text(var2),
            iter: expr_v(iter),
            body: stmts_v(body@),
            span,
        },
        Stmt::Return { value, span } => StmtV::Return { value: opt_expr_v(value), span },
        Stmt::FnDef { name, params, ret, body, span, tmp } => StmtV::FnDef {
            name: name@,
            params: params_v(params@),
            ret,
            body: stmts_v(body@),
            span,
            tmp,
        },
        Stmt::DebugPrint { expr, span } => StmtV::DebugPrint { expr: expr_v(*expr), span },
        Stmt::ExprStmt { expr, span } => StmtV::ExprStmt { expr: expr_v(expr), span },
        Stmt::Breakpoint { span } => StmtV::Breakpoint { span },
        Stmt::Export { name, span } => StmtV::Export { name: name@, span },
        Stmt::Import { name, url, alias, span } => StmtV::Import {
            name: name@,
            url: url@,
            alias: opt_text(alias),
            span,
        },
        Stmt::Load { lazy, path, alias, from, sigs, span } => StmtV::Load {
            lazy,
            path: path@,
            alias: opt_text(alias),
            from: opt_text(from),
            sigs: sigs_v(sigs@),
            span,
        },
        Stmt::Use { namespace, span } => StmtV::Use { namespace: namespace@, span },
        Stmt::Alias { original, new_name, span } => StmtV::Alias {
            original: original@,
            new_name: new_name@,
            span,
        },
        Stmt::Go { callee, args, span } => StmtV::Go {
            callee: callee@,
            args: exprs_v(args@),
            span,
        },
        Stmt::Try { body, catch_var, handler, span } => StmtV::Try {
            body: stmts_v(body@),
            catch_var: catch_var@,
            handler: stmts_v(handler@),
            span,
        },
        Stmt::Throw { value, span } => StmtV::Throw { value: expr_v(value), span },
        Stmt::StructDef { name, fields, span } => StmtV::StructDef {
            name: name@,
            fields: fields_v(fields@),
            span,
        },
    }
}

/// The mathematical form of a list of statements.
pub open spec fn stmts_v(ss: Seq<Stmt>) -> Seq<StmtV>
    decreases ss,
{
    Seq::new(
        ss.len(),
        |i: int|
            if 0 <= i < ss.len() {
                stmt_v(ss[i])
            } else {
                arbitrary()
            },
    )
}

impl View for Stmt {
    type V = StmtV;

    open spec fn view(&self) -> StmtV {
        stmt_v(*self)
    }
}

impl View for Program {
    type V = Seq<StmtV>;

    open spec fn view(&self) -> Seq<StmtV> {
        stmts_v(self.stmts@)
    }
}

} // verus!
