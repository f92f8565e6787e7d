//! What the C text of a function does: a part of C with its text and its meaning, and that the text
//! which is written for a function is C that does what the function does.

use vstd::prelude::*;

use super::emit::{args_code, call_args, expr_code, scope_code, stmt_code, stmts_code, CodeV, GenV};
use super::types::{param_type, param_types, param_vars, signature, CType, CodegenV};
use crate::ast::{BinOp, ExprV, ParamV, StmtV, TyName, UnOp};
use crate::interp::env::{env_get, env_set, lemma_scope_of, no_scope, scope_of, ScopeV};
use crate::interp::ops::{quotient, remainder};
use crate::interp::sense::{
    all_done, block_done, done, sense, senses, with_args, Code, Flow,
};
use crate::text::idec;
use crate::value::ValueV;
use crate::words::joined_by;

verus! {

/// An expression of C.
pub enum CExpr {
    Number(int),
    Truth(bool),
    Name(Seq<char>),
    Prefix(UnOp, Box<CExpr>),
    Infix(BinOp, Box<CExpr>, Box<CExpr>),
    Call(Seq<char>, Seq<CExpr>),
}

/// A statement of C.
pub enum CStmt {
    /// `type name = value;`.
    Declare(CType, Seq<char>, CExpr),
    /// `name = value;`.
    Store(Seq<char>, CExpr),
    /// A call.
    Do(CExpr),
    /// `{ ... }`.
    Block(Seq<CStmt>),
    /// `if (...) { ... }`.
    If(CExpr, Seq<CStmt>),
    /// `if (...) { ... } else { ... }`.
    IfElse(CExpr, Seq<CStmt>, Seq<CStmt>),
    /// `while (...) { ... }`.
    While(CExpr, Seq<CStmt>),
    /// `return value;`.
    Return(CExpr),
    /// `return;`.
    Leave,
    /// Nothing at all.
    Nothing,
}

/// A function of C.
pub struct CFun {
    pub params: Seq<Seq<char>>,
    pub body: Seq<CStmt>,
}

/// The name of a type in C.
pub open spec fn type_text(t: CType) -> Seq<char> {
    match t {
        CType::Int => "int64_t"@,
        CType::Double => "double"@,
        CType::Bool => "bool"@,
        CType::Str => "const char*"@,
        CType::Void => "void"@,
    }
}

/// The sign of an operator in C.
pub open spec fn sign_text(op: BinOp) -> Seq<char> {
    match op {
        BinOp::Add => "+"@,
        BinOp::Sub => "-"@,
        BinOp::Mul => "*"@,
        BinOp::Div => "/"@,
        BinOp::Mod => "%"@,
        BinOp::Eq => "=="@,
        BinOp::Ne => "!="@,
        BinOp::Lt => "<"@,
        BinOp::Le => "<="@,
        BinOp::Gt => ">"@,
        BinOp::Ge => ">="@,
        BinOp::And => "&&"@,
        BinOp::Or => "||"@,
    }
}

/// The text of an expression of C, every operator in brackets.
pub open spec fn text(e: CExpr) -> Seq<char>
    decreases e, 0int,
{
    match e {
        CExpr::Number(n) => idec(n),
        CExpr::Truth(b) => if b {
            "true"@
        } else {
            "false"@
        },
        CExpr::Name(n) => n,
        CExpr::Prefix(UnOp::Neg, x) => "(-"@ + text(*x) + ")"@,
        CExpr::Prefix(UnOp::Not, x) => "(!"@ + text(*x) + ")"@,
        CExpr::Infix(op, x, y) => "("@ + text(*x) + " "@ + sign_text(op) + " "@ + text(*y) + ")"@,
        CExpr::Call(f, x) => f + "("@ + args_text(x, x.len() as int) + ")"@,
    }
}

/// The text of the first `n` arguments, with commas between them.
pub open spec fn args_text(x: Seq<CExpr>, n: int) -> Seq<char>
    decreases x, n,
{
    if n <= 0 || n > x.len() {
        Seq::empty()
    } else if n == 1 {
        text(x[0])
    } else {
        args_text(x, n - 1) + ", "@ + text(x[n - 1])
    }
}

/// The text of a statement of C.
pub open spec fn stmt_text(s: CStmt) -> Seq<char>
    decreases s, 0int,
{
    match s {
        CStmt::Declare(t, n, e) => "    "@ + type_text(t) + " "@ + n + " = "@ + text(e) + ";\n"@,
        CStmt::Store(n, e) => "    "@ + n + " = "@ + text(e) + ";\n"@,
        CStmt::Do(e) => "    "@ + text(e) + ";\n"@,
        CStmt::Block(x) => "    {\n"@ + stmts_text(x, x.len() as int) + "    }\n"@,
        CStmt::If(e, x) => "    if ("@ + text(e) + ") {\n"@ + stmts_text(x, x.len() as int) + "    }\n"@,
        CStmt::IfElse(e, x, y) => "    if ("@ + text(e) + ") {\n"@ + stmts_text(x, x.len() as int) + "    } else {\n"@
            + stmts_text(y, y.len() as int) + "    }\n"@,
        CStmt::While(e, x) => "    while ("@ + text(e) + ") {\n"@ + stmts_text(x, x.len() as int) + "    }\n"@,
        CStmt::Return(e) => "    return "@ + text(e) + ";\n"@,
        CStmt::Leave => "    return;\n"@,
        CStmt::Nothing => Seq::empty(),
    }
}

/// The text of the first `n` statements.
pub open spec fn stmts_text(x: Seq<CStmt>, n: int) -> Seq<char>
    decreases x, n,
{
    if n <= 0 || n > x.len() {
        Seq::empty()
    } else {
        stmts_text(x, n - 1) + stmt_text(x[n - 1])
    }
}

/// A number of 64 bits; C leaves open what happens where one does not fit.
pub open spec fn long(n: int) -> Option<ValueV> {
    if i64::MIN <= n <= i64::MAX {
        Some(ValueV::Int(n as i64))
    } else {
        None
    }
}

/// What an operator of C gives on numbers and truths, where C says it.
pub open spec fn c_infix(op: BinOp, a: ValueV, b: ValueV) -> Option<ValueV> {
    match (a, b) {
        (ValueV::Int(x), ValueV::Int(y)) => match op {
            BinOp::Add => long(x + y),
            BinOp::Sub => long(x - y),
            BinOp::Mul => long(x * y),
            BinOp::Div => if y == 0 {
                None
            } else {
                long(quotient(x as int, y as int))
            },
            BinOp::Mod => if y == 0 || quotient(x as int, y as int) > i64::MAX {
                None
            } else {
                long(remainder(x as int, y as int))
            },
            BinOp::Eq => Some(ValueV::Bool(x == y)),
            BinOp::Ne => Some(ValueV::Bool(x != y)),
            BinOp::Lt => Some(ValueV::Bool(x < y)),
            BinOp::Le => Some(ValueV::Bool(x <= y)),
            BinOp::Gt => Some(ValueV::Bool(x > y)),
            BinOp::Ge => Some(ValueV::Bool(x >= y)),
            _ => None,
        },
        (ValueV::Bool(x), ValueV::Bool(y)) => match op {
            BinOp::Eq => Some(ValueV::Bool(x == y)),
            BinOp::Ne => Some(ValueV::Bool(x != y)),
            _ => None,
        },
        _ => None,
    }
}

/// The functions of C by their names.
pub type Lib = Map<Seq<char>, CFun>;

/// The scope of a call in C.
pub open spec fn c_scope(ps: Seq<Seq<char>>, vs: Seq<ValueV>, k: int, s: ScopeV) -> ScopeV
    decreases ps.len() - k,
{
    if k < 0 || k >= ps.len() {
        s
    } else {
        c_scope(ps, vs, k + 1, s.put(ps[k], vs[k]))
    }
}

/// The value of an expression of C, with as many calls and rounds as `fuel` allows.
pub open spec fn c_value(lib: Lib, env: Seq<ScopeV>, e: CExpr, fuel: nat) -> Option<ValueV>
    decreases fuel, 0nat, e, 3nat, 0nat,
{
    match e {
        CExpr::Number(n) => long(n),
        CExpr::Truth(b) => Some(ValueV::Bool(b)),
        CExpr::Name(n) => env_get(env, n),
        CExpr::Prefix(op, x) => match (op, c_value(lib, env, *x, fuel)) {
            (UnOp::Neg, Some(ValueV::Int(n))) => long(-n),
            (UnOp::Not, Some(ValueV::Bool(b))) => Some(ValueV::Bool(!b)),
            _ => None,
        },
        CExpr::Infix(op, x, y) => match c_value(lib, env, *x, fuel) {
            None => None,
            Some(a) => if op == BinOp::And && a == ValueV::Bool(false) {
                Some(a)
            } else if op == BinOp::Or && a == ValueV::Bool(true) {
                Some(a)
            } else {
                match c_value(lib, env, *y, fuel) {
                    None => None,
                    Some(b) => if op == BinOp::And || op == BinOp::Or {
                        if a is Bool && b is Bool {
                            Some(b)
                        } else {
                            None
                        }
                    } else {
                        c_infix(op, a, b)
                    },
                }
            },
        },
        CExpr::Call(f, x) => match c_values(lib, env, x, 0, fuel) {
            None => None,
            Some(vs) => if lib.dom().contains(f) && lib[f].params.len() == vs.len() && fuel > 0 {
                match c_all(lib, seq![c_scope(lib[f].params, vs, 0, no_scope())], lib[f].body, 0, (fuel - 1) as nat) {
                    Some((_, Flow::Gave(v))) => Some(v),
                    Some((_, Flow::Fell)) => Some(ValueV::Null),
                    None => None,
                }
            } else {
                None
            },
        },
    }
}

/// The values of expressions of C from a place on.
pub open spec fn c_values(lib: Lib, env: Seq<ScopeV>, x: Seq<CExpr>, k: int, fuel: nat) -> Option<Seq<ValueV>>
    decreases fuel, 0nat, x, 0nat, x.len() - k,
{
    if k < 0 || k >= x.len() {
        Some(Seq::empty())
    } else {
        match c_value(lib, env, x[k], fuel) {
            None => None,
            Some(v) => match c_values(lib, env, x, k + 1, fuel) {
                None => None,
                Some(vs) => Some(seq![v] + vs),
            },
        }
    }
}

/// What statements of C from a place on do to the variables, and how they end.
pub open spec fn c_all(lib: Lib, env: Seq<ScopeV>, x: Seq<CStmt>, k: int, fuel: nat) -> Option<(Seq<ScopeV>, Flow)>
    decreases fuel, 1nat, x, 0nat, x.len() - k,
{
    if k < 0 || k >= x.len() {
        Some((env, Flow::Fell))
    } else {
        match c_done(lib, env, x[k], fuel) {
            Some((env2, Flow::Fell)) => c_all(lib, env2, x, k + 1, fuel),
            r => r,
        }
    }
}

/// What a block of C does: its own variables are gone behind it.
pub open spec fn c_block(lib: Lib, env: Seq<ScopeV>, x: Seq<CStmt>, fuel: nat) -> Option<(Seq<ScopeV>, Flow)>
    decreases fuel, 1nat, x, 1nat, 0nat,
{
    match c_all(lib, env.push(no_scope()), x, 0, fuel) {
        Some((env2, f)) => Some((env2.drop_last(), f)),
        None => None,
    }
}

/// What a statement of C does to the variables, and how it ends. A declaration makes a variable in
/// the innermost block; an assignment is to the innermost variable of that name.
pub open spec fn c_done(lib: Lib, env: Seq<ScopeV>, s: CStmt, fuel: nat) -> Option<(Seq<ScopeV>, Flow)>
    decreases fuel, 1nat, s, 3nat, 0nat,
{
    match s {
        CStmt::Declare(_, n, e) => match c_value(lib, env, e, fuel) {
            Some(v) => if env.len() > 0 && !env.last().vals.dom().contains(n) {
                Some((env.update(env.len() - 1, env.last().put(n, v)), Flow::Fell))
            } else {
                None
            },
            None => None,
        },
        CStmt::Store(n, e) => match (c_value(lib, env, e, fuel), scope_of(env, n, env.len() as int)) {
            (Some(v), Some(i)) => Some((env.update(i, env[i].put(n, v)), Flow::Fell)),
            _ => None,
        },
        CStmt::Do(e) => match c_value(lib, env, e, fuel) {
            Some(_) => Some((env, Flow::Fell)),
            None => None,
        },
        CStmt::Block(x) => c_block(lib, env, x, fuel),
        CStmt::If(e, x) => match c_value(lib, env, e, fuel) {
            Some(ValueV::Bool(true)) => c_block(lib, env, x, fuel),
            Some(ValueV::Bool(false)) => Some((env, Flow::Fell)),
            _ => None,
        },
        CStmt::IfElse(e, x, y) => match c_value(lib, env, e, fuel) {
            Some(ValueV::Bool(true)) => c_block(lib, env, x, fuel),
            Some(ValueV::Bool(false)) => c_block(lib, env, y, fuel),
            _ => None,
        },
        CStmt::While(e, x) => match c_value(lib, env, e, fuel) {
            Some(ValueV::Bool(true)) => match c_block(lib, env, x, fuel) {
                Some((env2, Flow::Fell)) => if fuel > 0 {
                    c_done(lib, env2, s, (fuel - 1) as nat)
                } else {
                    None
                },
                r => r,
            },
            Some(ValueV::Bool(false)) => Some((env, Flow::Fell)),
            _ => None,
        },
        CStmt::Return(e) => match c_value(lib, env, e, fuel) {
            Some(v) => Some((env, Flow::Gave(v))),
            None => None,
        },
        CStmt::Leave => Some((env, Flow::Gave(ValueV::Null))),
        CStmt::Nothing => Some((env, Flow::Fell)),
    }
}

/// Whether a type is one of numbers or truths.
pub open spec fn plain_type(t: CType) -> bool {
    t == CType::Int || t == CType::Bool
}

/// Whether all variables are numbers or truths.
pub open spec fn plain_vars(vars: Map<Seq<char>, CType>) -> bool {
    forall|n: Seq<char>| #[trigger] vars.dom().contains(n) ==> plain_type(vars[n])
}

/// The type of what a function gives.
pub open spec fn ret_of(g: CodegenV, f: Seq<char>) -> CType {
    signature(g, f, g.fns[f], Seq::empty(), g.count)->Ok_0.ret
}

/// Whether all functions take numbers and truths, and give one.
pub open spec fn plain_fns(g: CodegenV) -> bool {
    forall|f: Seq<char>|
        #[trigger] g.fns.dom().contains(f) ==> plain_type(ret_of(g, f)) && (
        forall|i: int| 0 <= i < g.fns[f].params.len() ==> plain_type(param_type(#[trigger] g.fns[f].params[i])))
}

/// Whether an expression is one of numbers and truths.
pub open spec fn plain(e: ExprV) -> bool
    decreases e,
{
    match e {
        ExprV::IntLit(n, _) => n >= 0,
        ExprV::BoolLit(..) | ExprV::Ident { .. } => true,
        ExprV::Unary { expr, .. } => plain(*expr),
        ExprV::Binary { lhs, rhs, .. } => plain(*lhs) && plain(*rhs),
        ExprV::Call { args, .. } => forall|i: int| 0 <= i < args.len() ==> plain(#[trigger] args[i]),
        _ => false,
    }
}

/// Whether a statement is one of numbers and truths.
pub open spec fn plain_stmt(s: StmtV) -> bool
    decreases s, 0int,
{
    match s {
        StmtV::Assign { value, .. } => plain(value),
        StmtV::VarDecl { ty, init, .. } => (ty == TyName::Int || ty == TyName::Bool) && (init matches Some(e) ==> plain(e)),
        StmtV::Block { stmts, .. } => plain_stmts(stmts),
        StmtV::If { cond, then_branch, else_branch, .. } => plain(cond) && plain_stmts(then_branch) && match else_branch {
            Some(x) => plain_stmts(x),
            None => true,
        },
        StmtV::While { cond, body, .. } => plain(cond) && plain_stmts(body),
        StmtV::Return { value, .. } => value matches Some(e) ==> plain(e),
        StmtV::ExprStmt { expr, .. } => expr is Call && plain(expr),
        StmtV::FnDef { .. } => true,
        _ => false,
    }
}

/// Whether all statements of a row are of numbers and truths.
pub open spec fn plain_stmts(x: Seq<StmtV>) -> bool
    decreases x, 1int,
{
    forall|i: int| 0 <= i < x.len() ==> plain_stmt(#[trigger] x[i])
}

/// The type of an expression in C.
pub open spec fn c_type(g: CodegenV, e: ExprV, vars: Map<Seq<char>, CType>) -> CType
    decreases e,
{
    match e {
        ExprV::IntLit(..) => CType::Int,
        ExprV::Ident { name, .. } => vars[name],
        ExprV::Unary { op: UnOp::Neg, .. } => CType::Int,
        ExprV::Binary { op, .. } => match op {
            BinOp::Add | BinOp::Sub | BinOp::Mul | BinOp::Div | BinOp::Mod => CType::Int,
            _ => CType::Bool,
        },
        ExprV::Call { callee, .. } => ret_of(g, callee),
        _ => CType::Bool,
    }
}

/// An expression as one of C.
pub open spec fn in_c(e: ExprV) -> CExpr
    decreases e, 0int,
{
    match e {
        ExprV::IntLit(n, _) => CExpr::Number(n as int),
        ExprV::BoolLit(b, _) => CExpr::Truth(b),
        ExprV::Ident { name, .. } => CExpr::Name(name),
        ExprV::Unary { op, expr, .. } => CExpr::Prefix(op, Box::new(in_c(*expr))),
        ExprV::Binary { op, lhs, rhs, .. } => CExpr::Infix(op, Box::new(in_c(*lhs)), Box::new(in_c(*rhs))),
        ExprV::Call { callee, args, .. } => CExpr::Call(callee, args_in_c(args, args.len() as int)),
        _ => CExpr::Truth(false),
    }
}

/// The first `n` arguments as expressions of C.
pub open spec fn args_in_c(x: Seq<ExprV>, n: int) -> Seq<CExpr>
    decreases x, n,
{
    if n <= 0 || n > x.len() {
        Seq::empty()
    } else {
        args_in_c(x, n - 1).push(in_c(x[n - 1]))
    }
}

/// A variable that gets a value, as a statement of C: a new one is declared.
pub open spec fn give_in_c(name: Seq<char>, t: CType, e: CExpr, vars: Map<Seq<char>, CType>) -> CStmt {
    if vars.dom().contains(name) {
        CStmt::Store(name, e)
    } else {
        CStmt::Declare(t, name, e)
    }
}

/// The variables with one that gets a value.
pub open spec fn with_var(vars: Map<Seq<char>, CType>, name: Seq<char>, t: CType) -> Map<Seq<char>, CType> {
    if vars.dom().contains(name) {
        vars
    } else {
        vars.insert(name, t)
    }
}

/// The variables behind a statement.
pub open spec fn vars_behind(g: CodegenV, s: StmtV, vars: Map<Seq<char>, CType>) -> Map<Seq<char>, CType> {
    match s {
        StmtV::Assign { name, value, .. } => with_var(vars, name, c_type(g, value, vars)),
        StmtV::VarDecl { name, ty, .. } => with_var(
            vars,
            name,
            if ty == TyName::Int {
                CType::Int
            } else {
                CType::Bool
            },
        ),
        _ => vars,
    }
}

/// A statement as one of C.
pub open spec fn stmt_in_c(g: CodegenV, s: StmtV, vars: Map<Seq<char>, CType>) -> CStmt
    decreases s, 0int,
{
    match s {
        StmtV::Assign { name, value, .. } => give_in_c(name, c_type(g, value, vars), in_c(value), vars),
        StmtV::VarDecl { name, ty, init, .. } => {
            let t = if ty == TyName::Int {
                CType::Int
            } else {
                CType::Bool
            };
            give_in_c(
                name,
                t,
                match init {
                    Some(e) => in_c(e),
                    None => if ty == TyName::Int {
                        CExpr::Number(0)
                    } else {
                        CExpr::Truth(false)
                    },
                },
                vars,
            )
        },
        StmtV::Block { stmts, .. } => CStmt::Block(stmts_in_c(g, stmts, 0, vars)),
        StmtV::If { cond, then_branch, else_branch, .. } => match else_branch {
            None => CStmt::If(in_c(cond), stmts_in_c(g, then_branch, 0, vars)),
            Some(x) => CStmt::IfElse(in_c(cond), stmts_in_c(g, then_branch, 0, vars), stmts_in_c(g, x, 0, vars)),
        },
        StmtV::While { cond, body, .. } => CStmt::While(in_c(cond), stmts_in_c(g, body, 0, vars)),
        StmtV::Return { value, .. } => match value {
            Some(e) => CStmt::Return(in_c(e)),
            None => CStmt::Leave,
        },
        StmtV::ExprStmt { expr, .. } => CStmt::Do(in_c(expr)),
        _ => CStmt::Nothing,
    }
}

/// Statements from a place on as statements of C.
pub open spec fn stmts_in_c(g: CodegenV, x: Seq<StmtV>, k: int, vars: Map<Seq<char>, CType>) -> Seq<CStmt>
    decreases x, x.len() - k,
{
    if k < 0 || k >= x.len() {
        Seq::empty()
    } else {
        seq![stmt_in_c(g, x[k], vars)] + stmts_in_c(g, x, k + 1, vars_behind(g, x[k], vars))
    }
}

/// The texts of arguments, joined.
proof fn lemma_joined(x: Seq<CExpr>, ts: Seq<Seq<char>>, n: int)
    requires
        0 <= n <= x.len(),
        ts.len() >= n,
        forall|i: int| 0 <= i < n ==> #[trigger] ts[i] == text(x[i]),
    ensures
        joined_by(ts, ", "@, n) == args_text(x, n),
    decreases n,
{
    if n > 0 {
        lemma_joined(x, ts, n - 1);
        assert(ts[n - 1] == text(x[n - 1]));
        if n == 1 {
            assert(ts[0] == text(x[0]));
        }
    }
}

proof fn lemma_args_len(x: Seq<ExprV>, n: int)
    requires
        0 <= n <= x.len(),
    ensures
        args_in_c(x, n).len() == n,
        forall|i: int| 0 <= i < n ==> #[trigger] args_in_c(x, n)[i] == in_c(x[i]),
    decreases n,
{
    if n > 0 {
        lemma_args_len(x, n - 1);
    }
}

/// The text of an expression is that of its form in C, and it has the type that it has there.
proof fn lemma_expr_text(g: CodegenV, e: ExprV, vars: Map<Seq<char>, CType>, n: usize)
    requires
        plain(e),
        plain_vars(vars),
        plain_fns(g),
        expr_code(g, e, vars, n) is Ok,
    ensures
        expr_code(g, e, vars, n)->Ok_0.code == text(in_c(e)),
        expr_code(g, e, vars, n)->Ok_0.ty == c_type(g, e, vars),
        plain_type(c_type(g, e, vars)),
    decreases e, 0int,
{
    match e {
        ExprV::Unary { expr, .. } => lemma_expr_text(g, *expr, vars, n),
        ExprV::Binary { lhs, rhs, .. } => {
            lemma_expr_text(g, *lhs, vars, n);
            let l = expr_code(g, *lhs, vars, n)->Ok_0;
            lemma_expr_text(g, *rhs, vars, l.temps);
        },
        ExprV::Call { callee, args, span } => {
            let want = param_types(g.fns[callee].params);
            lemma_call_text(g, callee, args, want, vars, n, span);
        },
        _ => {},
    }
}

proof fn lemma_call_text(
    g: CodegenV,
    callee: Seq<char>,
    args: Seq<ExprV>,
    want: Seq<CType>,
    vars: Map<Seq<char>, CType>,
    n: usize,
    span: crate::lexer::Span,
)
    requires
        forall|i: int| 0 <= i < args.len() ==> plain(#[trigger] args[i]),
        plain_vars(vars),
        plain_fns(g),
        call_args(g, callee, args, want, vars, n, span) is Ok,
    ensures
        super::emit::call_code(callee, call_args(g, callee, args, want, vars, n, span)->Ok_0.0) == text(
            CExpr::Call(callee, args_in_c(args, args.len() as int)),
        ),
    decreases args, args.len() + 1,
{
    lemma_args_text(g, args, 0, want, vars, n, Seq::empty());
    let ts = args_code(g, args, 0, want, vars, n, Seq::empty())->Ok_0.0;
    lemma_args_len(args, args.len() as int);
    let x = args_in_c(args, args.len() as int);
    assert forall|i: int| 0 <= i < x.len() implies #[trigger] ts[i] == text(x[i]) by {
        assert(x[i] == in_c(args[i]));
    }
    lemma_joined(x, ts, x.len() as int);
}

proof fn lemma_args_text(
    g: CodegenV,
    args: Seq<ExprV>,
    i: int,
    want: Seq<CType>,
    vars: Map<Seq<char>, CType>,
    n: usize,
    ready: Seq<Seq<char>>,
)
    requires
        0 <= i <= args.len(),
        ready.len() == i,
        forall|j: int| 0 <= j < i ==> #[trigger] ready[j] == text(in_c(args[j])),
        forall|j: int| 0 <= j < args.len() ==> plain(#[trigger] args[j]),
        plain_vars(vars),
        plain_fns(g),
        args_code(g, args, i, want, vars, n, ready) is Ok,
    ensures
        ({
            let ts = args_code(g, args, i, want, vars, n, ready)->Ok_0.0;
            ts.len() == args.len() && forall|j: int| 0 <= j < args.len() ==> #[trigger] ts[j] == text(in_c(args[j]))
        }),
    decreases args, args.len() - i,
{
    if i < args.len() {
        lemma_expr_text(g, args[i], vars, n);
        let c = expr_code(g, args[i], vars, n)->Ok_0;
        lemma_args_text(g, args, i + 1, want, vars, c.temps, ready.push(c.code));
    }
}

/// The text of a row, from the front.
proof fn lemma_text_front(s: CStmt, x: Seq<CStmt>, n: int)
    requires
        0 <= n <= x.len(),
    ensures
        stmts_text(seq![s] + x, n + 1) == stmt_text(s) + stmts_text(x, n),
    decreases n,
{
    let y = seq![s] + x;
    if n > 0 {
        lemma_text_front(s, x, n - 1);
        assert(y[n] == x[n - 1]);
        assert(stmts_text(y, n + 1) == stmts_text(y, n) + stmt_text(x[n - 1]));
        assert(stmt_text(s) + stmts_text(x, n - 1) + stmt_text(x[n - 1]) =~= stmt_text(s) + (stmts_text(x, n - 1)
            + stmt_text(x[n - 1])));
    } else {
        assert(y[0] == s);
        assert(stmts_text(y, 0) =~= Seq::empty());
        assert(stmts_text(y, 1) =~= stmt_text(s));
        assert(stmt_text(s) + stmts_text(x, 0) =~= stmt_text(s));
    }
}

/// The text of a statement that gives a variable a value.
proof fn lemma_give_text(g: CodegenV, name: Seq<char>, c: CodeV, st: GenV, span: crate::lexer::Span, e: CExpr)
    requires
        c.code == text(e),
        plain_vars(st.vars),
        super::emit::assign_code(g, name, c, st, span) is Ok,
    ensures
        ({
            let t = super::emit::assign_code(g, name, c, st, span)->Ok_0;
            &&& t.out == st.out + stmt_text(give_in_c(name, c.ty, e, st.vars))
            &&& t.vars == with_var(st.vars, name, c.ty)
        }),
{
}

proof fn lemma_assoc(a: Seq<char>, b: Seq<char>, c: Seq<char>)
    ensures
        a + b + c == a + (b + c),
{
    assert(a + b + c =~= a + (b + c));
}

/// The ends of blocks.
proof fn lemma_ends()
    ensures
        "    }"@ + "\n"@ == "    }\n"@,
        "    }"@ + " else {\n"@ == "    } else {\n"@,
{
    reveal_strlit("    }");
    reveal_strlit("\n");
    reveal_strlit("    }\n");
    reveal_strlit(" else {\n");
    reveal_strlit("    } else {\n");
    assert("    }"@ + "\n"@ =~= "    }\n"@);
    assert("    }"@ + " else {\n"@ =~= "    } else {\n"@);
}

proof fn lemma_zero()
    ensures
        "0"@ == idec(0),
{
    reveal_strlit("0");
    reveal_with_fuel(crate::text::dec, 2);
    assert("0"@ =~= idec(0));
}

proof fn lemma_assign_text(g: CodegenV, s: StmtV, st: GenV, ret: CType)
    requires
        s is Assign,
        plain_stmt(s),
        plain_vars(st.vars),
        plain_fns(g),
        ret != CType::Str,
        stmt_code(g, s, st, ret) is Ok,
    ensures
        stmt_code(g, s, st, ret)->Ok_0.out == st.out + stmt_text(stmt_in_c(g, s, st.vars)),
        stmt_code(g, s, st, ret)->Ok_0.vars == vars_behind(g, s, st.vars),
        plain_vars(stmt_code(g, s, st, ret)->Ok_0.vars),
    decreases s, 0int,
{
    let (name, value, span) = (s->Assign_name, s->Assign_value, s->Assign_span);
    lemma_expr_text(g, value, st.vars, st.temps);
    let c = expr_code(g, value, st.vars, st.temps)->Ok_0;
    lemma_give_text(g, name, c, st, span, in_c(value));
}

proof fn lemma_decl_text(g: CodegenV, s: StmtV, st: GenV, ret: CType)
    requires
        s is VarDecl,
        plain_stmt(s),
        plain_vars(st.vars),
        plain_fns(g),
        ret != CType::Str,
        stmt_code(g, s, st, ret) is Ok,
    ensures
        stmt_code(g, s, st, ret)->Ok_0.out == st.out + stmt_text(stmt_in_c(g, s, st.vars)),
        stmt_code(g, s, st, ret)->Ok_0.vars == vars_behind(g, s, st.vars),
        plain_vars(stmt_code(g, s, st, ret)->Ok_0.vars),
    decreases s, 0int,
{
    let (name, ty, init, span) = (s->VarDecl_name, s->ty, s->init, s->VarDecl_span);
    match init {
        Some(e) => {
            lemma_expr_text(g, e, st.vars, st.temps);
            let c = expr_code(g, e, st.vars, st.temps)->Ok_0;
            lemma_give_text(g, name, c, st, span, in_c(e));
        },
        None => {
            let zero = if ty == TyName::Int {
                CExpr::Number(0)
            } else {
                CExpr::Truth(false)
            };
            let c = CodeV { ty: CType::of(ty), code: super::emit::zero_code(CType::of(ty)), temps: st.temps };
            lemma_zero();
            lemma_give_text(g, name, c, st, span, zero);
        },
    }
}

proof fn lemma_block_text(g: CodegenV, s: StmtV, st: GenV, ret: CType)
    requires
        s is Block,
        plain_stmt(s),
        plain_vars(st.vars),
        plain_fns(g),
        ret != CType::Str,
        stmt_code(g, s, st, ret) is Ok,
    ensures
        stmt_code(g, s, st, ret)->Ok_0.out == st.out + stmt_text(stmt_in_c(g, s, st.vars)),
        stmt_code(g, s, st, ret)->Ok_0.vars == vars_behind(g, s, st.vars),
        plain_vars(stmt_code(g, s, st, ret)->Ok_0.vars),
    decreases s, 0int,
{
    let stmts = s->Block_stmts;
    let a = st.with("    {\n"@);
    lemma_scope_text(g, stmts, a, ret);
    let x = stmts_in_c(g, stmts, 0, st.vars);
    let b = stmts_text(x, x.len() as int);
    lemma_assoc(st.out, "    {\n"@, b);
    lemma_assoc(st.out, "    {\n"@ + b, "    }\n"@);
}

proof fn lemma_while_text(g: CodegenV, s: StmtV, st: GenV, ret: CType)
    requires
        s is While,
        plain_stmt(s),
        plain_vars(st.vars),
        plain_fns(g),
        ret != CType::Str,
        stmt_code(g, s, st, ret) is Ok,
    ensures
        stmt_code(g, s, st, ret)->Ok_0.out == st.out + stmt_text(stmt_in_c(g, s, st.vars)),
        stmt_code(g, s, st, ret)->Ok_0.vars == vars_behind(g, s, st.vars),
        plain_vars(stmt_code(g, s, st, ret)->Ok_0.vars),
    decreases s, 0int,
{
    let (cond, body) = (s->While_cond, s->While_body);
    lemma_expr_text(g, cond, st.vars, st.temps);
    let c = expr_code(g, cond, st.vars, st.temps)->Ok_0;
    let head = "    while ("@ + c.code + ") {\n"@;
    let a = (GenV { temps: c.temps, ..st }).with(head);
    lemma_scope_text(g, body, a, ret);
    let x = stmts_in_c(g, body, 0, st.vars);
    let b = stmts_text(x, x.len() as int);
    lemma_assoc(st.out, head, b);
    lemma_assoc(st.out, head + b, "    }\n"@);
}

proof fn lemma_if_text(g: CodegenV, s: StmtV, st: GenV, ret: CType)
    requires
        s is If,
        s->else_branch is None,
        plain_stmt(s),
        plain_vars(st.vars),
        plain_fns(g),
        ret != CType::Str,
        stmt_code(g, s, st, ret) is Ok,
    ensures
        stmt_code(g, s, st, ret)->Ok_0.out == st.out + stmt_text(stmt_in_c(g, s, st.vars)),
        stmt_code(g, s, st, ret)->Ok_0.vars == vars_behind(g, s, st.vars),
        plain_vars(stmt_code(g, s, st, ret)->Ok_0.vars),
    decreases s, 0int,
{
    let (cond, yes) = (s->If_cond, s->then_branch);
    lemma_expr_text(g, cond, st.vars, st.temps);
    let c = expr_code(g, cond, st.vars, st.temps)->Ok_0;
    let head = "    if ("@ + c.code + ") {\n"@;
    let a = (GenV { temps: c.temps, ..st }).with(head);
    lemma_scope_text(g, yes, a, ret);
    let x = stmts_in_c(g, yes, 0, st.vars);
    let b = stmts_text(x, x.len() as int);
    lemma_ends();
    lemma_assoc(st.out, head, b);
    lemma_assoc(st.out + (head + b), "    }"@, "\n"@);
    lemma_assoc(st.out, head + b, "    }\n"@);
}

proof fn lemma_else_text(g: CodegenV, s: StmtV, st: GenV, ret: CType)
    requires
        s is If,
        s->else_branch is Some,
        plain_stmt(s),
        plain_vars(st.vars),
        plain_fns(g),
        ret != CType::Str,
        stmt_code(g, s, st, ret) is Ok,
    ensures
        stmt_code(g, s, st, ret)->Ok_0.out == st.out + stmt_text(stmt_in_c(g, s, st.vars)),
        stmt_code(g, s, st, ret)->Ok_0.vars == vars_behind(g, s, st.vars),
        plain_vars(stmt_code(g, s, st, ret)->Ok_0.vars),
    decreases s, 0int,
{
    let (cond, yes, no) = (s->If_cond, s->then_branch, s->else_branch->0);
    lemma_expr_text(g, cond, st.vars, st.temps);
    let c = expr_code(g, cond, st.vars, st.temps)->Ok_0;
    let head = "    if ("@ + c.code + ") {\n"@;
    let a = (GenV { temps: c.temps, ..st }).with(head);
    lemma_scope_text(g, yes, a, ret);
    let t = scope_code(g, yes, a, ret)->Ok_0;
    let x = stmts_in_c(g, yes, 0, st.vars);
    let b = stmts_text(x, x.len() as int);
    lemma_ends();
    lemma_assoc(st.out, head, b);
    let m = t.with("    }"@).with(" else {\n"@);
    lemma_assoc(st.out + (head + b), "    }"@, " else {\n"@);
    lemma_assoc(st.out, head + b, "    } else {\n"@);
    let front = head + b + "    } else {\n"@;
    assert(m.out == st.out + front);
    lemma_scope_text(g, no, m, ret);
    let y = stmts_in_c(g, no, 0, st.vars);
    let d = stmts_text(y, y.len() as int);
    lemma_assoc(st.out, front, d);
    lemma_assoc(st.out + (front + d), "    }"@, "\n"@);
    lemma_assoc(st.out, front + d, "    }\n"@);
}

proof fn lemma_other_text(g: CodegenV, s: StmtV, st: GenV, ret: CType)
    requires
        s is Return || s is ExprStmt || s is FnDef,
        plain_stmt(s),
        plain_vars(st.vars),
        plain_fns(g),
        ret != CType::Str,
        stmt_code(g, s, st, ret) is Ok,
    ensures
        stmt_code(g, s, st, ret)->Ok_0.out == st.out + stmt_text(stmt_in_c(g, s, st.vars)),
        stmt_code(g, s, st, ret)->Ok_0.vars == vars_behind(g, s, st.vars),
        plain_vars(stmt_code(g, s, st, ret)->Ok_0.vars),
    decreases s, 0int,
{
    match s {
        StmtV::Return { value, .. } => {
            if let Some(e) = value {
                lemma_expr_text(g, e, st.vars, st.temps);
            }
        },
        StmtV::ExprStmt { expr, span } => {
            if let ExprV::Call { callee, args, .. } = expr {
                let want = param_types(g.fns[callee].params);
                lemma_call_text(g, callee, args, want, st.vars, st.temps, span);
            }
        },
        _ => {
            assert(st.out + Seq::<char>::empty() =~= st.out);
        },
    }
}

/// The text that is written for a statement is that of a statement of C.
proof fn lemma_stmt_text(g: CodegenV, s: StmtV, st: GenV, ret: CType)
    requires
        plain_stmt(s),
        plain_vars(st.vars),
        plain_fns(g),
        ret != CType::Str,
        stmt_code(g, s, st, ret) is Ok,
    ensures
        stmt_code(g, s, st, ret)->Ok_0.out == st.out + stmt_text(stmt_in_c(g, s, st.vars)),
        stmt_code(g, s, st, ret)->Ok_0.vars == vars_behind(g, s, st.vars),
        plain_vars(stmt_code(g, s, st, ret)->Ok_0.vars),
    decreases s, 1int,
{
    match s {
        StmtV::Assign { .. } => lemma_assign_text(g, s, st, ret),
        StmtV::VarDecl { .. } => lemma_decl_text(g, s, st, ret),
        StmtV::Block { .. } => lemma_block_text(g, s, st, ret),
        StmtV::If { else_branch, .. } => match else_branch {
            None => lemma_if_text(g, s, st, ret),
            Some(_) => lemma_else_text(g, s, st, ret),
        },
        StmtV::While { .. } => lemma_while_text(g, s, st, ret),
        _ => lemma_other_text(g, s, st, ret),
    }
}

proof fn lemma_scope_text(g: CodegenV, x: Seq<StmtV>, st: GenV, ret: CType)
    requires
        plain_stmts(x),
        plain_vars(st.vars),
        plain_fns(g),
        ret != CType::Str,
        scope_code(g, x, st, ret) is Ok,
    ensures
        ({
            let t = scope_code(g, x, st, ret)->Ok_0;
            let y = stmts_in_c(g, x, 0, st.vars);
            t.vars == st.vars && t.out == st.out + stmts_text(y, y.len() as int)
        }),
    decreases x, x.len() + 1,
{
    lemma_stmts_text(g, x, 0, st, ret);
}

/// The text that is written for statements from a place on.
proof fn lemma_stmts_text(g: CodegenV, x: Seq<StmtV>, k: int, st: GenV, ret: CType)
    requires
        0 <= k <= x.len(),
        plain_stmts(x),
        plain_vars(st.vars),
        plain_fns(g),
        ret != CType::Str,
        stmts_code(g, x, k, st, ret) is Ok,
    ensures
        ({
            let t = stmts_code(g, x, k, st, ret)->Ok_0;
            let y = stmts_in_c(g, x, k, st.vars);
            t.out == st.out + stmts_text(y, y.len() as int)
        }),
    decreases x, x.len() - k,
{
    if k < x.len() {
        assert(plain_stmt(x[k]));
        lemma_stmt_text(g, x[k], st, ret);
        let t = stmt_code(g, x[k], st, ret)->Ok_0;
        let rest = stmts_in_c(g, x, k + 1, t.vars);
        let s = stmt_in_c(g, x[k], st.vars);
        lemma_text_front(s, rest, rest.len() as int);
        lemma_stmts_text(g, x, k + 1, t, ret);
        assert(st.out + stmt_text(s) + stmts_text(rest, rest.len() as int) =~= st.out + (stmt_text(s) + stmts_text(
            rest,
            rest.len() as int,
        )));
    } else {
        assert(st.out + stmts_text(Seq::<CStmt>::empty(), 0) =~= st.out);
    }
}

/// Whether a value is a number, a truth or nothing.
pub open spec fn plain_value(v: ValueV) -> bool {
    v is Int || v is Bool || v is Null
}

/// Whether the variables are those that were written, and all are numbers and truths.
pub open spec fn covers(vars: Map<Seq<char>, CType>, env: Seq<ScopeV>) -> bool {
    &&& env.len() > 0
    &&& forall|n: Seq<char>| #[trigger] vars.dom().contains(n) == (env_get(env, n) is Some)
    &&& plain_scopes(env)
}

/// Whether all values of all scopes are numbers, truths or nothing.
pub open spec fn plain_scopes(env: Seq<ScopeV>) -> bool {
    forall|i: int, n: Seq<char>|
        0 <= i < env.len() && #[trigger] env[i].vals.dom().contains(n) ==> plain_value(env[i].vals[n])
}

/// Whether functions of C are those of a program.
pub open spec fn linked(g: CodegenV, c: Code, lib: Lib) -> bool {
    forall|f: Seq<char>| #[trigger]
        c.fns.dom().contains(f) ==> {
            let ps = c.fns[f].params;
            &&& lib.dom().contains(f)
            &&& lib[f].params.len() == ps.len()
            &&& forall|i: int| 0 <= i < ps.len() ==> #[trigger] lib[f].params[i] == ps[i].name
            &&& lib[f].body == stmts_in_c(g, c.fns[f].body, 0, param_vars(ps, ps.len() as int))
            &&& plain_stmts(c.fns[f].body)
        }
}

/// Whether the same variables stand in the same scopes.
spec fn same_doms(a: Seq<ScopeV>, b: Seq<ScopeV>) -> bool {
    a.len() == b.len() && forall|i: int| 0 <= i < a.len() ==> (#[trigger] a[i]).vals.dom() == b[i].vals.dom()
}

/// Whether the same variables stand in all scopes but the innermost, which may have more.
spec fn steady(a: Seq<ScopeV>, b: Seq<ScopeV>) -> bool {
    a.len() == b.len() && a.len() > 0 && (forall|i: int|
        0 <= i < a.len() - 1 ==> (#[trigger] a[i]).vals.dom() == b[i].vals.dom())
}

proof fn lemma_doms(a: Seq<ScopeV>, b: Seq<ScopeV>, n: Seq<char>)
    requires
        same_doms(a, b),
    ensures
        env_get(a, n) is Some == env_get(b, n) is Some,
{
    lemma_scope_of(a, n, a.len() as int);
    lemma_scope_of(b, n, b.len() as int);
    if let Some(i) = scope_of(a, n, a.len() as int) {
        assert(a[i].vals.dom() == b[i].vals.dom());
    }
    if let Some(i) = scope_of(b, n, b.len() as int) {
        assert(a[i].vals.dom() == b[i].vals.dom());
    }
}

proof fn lemma_set_steady(env: Seq<ScopeV>, n: Seq<char>, v: ValueV)
    requires
        env.len() > 0,
    ensures
        steady(env, env_set(env, n, v)),
{
    lemma_scope_of(env, n, env.len() as int);
    let env2 = env_set(env, n, v);
    assert forall|i: int| 0 <= i < env.len() - 1 implies (#[trigger] env[i]).vals.dom() == env2[i].vals.dom() by {
        assert(env[i].vals.dom() =~= env2[i].vals.dom());
    }
}

/// Statements leave the variables of the scopes outside.
proof fn lemma_steady_stmt(c: Code, env: Seq<ScopeV>, s: StmtV, fuel: nat)
    requires
        env.len() > 0,
        plain_stmt(s),
    ensures
        done(c, env, s, fuel) matches Some(r) ==> steady(env, r.0),
    decreases fuel, 1nat, s, 3nat, 0nat,
{
    match s {
        StmtV::Assign { name, value, .. } => {
            if let Some(v) = sense(c, env, value, fuel) {
                lemma_set_steady(env, name, v);
            }
        },
        StmtV::VarDecl { name, ty, init, .. } => {
            match init {
                Some(e) => {
                    if let Some(v) = sense(c, env, e, fuel) {
                        lemma_set_steady(env, name, v);
                    }
                },
                None => lemma_set_steady(env, name, crate::interp::sense::first_value(ty)),
            }
        },
        StmtV::Block { stmts, .. } => lemma_steady_block(c, env, stmts, fuel),
        StmtV::If { then_branch, else_branch, .. } => {
            lemma_steady_block(c, env, then_branch, fuel);
            if let Some(x) = else_branch {
                lemma_steady_block(c, env, x, fuel);
            }
        },
        StmtV::While { body, .. } => {
            lemma_steady_block(c, env, body, fuel);
            if let Some((env2, Flow::Fell)) = block_done(c, env, body, fuel) {
                if fuel > 0 {
                    lemma_steady_stmt(c, env2, s, (fuel - 1) as nat);
                }
            }
        },
        _ => {},
    }
}

proof fn lemma_steady_block(c: Code, env: Seq<ScopeV>, x: Seq<StmtV>, fuel: nat)
    requires
        env.len() > 0,
        plain_stmts(x),
    ensures
        block_done(c, env, x, fuel) matches Some(r) ==> same_doms(env, r.0) && steady(env, r.0),
    decreases fuel, 1nat, x, 1nat, 0nat,
{
    let inner = env.push(no_scope());
    lemma_steady_all(c, inner, x, 0, fuel);
    if let Some((env2, _)) = all_done(c, inner, x, 0, fuel) {
        assert forall|i: int| 0 <= i < env.len() implies (#[trigger] env[i]).vals.dom()
            == env2.drop_last()[i].vals.dom() by {
            assert(inner[i].vals.dom() == env2[i].vals.dom());
        }
    }
}

proof fn lemma_steady_all(c: Code, env: Seq<ScopeV>, x: Seq<StmtV>, k: int, fuel: nat)
    requires
        env.len() > 0,
        0 <= k <= x.len(),
        plain_stmts(x),
    ensures
        all_done(c, env, x, k, fuel) matches Some(r) ==> steady(env, r.0),
    decreases fuel, 1nat, x, 0nat, x.len() - k,
{
    if k < x.len() {
        assert(plain_stmt(x[k]));
        lemma_steady_stmt(c, env, x[k], fuel);
        if let Some((env2, Flow::Fell)) = done(c, env, x[k], fuel) {
            lemma_steady_all(c, env2, x, k + 1, fuel);
            if let Some(r) = all_done(c, env2, x, k + 1, fuel) {
                assert forall|i: int| 0 <= i < env.len() - 1 implies (#[trigger] env[i]).vals.dom() == r.0[i].vals.dom() by {
                    assert(env2[i].vals.dom() == r.0[i].vals.dom());
                }
            }
        }
    }
}

/// A row of C without its first statement.
proof fn lemma_shift(lib: Lib, env: Seq<ScopeV>, s: CStmt, x: Seq<CStmt>, j: int, fuel: nat)
    requires
        0 <= j <= x.len(),
    ensures
        c_all(lib, env, seq![s] + x, j + 1, fuel) == c_all(lib, env, x, j, fuel),
    decreases x.len() - j,
{
    let y = seq![s] + x;
    if j < x.len() {
        assert(y[j + 1] == x[j]);
        if let Some((env2, Flow::Fell)) = c_done(lib, env, x[j], fuel) {
            lemma_shift(lib, env2, s, x, j + 1, fuel);
        }
    }
}

proof fn lemma_scope(ps: Seq<ParamV>, ns: Seq<Seq<char>>, vs: Seq<ValueV>, k: int, s: ScopeV)
    requires
        ps.len() == ns.len(),
        0 <= k <= ps.len(),
        forall|i: int| 0 <= i < ps.len() ==> #[trigger] ns[i] == ps[i].name,
    ensures
        c_scope(ns, vs, k, s) == with_args(ps, vs, k, s),
    decreases ps.len() - k,
{
    if k < ps.len() {
        assert(ns[k] == ps[k].name);
        lemma_scope(ps, ns, vs, k + 1, s.put(ps[k].name, vs[k]));
    }
}

/// The variables of a call are its parameters.
proof fn lemma_params(ps: Seq<ParamV>, vs: Seq<ValueV>, k: int, s: ScopeV)
    requires
        ps.len() == vs.len(),
        0 <= k <= ps.len(),
        s.vals.dom() =~= param_vars(ps, k).dom(),
        forall|n: Seq<char>| #[trigger] s.vals.dom().contains(n) ==> plain_value(s.vals[n]),
        forall|i: int| 0 <= i < vs.len() ==> plain_value(#[trigger] vs[i]),
    ensures
        with_args(ps, vs, k, s).vals.dom() =~= param_vars(ps, ps.len() as int).dom(),
        forall|n: Seq<char>| #[trigger]
            with_args(ps, vs, k, s).vals.dom().contains(n) ==> plain_value(with_args(ps, vs, k, s).vals[n]),
    decreases ps.len() - k,
{
    if k < ps.len() {
        lemma_params(ps, vs, k + 1, s.put(ps[k].name, vs[k]));
    }
}

proof fn lemma_call_covers(ps: Seq<ParamV>, vs: Seq<ValueV>)
    requires
        ps.len() == vs.len(),
        forall|i: int| 0 <= i < vs.len() ==> plain_value(#[trigger] vs[i]),
    ensures
        covers(param_vars(ps, ps.len() as int), seq![with_args(ps, vs, 0, no_scope())]),
{
    lemma_params(ps, vs, 0, no_scope());
    let scope = with_args(ps, vs, 0, no_scope());
    let env = seq![scope];
    let vars = param_vars(ps, ps.len() as int);
    assert forall|n: Seq<char>| #[trigger] vars.dom().contains(n) == (env_get(env, n) is Some) by {
        lemma_scope_of(env, n, 1);
        assert(scope.vals.dom().contains(n) == vars.dom().contains(n));
        assert(env[0] == scope);
    }
}

/// What operators give is the same.
proof fn lemma_infix(op: BinOp, a: ValueV, b: ValueV)
    requires
        plain_value(a),
        plain_value(b),
    ensures
        crate::interp::sense::joint(op, a, b) matches Some(v) ==> c_infix(op, a, b) == Some(v) && plain_value(v),
{
    if let (ValueV::Int(x), ValueV::Int(y)) = (a, b) {
        if op == BinOp::Mod && y != 0 && !(x == i64::MIN && y == -1) {
            lemma_quotient(x as int, y as int);
        }
    }
}

/// Only one quotient of numbers of 64 bits does not fit.
proof fn lemma_quotient(x: int, y: int)
    requires
        i64::MIN <= x <= i64::MAX,
        y != 0,
        !(x == i64::MIN && y == -1),
    ensures
        quotient(x, y) <= i64::MAX,
{
    let a = if x < 0 { -x } else { x };
    let b = if y < 0 { -y } else { y };
    vstd::arithmetic::div_mod::lemma_div_nonincreasing(a, b);
    vstd::arithmetic::div_mod::lemma_div_pos_is_pos(a, b);
    if a == -(i64::MIN as int) && y < 0 {
        assert(b >= 2);
        vstd::arithmetic::div_mod::lemma_div_decreases(a, b);
    }
}

/// An expression of C has the value that the expression has.
proof fn lemma_value(g: CodegenV, c: Code, lib: Lib, vars: Map<Seq<char>, CType>, env: Seq<ScopeV>, e: ExprV, fuel: nat)
    requires
        linked(g, c, lib),
        covers(vars, env),
        plain(e),
        sense(c, env, e, fuel) is Some,
    ensures
        c_value(lib, env, in_c(e), fuel) == sense(c, env, e, fuel),
        plain_value(sense(c, env, e, fuel)->0),
    decreases fuel, 0nat, e, 3nat, 0nat,
{
    match e {
        ExprV::Ident { name, .. } => {
            lemma_scope_of(env, name, env.len() as int);
        },
        ExprV::Unary { expr, .. } => lemma_value(g, c, lib, vars, env, *expr, fuel),
        ExprV::Binary { op, lhs, rhs, .. } => {
            lemma_value(g, c, lib, vars, env, *lhs, fuel);
            let a = sense(c, env, *lhs, fuel)->0;
            if !((op == BinOp::And && a == ValueV::Bool(false)) || (op == BinOp::Or && a == ValueV::Bool(true))) {
                lemma_value(g, c, lib, vars, env, *rhs, fuel);
                lemma_infix(op, a, sense(c, env, *rhs, fuel)->0);
            }
        },
        ExprV::Call { callee, args, .. } => {
            let vs = senses(c, env, args, 0, fuel)->0;
            lemma_args_len(args, args.len() as int);
            lemma_values(g, c, lib, vars, env, args, 0, fuel);
            assert(c.fns.dom().contains(callee));
            let f = c.fns[callee];
            let inner = Code { depth: c.depth + 1, ..c };
            lemma_scope(f.params, lib[callee].params, vs, 0, no_scope());
            lemma_call_covers(f.params, vs);
            lemma_all(
                g,
                inner,
                lib,
                param_vars(f.params, f.params.len() as int),
                seq![with_args(f.params, vs, 0, no_scope())],
                f.body,
                0,
                (fuel - 1) as nat,
            );
        },
        _ => {},
    }
}

proof fn lemma_values(
    g: CodegenV,
    c: Code,
    lib: Lib,
    vars: Map<Seq<char>, CType>,
    env: Seq<ScopeV>,
    x: Seq<ExprV>,
    k: int,
    fuel: nat,
)
    requires
        0 <= k <= x.len(),
        linked(g, c, lib),
        covers(vars, env),
        forall|i: int| 0 <= i < x.len() ==> plain(#[trigger] x[i]),
        senses(c, env, x, k, fuel) is Some,
    ensures
        c_values(lib, env, args_in_c(x, x.len() as int), k, fuel) == senses(c, env, x, k, fuel),
        forall|i: int|
            0 <= i < senses(c, env, x, k, fuel)->0.len() ==> plain_value(#[trigger] senses(c, env, x, k, fuel)->0[i]),
    decreases fuel, 0nat, x, 0nat, x.len() - k,
{
    lemma_args_len(x, x.len() as int);
    if k < x.len() {
        let y = args_in_c(x, x.len() as int);
        assert(y[k] == in_c(x[k]));
        lemma_value(g, c, lib, vars, env, x[k], fuel);
        lemma_values(g, c, lib, vars, env, x, k + 1, fuel);
    }
}

/// A variable that gets a value in C.
proof fn lemma_given(
    lib: Lib,
    vars: Map<Seq<char>, CType>,
    env: Seq<ScopeV>,
    n: Seq<char>,
    t: CType,
    e: CExpr,
    v: ValueV,
    fuel: nat,
)
    requires
        covers(vars, env),
        c_value(lib, env, e, fuel) == Some(v),
        plain_value(v),
    ensures
        c_done(lib, env, give_in_c(n, t, e, vars), fuel) == Some((env_set(env, n, v), Flow::Fell)),
        covers(with_var(vars, n, t), env_set(env, n, v)),
{
    lemma_scope_of(env, n, env.len() as int);
    assert(vars.dom().contains(n) == (env_get(env, n) is Some));
    let env2 = env_set(env, n, v);
    let vars2 = with_var(vars, n, t);
    assert forall|m: Seq<char>| #[trigger] vars2.dom().contains(m) == (env_get(env2, m) is Some) by {
        crate::interp::env::law_set_get(env, n, v, m);
        assert(vars.dom().contains(m) == (env_get(env, m) is Some));
    }
    assert forall|i: int, m: Seq<char>|
        0 <= i < env2.len() && #[trigger] env2[i].vals.dom().contains(m) implies plain_value(env2[i].vals[m]) by {
        if m != n {
            assert(env[i].vals.dom().contains(m));
        } else if env2[i] == env[i] {
            assert(env[i].vals.dom().contains(m));
        }
    }
}

/// A block of C does what the block does.
proof fn lemma_block(
    g: CodegenV,
    c: Code,
    lib: Lib,
    vars: Map<Seq<char>, CType>,
    env: Seq<ScopeV>,
    x: Seq<StmtV>,
    fuel: nat,
)
    requires
        linked(g, c, lib),
        covers(vars, env),
        plain_stmts(x),
        block_done(c, env, x, fuel) is Some,
    ensures
        c_block(lib, env, stmts_in_c(g, x, 0, vars), fuel) == block_done(c, env, x, fuel),
        covers(vars, (block_done(c, env, x, fuel)->0).0),
        (block_done(c, env, x, fuel)->0).1 matches Flow::Gave(v) ==> plain_value(v),
    decreases fuel, 1nat, x, 1nat, 0nat,
{
    let inner = env.push(no_scope());
    assert(covers(vars, inner)) by {
        assert forall|n: Seq<char>| #[trigger] vars.dom().contains(n) == (env_get(inner, n) is Some) by {
            lemma_scope_of(env, n, env.len() as int);
            lemma_scope_of(inner, n, inner.len() as int);
            if let Some(i) = scope_of(env, n, env.len() as int) {
                assert(inner[i] == env[i]);
            }
            if let Some(i) = scope_of(inner, n, inner.len() as int) {
                assert(i < env.len());
                assert(inner[i] == env[i]);
            }
        }
        assert forall|i: int, n: Seq<char>|
            0 <= i < inner.len() && #[trigger] inner[i].vals.dom().contains(n) implies plain_value(inner[i].vals[n]) by {
            assert(i < env.len());
            assert(env[i].vals.dom().contains(n));
        }
    }
    lemma_all(g, c, lib, vars, inner, x, 0, fuel);
    lemma_steady_all(c, inner, x, 0, fuel);
    lemma_steady_block(c, env, x, fuel);
    let r = all_done(c, inner, x, 0, fuel)->0;
    let out = r.0.drop_last();
    assert forall|n: Seq<char>| #[trigger] vars.dom().contains(n) == (env_get(out, n) is Some) by {
        lemma_doms(env, out, n);
    }
    assert forall|i: int, n: Seq<char>|
        0 <= i < out.len() && #[trigger] out[i].vals.dom().contains(n) implies plain_value(out[i].vals[n]) by {
        assert(r.0[i].vals.dom().contains(n));
    }
}

/// Statements of C from a place on do what the statements do.
proof fn lemma_all(
    g: CodegenV,
    c: Code,
    lib: Lib,
    vars: Map<Seq<char>, CType>,
    env: Seq<ScopeV>,
    x: Seq<StmtV>,
    k: int,
    fuel: nat,
)
    requires
        0 <= k <= x.len(),
        linked(g, c, lib),
        covers(vars, env),
        plain_stmts(x),
        all_done(c, env, x, k, fuel) is Some,
    ensures
        c_all(lib, env, stmts_in_c(g, x, k, vars), 0, fuel) == all_done(c, env, x, k, fuel),
        plain_scopes((all_done(c, env, x, k, fuel)->0).0),
        (all_done(c, env, x, k, fuel)->0).1 matches Flow::Gave(v) ==> plain_value(v),
    decreases fuel, 1nat, x, 0nat, x.len() - k,
{
    if k < x.len() {
        assert(plain_stmt(x[k]));
        let s = stmt_in_c(g, x[k], vars);
        let vars2 = vars_behind(g, x[k], vars);
        let rest = stmts_in_c(g, x, k + 1, vars2);
        let y = seq![s] + rest;
        assert(y[0] == s);
        law_c_does_the_same(g, c, lib, vars, env, x[k], fuel);
        if let Some((env2, Flow::Fell)) = done(c, env, x[k], fuel) {
            lemma_all(g, c, lib, vars2, env2, x, k + 1, fuel);
            lemma_shift(lib, env2, s, rest, 0, fuel);
        }
    }
}

/// What is written in C does what the statement does: given the variables that were written before
/// it, the statement of C leaves the same variables behind and ends in the same way, wherever the
/// statement runs to its end. Of an `if` one of the two blocks is executed, as the condition says.
#[verifier::rlimit(40)]
pub proof fn law_c_does_the_same(
    g: CodegenV,
    c: Code,
    lib: Lib,
    vars: Map<Seq<char>, CType>,
    env: Seq<ScopeV>,
    s: StmtV,
    fuel: nat,
)
    requires
        linked(g, c, lib),
        covers(vars, env),
        plain_stmt(s),
        done(c, env, s, fuel) is Some,
    ensures
        c_done(lib, env, stmt_in_c(g, s, vars), fuel) == done(c, env, s, fuel),
        plain_scopes((done(c, env, s, fuel)->0).0),
        (done(c, env, s, fuel)->0).1 is Fell ==> covers(vars_behind(g, s, vars), (done(c, env, s, fuel)->0).0),
        (done(c, env, s, fuel)->0).1 matches Flow::Gave(v) ==> plain_value(v),
    decreases fuel, 1nat, s, 3nat, 0nat,
{
    match s {
        StmtV::Assign { name, value, .. } => {
            lemma_value(g, c, lib, vars, env, value, fuel);
            lemma_given(
                lib,
                vars,
                env,
                name,
                c_type(g, value, vars),
                in_c(value),
                sense(c, env, value, fuel)->0,
                fuel,
            );
        },
        StmtV::VarDecl { name, ty, init, .. } => {
            let t = if ty == TyName::Int {
                CType::Int
            } else {
                CType::Bool
            };
            match init {
                Some(e) => {
                    lemma_value(g, c, lib, vars, env, e, fuel);
                    lemma_given(lib, vars, env, name, t, in_c(e), sense(c, env, e, fuel)->0, fuel);
                },
                None => {
                    let zero = if ty == TyName::Int {
                        CExpr::Number(0)
                    } else {
                        CExpr::Truth(false)
                    };
                    lemma_given(lib, vars, env, name, t, zero, crate::interp::sense::first_value(ty), fuel);
                },
            }
        },
        StmtV::Block { stmts, .. } => lemma_block(g, c, lib, vars, env, stmts, fuel),
        StmtV::If { cond, then_branch, else_branch, .. } => {
            lemma_value(g, c, lib, vars, env, cond, fuel);
            if sense(c, env, cond, fuel)->0 == ValueV::Bool(true) {
                lemma_block(g, c, lib, vars, env, then_branch, fuel);
            } else if let Some(x) = else_branch {
                lemma_block(g, c, lib, vars, env, x, fuel);
            }
        },
        StmtV::While { cond, body, .. } => {
            lemma_value(g, c, lib, vars, env, cond, fuel);
            if sense(c, env, cond, fuel)->0 == ValueV::Bool(true) {
                lemma_block(g, c, lib, vars, env, body, fuel);
                if let Some((env2, Flow::Fell)) = block_done(c, env, body, fuel) {
                    law_c_does_the_same(g, c, lib, vars, env2, s, (fuel - 1) as nat);
                }
            }
        },
        StmtV::Return { value, .. } => {
            if let Some(e) = value {
                lemma_value(g, c, lib, vars, env, e, fuel);
            }
        },
        StmtV::ExprStmt { expr, .. } => lemma_value(g, c, lib, vars, env, expr, fuel),
        _ => {},
    }
}

/// What is written for a statement is C: the text of the statement of C that does the same. It
/// stands behind what was written before.
pub proof fn law_text_is_c(g: CodegenV, s: StmtV, st: GenV, ret: CType)
    requires
        plain_stmt(s),
        plain_vars(st.vars),
        plain_fns(g),
        plain_type(ret),
        stmt_code(g, s, st, ret) is Ok,
    ensures
        stmt_code(g, s, st, ret)->Ok_0.out == st.out + stmt_text(stmt_in_c(g, s, st.vars)),
{
    lemma_stmt_text(g, s, st, ret);
}

/// The text of parameters in C, with commas between them.
pub open spec fn params_text(ps: Seq<ParamV>, n: int) -> Seq<char>
    decreases n,
{
    if n <= 0 || n > ps.len() {
        Seq::empty()
    } else if n == 1 {
        type_text(param_type(ps[0])) + " "@ + ps[0].name
    } else {
        params_text(ps, n - 1) + ", "@ + (type_text(param_type(ps[n - 1])) + " "@ + ps[n - 1].name)
    }
}

proof fn lemma_params_text(ps: Seq<ParamV>, n: int)
    requires
        0 <= n <= ps.len(),
    ensures
        joined_by(super::param_texts(ps, param_types(ps)), ", "@, n) == params_text(ps, n),
    decreases n,
{
    let ts = super::param_texts(ps, param_types(ps));
    if n > 0 {
        lemma_params_text(ps, n - 1);
        assert(ts[n - 1] == type_text(param_type(ps[n - 1])) + " "@ + ps[n - 1].name);
        assert(ts[0] == type_text(param_type(ps[0])) + " "@ + ps[0].name);
    }
}

/// What is written for a function is a function of C with its name, its parameters and the
/// statements of C that do what its body does; where the body never returns, it ends with one.
pub proof fn law_function_is_c(g: CodegenV, name: Seq<char>, exported: bool)
    requires
        g.fns.dom().contains(name),
        plain_fns(g),
        plain_stmts(g.fns[name].body),
        super::impl_code(g, name, exported) is Ok,
    ensures
        ({
            let f = g.fns[name];
            let ps = f.params;
            let y = stmts_in_c(g, f.body, 0, param_vars(ps, ps.len() as int));
            let head = super::linkage(g.windows, exported) + (type_text(ret_of(g, name)) + " "@ + name + "("@
                + params_text(ps, ps.len() as int) + ")"@) + " {
"@;
            let last = if super::returns_in(f.body, f.body.len() as int) {
                Seq::empty()
            } else if ret_of(g, name) == CType::Bool {
                "    return false;
"@
            } else {
                "    return 0;
"@
            };
            super::impl_code(g, name, exported)->Ok_0 == head + stmts_text(y, y.len() as int) + last + "}
"@
        }),
{
    let f = g.fns[name];
    let ps = f.params;
    let s = signature(g, name, f, Seq::empty(), g.count)->Ok_0;
    lemma_params_text(ps, ps.len() as int);
    lemma_param_vars(ps, ps.len() as int);
    let ts = super::param_texts(ps, s.params);
    assert(ts.len() == ps.len());
    let head = super::linkage(g.windows, exported) + super::head_code(s.ret, name, ts) + " {
"@;
    reveal_strlit("");
    assert(head + ""@ =~= head);
    let st = GenV { vars: param_vars(ps, ps.len() as int), temps: 0, out: head };
    assert(""@ =~= Seq::<char>::empty());
    lemma_stmts_text(g, f.body, 0, st, s.ret);
}

proof fn lemma_param_vars(ps: Seq<ParamV>, n: int)
    requires
        0 <= n <= ps.len(),
        forall|i: int| 0 <= i < ps.len() ==> plain_type(param_type(#[trigger] ps[i])),
    ensures
        plain_vars(param_vars(ps, n)),
    decreases n,
{
    if n > 0 {
        lemma_param_vars(ps, n - 1);
        assert(plain_type(param_type(ps[n - 1])));
    }
}

/// The C types of the types of a script.
pub proof fn law_c_types()
    ensures
        CType::of(TyName::Int).text() == "int64_t"@,
        CType::of(TyName::Float).text() == "double"@,
        CType::of(TyName::Bool).text() == "bool"@,
        CType::of(TyName::Str).text() == "const char*"@,
{
}

} // verus!
