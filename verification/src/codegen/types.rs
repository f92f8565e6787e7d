//! The C types of functions, variables and expressions.

use vstd::prelude::*;

use crate::ast::{params_v, stmt_v, stmts_v, BinOp, ExprV, Param, ParamV, Stmt, StmtV, TyName, UnOp};
use crate::error::{codes, err_at, ErrV, ZError};
use crate::lexer::Span;
use crate::table::Table;

verus! {

/// A type of C.
#[derive(Debug, Clone, Copy, PartialEq, Eq, Structural)]
pub enum CType {
    Int,
    Double,
    Bool,
    Str,
    Void,
}

impl CType {
    /// The name of the type.
    pub open spec fn text(self) -> Seq<char> {
        match self {
            CType::Int => "int64_t"@,
            CType::Double => "double"@,
            CType::Bool => "bool"@,
            CType::Str => "const char*"@,
            CType::Void => "void"@,
        }
    }

    /// The name of the type.
    pub fn c_name(self) -> (r: &'static str)
        ensures
            r@ == self.text(),
    {
        match self {
            CType::Int => "int64_t",
            CType::Double => "double",
            CType::Bool => "bool",
            CType::Str => "const char*",
            CType::Void => "void",
        }
    }

    /// The type that an annotation names.
    pub open spec fn of(t: TyName) -> CType {
        match t {
            TyName::Int => CType::Int,
            TyName::Float => CType::Double,
            TyName::Bool => CType::Bool,
            TyName::Str => CType::Str,
        }
    }

    /// The type that an annotation names.
    pub fn from_annot(t: TyName) -> (r: CType)
        ensures
            r == CType::of(t),
    {
        match t {
            TyName::Int => CType::Int,
            TyName::Float => CType::Double,
            TyName::Bool => CType::Bool,
            TyName::Str => CType::Str,
        }
    }

    /// Whether the type is one of numbers.
    pub open spec fn num(self) -> bool {
        self == CType::Int || self == CType::Double
    }

    /// Whether the type is one of numbers.
    pub fn is_num(self) -> (r: bool)
        ensures
            r == self.num(),
    {
        match self {
            CType::Int | CType::Double => true,
            _ => false,
        }
    }
}

/// A function that can be translated.
#[derive(Clone, Copy)]
pub struct CFn<'a> {
    pub params: &'a Vec<Param>,
    pub ret: Option<TyName>,
    pub body: &'a Vec<Stmt>,
}

/// A function, mathematically.
pub struct CFnV {
    pub params: Seq<ParamV>,
    pub ret: Option<TyName>,
    pub body: Seq<StmtV>,
}

/// The mathematical form of a function.
pub open spec fn cfn_v(f: CFn) -> CFnV {
    CFnV { params: params_v(f.params@), ret: f.ret, body: stmts_v(f.body@) }
}

/// The mathematical form of functions by name.
pub open spec fn cfns_v(m: Map<Seq<char>, CFn>) -> Map<Seq<char>, CFnV> {
    m.map_values(|f: CFn| cfn_v(f))
}

/// A program to translate: its functions, the texts of its floating-point literals, and
/// whether it is for Windows.
pub struct Codegen<'a> {
    pub file: &'a str,
    pub src: &'a str,
    pub fns: Table<CFn<'a>>,
    pub floats: Table<String>,
    pub windows: bool,
}

/// A program to translate, mathematically.
pub struct CodegenV {
    pub file: Seq<char>,
    pub src: Seq<char>,
    pub fns: Map<Seq<char>, CFnV>,
    pub count: nat,
    pub floats: Map<Seq<char>, Seq<char>>,
    pub windows: bool,
}

impl<'a> View for Codegen<'a> {
    type V = CodegenV;

    open spec fn view(&self) -> CodegenV {
        CodegenV {
            file: self.file@,
            src: self.src@,
            fns: cfns_v(self.fns@),
            count: self.fns.order().len(),
            floats: self.floats@.map_values(|s: String| s@),
            windows: self.windows,
        }
    }
}

impl<'a> Codegen<'a> {
    /// Whether the tables are sound.
    pub open spec fn wf(self) -> bool {
        self.fns.wf() && self.floats.wf()
    }
}

/// An error at a place of the program.
pub open spec fn c_err(g: CodegenV, code: Seq<char>, msg: Seq<char>, span: Span, help: Seq<char>) -> ErrV {
    err_at(
        code,
        msg,
        g.file,
        g.src,
        span.line as nat,
        span.col as nat,
        if span.len == 0 {
            1
        } else {
            span.len as nat
        },
        Some(help),
    )
}

/// The place of what belongs to no line.
pub open spec fn top() -> Span {
    Span { line: 1, col: 1, len: 1 }
}

impl<'a> Codegen<'a> {
    /// An error at a place of the program.
    pub fn zerr(&self, code: &'static str, msg: &str, span: Span, help: &str) -> (r: ZError)
        ensures
            r@ == c_err(self@, code@, msg@, span, help@),
    {
        let len: usize = if span.len == 0 { 1 } else { span.len };
        ZError::new(code, msg, self.file, self.src, span.line, span.col, len, Some(help))
    }
}

/// The types of a function: of its parameters and of its result.
pub struct Sig {
    pub params: Vec<CType>,
    pub ret: CType,
}

/// The types of a function, mathematically.
pub struct SigV {
    pub params: Seq<CType>,
    pub ret: CType,
}

/// The mathematical form of the types of a function.
pub open spec fn sig_v(s: Sig) -> SigV {
    SigV { params: s.params@, ret: s.ret }
}

/// The type of a parameter: the annotated one, or an integer.
pub open spec fn param_type(p: ParamV) -> CType {
    match p.ty {
        Some(t) => CType::of(t),
        None => CType::Int,
    }
}

/// The types of parameters.
pub open spec fn param_types(ps: Seq<ParamV>) -> Seq<CType> {
    ps.map_values(|p: ParamV| param_type(p))
}

/// The variables with the first `n` parameters.
pub open spec fn param_vars(ps: Seq<ParamV>, n: int) -> Map<Seq<char>, CType>
    decreases n,
{
    if n <= 0 || n > ps.len() {
        Map::empty()
    } else {
        param_vars(ps, n - 1).insert(ps[n - 1].name, param_type(ps[n - 1]))
    }
}

/// The error of a function whose types depend on themselves.
pub open spec fn circular(g: CodegenV, name: Seq<char>) -> ErrV {
    c_err(
        g,
        codes::CANNOT_INFER@,
        "cannot infer the return type of `"@ + name + "` (recursive); add a `-> type` annotation"@,
        top(),
        "annotate the function, e.g. `fn f() -> int { ... }`"@,
    )
}

/// The error of a call of what cannot be translated.
pub open spec fn no_call(g: CodegenV, name: Seq<char>, span: Span) -> ErrV {
    c_err(
        g,
        codes::NOT_IMPLEMENTED@,
        "cannot translate call to `"@ + name + "` (builtins are not supported in --dll yet)"@,
        span,
        "use only user-defined functions in exported code"@,
    )
}

/// How many more functions can be in work at once.
pub open spec fn room(g: CodegenV, stack: Seq<Seq<char>>) -> int {
    if stack.len() <= g.count {
        g.count - stack.len()
    } else {
        0
    }
}

/// The types of a function. `stack` holds the functions whose result is being inferred, and
/// `left` is how many functions may still be entered for the variables of one another: more
/// than all there are never need be.
pub open spec fn signature(g: CodegenV, name: Seq<char>, f: CFnV, stack: Seq<Seq<char>>, left: nat) -> Result<
    SigV,
    ErrV,
>
    decreases room(g, stack), left, 0int, f, 0int,
{
    if left == 0 {
        Err(circular(g, name))
    } else {
        let ps = f.params;
        match body_types(g, f.body, f.body.len() as int, param_vars(ps, ps.len() as int), stack, (left - 1) as nat) {
            Err(e) => Err(e),
            Ok(vars) => match f.ret {
                Some(t) => Ok(SigV { params: param_types(ps), ret: CType::of(t) }),
                None => if stack.contains(name) || stack.len() >= g.count {
                    Err(circular(g, name))
                } else {
                    match return_type(g, f.body, 0, None, vars, stack.push(name), g.count) {
                        Err(e) => Err(e),
                        Ok(t) => Ok(
                            SigV {
                                params: param_types(ps),
                                ret: match t {
                                    Some(t) => t,
                                    None => CType::Void,
                                },
                            },
                        ),
                    }
                },
            },
        }
    }
}

/// The error of a variable whose declared type is not that of its first value.
pub open spec fn bad_init(g: CodegenV, name: Seq<char>, annot: CType, t: CType, span: Span) -> ErrV {
    c_err(
        g,
        codes::TYPE_MISMATCH@,
        "type mismatch: variable `"@ + name + "` is declared `"@ + annot.text() + "` but initialized with `"@
            + t.text() + "`"@,
        span,
        "Hone has no implicit type conversion"@,
    )
}

/// The variables with those of a statement.
pub open spec fn stmt_types(
    g: CodegenV,
    s: StmtV,
    vars: Map<Seq<char>, CType>,
    stack: Seq<Seq<char>>,
    left: nat,
) -> Result<Map<Seq<char>, CType>, ErrV>
    decreases room(g, stack), left, 2int, s, 0int,
{
    match s {
        StmtV::Assign { name, value, .. } => if vars.dom().contains(name) {
            Ok(vars)
        } else {
            match expr_type(g, value, vars, stack, left) {
                Err(e) => Err(e),
                Ok(t) => Ok(vars.insert(name, t)),
            }
        },
        StmtV::VarDecl { name, ty, init, .. } => match init {
            None => Ok(vars.insert(name, CType::of(ty))),
            Some(e) => match expr_type(g, e, vars, stack, left) {
                Err(x) => Err(x),
                Ok(t) => if t != CType::of(ty) {
                    Err(bad_init(g, name, CType::of(ty), t, e.span()))
                } else {
                    Ok(vars.insert(name, CType::of(ty)))
                },
            },
        },
        StmtV::Block { stmts, .. } => body_types(g, stmts, stmts.len() as int, vars, stack, left),
        StmtV::If { then_branch, else_branch, .. } => match body_types(
            g,
            then_branch,
            then_branch.len() as int,
            vars,
            stack,
            left,
        ) {
            Err(e) => Err(e),
            Ok(v) => match else_branch {
                None => Ok(v),
                Some(b) => body_types(g, b, b.len() as int, v, stack, left),
            },
        },
        StmtV::While { body, .. } => body_types(g, body, body.len() as int, vars, stack, left),
        _ => Ok(vars),
    }
}

/// The variables with those of the first `n` statements.
pub open spec fn body_types(
    g: CodegenV,
    ss: Seq<StmtV>,
    n: int,
    vars: Map<Seq<char>, CType>,
    stack: Seq<Seq<char>>,
    left: nat,
) -> Result<Map<Seq<char>, CType>, ErrV>
    decreases room(g, stack), left, 2int, ss, n,
{
    if n <= 0 || n > ss.len() {
        Ok(vars)
    } else {
        match body_types(g, ss, n - 1, vars, stack, left) {
            Err(e) => Err(e),
            Ok(v) => stmt_types(g, ss[n - 1], v, stack, left),
        }
    }
}

/// The error of two statements that return different types.
pub open spec fn two_types(g: CodegenV, a: CType, b: CType, span: Span, help: Seq<char>) -> ErrV {
    c_err(
        g,
        codes::TYPE_MISMATCH@,
        "inconsistent return types: `"@ + a.text() + "` vs `"@ + b.text() + "`"@,
        span,
        help,
    )
}

/// The type that a statement returns, if it returns anything.
pub open spec fn stmt_return(
    g: CodegenV,
    s: StmtV,
    vars: Map<Seq<char>, CType>,
    stack: Seq<Seq<char>>,
    left: nat,
) -> Result<Option<CType>, ErrV>
    decreases room(g, stack), left, 2int, s, 0int,
{
    match s {
        StmtV::Return { value, .. } => match value {
            None => Ok(Some(CType::Void)),
            Some(e) => match expr_type(g, e, vars, stack, left) {
                Err(x) => Err(x),
                Ok(t) => Ok(Some(t)),
            },
        },
        StmtV::Block { stmts, .. } => return_type(g, stmts, 0, None, vars, stack, left),
        StmtV::If { then_branch, else_branch, span, .. } => match return_type(
            g,
            then_branch,
            0,
            None,
            vars,
            stack,
            left,
        ) {
            Err(e) => Err(e),
            Ok(a) => match else_branch {
                None => Ok(a),
                Some(b) => match return_type(g, b, 0, None, vars, stack, left) {
                    Err(e) => Err(e),
                    Ok(b) => match (a, b) {
                        (Some(x), Some(y)) => if x != y {
                            Err(two_types(g, x, y, span, "make all branches return the same type"@))
                        } else {
                            Ok(Some(x))
                        },
                        (Some(x), None) => Ok(Some(x)),
                        (None, b) => Ok(b),
                    },
                },
            },
        },
        StmtV::While { body, .. } => return_type(g, body, 0, None, vars, stack, left),
        _ => Ok(None),
    }
}

/// The type that statements from the `i`-th on return, if they return anything, where those
/// before return `ret`.
pub open spec fn return_type(
    g: CodegenV,
    ss: Seq<StmtV>,
    i: int,
    ret: Option<CType>,
    vars: Map<Seq<char>, CType>,
    stack: Seq<Seq<char>>,
    left: nat,
) -> Result<Option<CType>, ErrV>
    decreases room(g, stack), left, 2int, ss, ss.len() - i,
{
    if i < 0 || i >= ss.len() {
        Ok(ret)
    } else {
        match stmt_return(g, ss[i], vars, stack, left) {
            Err(e) => Err(e),
            Ok(None) => return_type(g, ss, i + 1, ret, vars, stack, left),
            Ok(Some(t)) => match ret {
                None => return_type(g, ss, i + 1, Some(t), vars, stack, left),
                Some(p) => if p != t {
                    Err(two_types(g, p, t, stmt_place(ss[i]), "make all return statements return the same type"@))
                } else {
                    return_type(g, ss, i + 1, ret, vars, stack, left)
                },
            },
        }
    }
}

/// The place of a statement.
pub open spec fn stmt_place(s: StmtV) -> Span {
    match s {
        StmtV::Assign { span, .. } => span,
        StmtV::VarDecl { span, .. } => span,
        StmtV::Block { span, .. } => span,
        StmtV::If { span, .. } => span,
        StmtV::While { span, .. } => span,
        StmtV::ForIn { span, .. } => span,
        StmtV::Return { span, .. } => span,
        StmtV::FnDef { span, .. } => span,
        StmtV::ExprStmt { span, .. } => span,
        StmtV::Breakpoint { span } => span,
        StmtV::Export { span, .. } => span,
        StmtV::Import { span, .. } => span,
        StmtV::Load { span, .. } => span,
        StmtV::Use { span, .. } => span,
        StmtV::Alias { span, .. } => span,
        StmtV::Go { span, .. } => span,
        StmtV::Try { span, .. } => span,
        StmtV::Throw { span, .. } => span,
        StmtV::StructDef { span, .. } => span,
        StmtV::DebugPrint { span, .. } => span,
    }
}

/// The place of a statement.
pub fn stmt_span(s: &Stmt) -> (r: Span)
    ensures
        r == stmt_place(stmt_v(*s)),
{
    match s {
        Stmt::Assign { span, .. } => *span,
        Stmt::VarDecl { span, .. } => *span,
        Stmt::Block { span, .. } => *span,
        Stmt::If { span, .. } => *span,
        Stmt::While { span, .. } => *span,
        Stmt::ForIn { span, .. } => *span,
        Stmt::Return { span, .. } => *span,
        Stmt::FnDef { span, .. } => *span,
        Stmt::ExprStmt { span, .. } => *span,
        Stmt::Breakpoint { span } => *span,
        Stmt::Export { span, .. } => *span,
        Stmt::Import { span, .. } => *span,
        Stmt::Load { span, .. } => *span,
        Stmt::Use { span, .. } => *span,
        Stmt::Alias { span, .. } => *span,
        Stmt::Go { span, .. } => *span,
        Stmt::Try { span, .. } => *span,
        Stmt::Throw { span, .. } => *span,
        Stmt::StructDef { span, .. } => *span,
        Stmt::DebugPrint { span, .. } => *span,
    }
}

/// The error of an expression that works in interpreted programs only.
pub open spec fn not_in_c(g: CodegenV, e: ExprV) -> ErrV {
    match e {
        ExprV::Field { span, .. } => c_err(
            g,
            codes::NOT_IMPLEMENTED@,
            "field access is not supported in DLL builds"@,
            span,
            "field access (`e.code` etc.) works in interpreted mode only"@,
        ),
        ExprV::Match { span, .. } => c_err(
            g,
            codes::NOT_IMPLEMENTED@,
            "match expressions are not supported in DLL builds"@,
            span,
            "match works in interpreted mode only"@,
        ),
        e => c_err(
            g,
            codes::NOT_IMPLEMENTED@,
            "list/dict literals and f-strings are not supported in DLL builds"@,
            e.span(),
            "these features work in interpreted mode only"@,
        ),
    }
}

/// The error of a variable that does not exist.
pub open spec fn no_var(g: CodegenV, name: Seq<char>, span: Span) -> ErrV {
    c_err(
        g,
        codes::UNDEFINED@,
        "undefined variable `"@ + name + "`"@,
        span,
        "declare the variable before reading it"@,
    )
}

/// The type of a prefix operator's result.
pub open spec fn prefix_type(g: CodegenV, op: UnOp, t: CType, span: Span) -> Result<CType, ErrV> {
    match op {
        UnOp::Neg => if t.num() {
            Ok(t)
        } else {
            Err(
                c_err(
                    g,
                    codes::TYPE_MISMATCH@,
                    "unary `-` requires a number, got `"@ + t.text() + "`"@,
                    span,
                    "negation works on `int` / `float`"@,
                ),
            )
        },
        UnOp::Not => if t == CType::Bool {
            Ok(CType::Bool)
        } else {
            Err(
                c_err(
                    g,
                    codes::TYPE_MISMATCH@,
                    "`!` requires a `bool`, got `"@ + t.text() + "`"@,
                    span,
                    "logical NOT works on `bool` values"@,
                ),
            )
        },
    }
}

/// The error of operands of different types.
pub open spec fn mixed(g: CodegenV, op: BinOp, l: CType, r: CType, span: Span) -> ErrV {
    c_err(
        g,
        codes::TYPE_MISMATCH@,
        "cannot apply `"@ + op.text() + "` to `"@ + l.text() + "` and `"@ + r.text() + "` (no implicit conversion)"@,
        span,
        "Hone has no implicit type conversion"@,
    )
}

/// The error of operands that an operator does not take.
pub open spec fn no_operands(g: CodegenV, op: Seq<char>, l: CType, r: CType, span: Span, help: Seq<char>) -> ErrV {
    c_err(
        g,
        codes::TYPE_MISMATCH@,
        "cannot apply `"@ + op + "` to `"@ + l.text() + "` and `"@ + r.text() + "`"@,
        span,
        help,
    )
}

/// The error of an operator that wants other operands.
pub open spec fn wants(g: CodegenV, op: BinOp, what: Seq<char>, l: CType, r: CType, span: Span, help: Seq<char>) -> ErrV {
    c_err(
        g,
        codes::TYPE_MISMATCH@,
        "`"@ + op.text() + what + l.text() + "` and `"@ + r.text() + "`"@,
        span,
        help,
    )
}

/// The type of an infix operator's result.
pub open spec fn binary_type(g: CodegenV, op: BinOp, l: CType, r: CType, span: Span) -> Result<CType, ErrV> {
    match op {
        BinOp::Add => if l == r && (l.num() || l == CType::Str) {
            Ok(l)
        } else if l.num() && r.num() {
            Err(mixed(g, op, l, r, span))
        } else {
            Err(no_operands(g, "+"@, l, r, span, "`+` works on numbers and concatenates strings"@))
        },
        BinOp::Sub | BinOp::Mul | BinOp::Div | BinOp::Mod => if l == r && l.num() {
            Ok(l)
        } else if l.num() && r.num() {
            Err(mixed(g, op, l, r, span))
        } else {
            Err(no_operands(g, op.text(), l, r, span, "arithmetic works on `int` / `float`"@))
        },
        BinOp::Eq | BinOp::Ne => if l == r && l != CType::Void {
            Ok(CType::Bool)
        } else {
            Err(mixed(g, op, l, r, span))
        },
        BinOp::Lt | BinOp::Le | BinOp::Gt | BinOp::Ge => if l == r && l.num() {
            Ok(CType::Bool)
        } else if l.num() && r.num() {
            Err(mixed(g, op, l, r, span))
        } else {
            Err(
                wants(
                    g,
                    op,
                    "` requires numeric operands, got `"@,
                    l,
                    r,
                    span,
                    "comparison operators work on `int` / `float`"@,
                ),
            )
        },
        BinOp::And | BinOp::Or => if l == CType::Bool && r == CType::Bool {
            Ok(CType::Bool)
        } else {
            Err(
                wants(
                    g,
                    op,
                    "` requires `bool` operands, got `"@,
                    l,
                    r,
                    span,
                    "logical operators work on `bool` values"@,
                ),
            )
        },
    }
}

/// The type of an expression.
pub open spec fn expr_type(
    g: CodegenV,
    e: ExprV,
    vars: Map<Seq<char>, CType>,
    stack: Seq<Seq<char>>,
    left: nat,
) -> Result<CType, ErrV>
    decreases room(g, stack), left, 1int, e, 0int,
{
    match e {
        ExprV::IntLit(..) => Ok(CType::Int),
        ExprV::FloatLit(..) => Ok(CType::Double),
        ExprV::BoolLit(..) => Ok(CType::Bool),
        ExprV::StrLit(..) => Ok(CType::Str),
        ExprV::Ident { name, span } => if vars.dom().contains(name) {
            Ok(vars[name])
        } else {
            Err(no_var(g, name, span))
        },
        ExprV::Unary { op, expr, span } => match expr_type(g, *expr, vars, stack, left) {
            Err(x) => Err(x),
            Ok(t) => prefix_type(g, op, t, span),
        },
        ExprV::Binary { op, lhs, rhs, span } => match expr_type(g, *lhs, vars, stack, left) {
            Err(x) => Err(x),
            Ok(l) => match expr_type(g, *rhs, vars, stack, left) {
                Err(x) => Err(x),
                Ok(r) => binary_type(g, op, l, r, span),
            },
        },
        ExprV::Call { callee, span, .. } => if g.fns.dom().contains(callee) {
            match signature(g, callee, g.fns[callee], stack, left) {
                Err(x) => Err(x),
                Ok(s) => Ok(s.ret),
            }
        } else {
            Err(no_call(g, callee, span))
        },
        e => Err(not_in_c(g, e)),
    }
}

} // verus!
