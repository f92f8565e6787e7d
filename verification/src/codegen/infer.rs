//! Inferring the C types of functions, variables and expressions.

use vstd::prelude::*;

use super::types::{
    binary_type, body_types, cfn_v, circular, expr_type, mixed, no_call, no_operands, no_var,
    not_in_c, param_type, param_types, param_vars, prefix_type, return_type, room, sig_v, signature,
    stmt_return, stmt_span, stmt_types, two_types, wants, CFn, CType, Codegen, CodegenV, Sig, SigV,
};
use crate::ast::{
    expr_span, expr_v, params_v, stmt_v, stmts_v, BinOp, Expr, Param, Stmt, StmtV, UnOp,
};
use crate::error::{codes, ErrV, ZError};
use crate::lexer::Span;
use crate::table::Table;
use crate::text::{cat3, cat5, cat7, eq, strs};

verus! {

/// What an inference comes to, mathematically.
pub open spec fn sig_r(r: Result<Sig, ZError>) -> Result<SigV, ErrV> {
    match r {
        Ok(s) => Ok(sig_v(s)),
        Err(e) => Err(e@),
    }
}

/// What the inference of a type comes to, mathematically.
pub open spec fn type_r(r: Result<CType, ZError>) -> Result<CType, ErrV> {
    match r {
        Ok(t) => Ok(t),
        Err(e) => Err(e@),
    }
}

/// What the inference of a returned type comes to, mathematically.
pub open spec fn ret_r(r: Result<Option<CType>, ZError>) -> Result<Option<CType>, ErrV> {
    match r {
        Ok(t) => Ok(t),
        Err(e) => Err(e@),
    }
}

/// What the inference of variables comes to, mathematically.
pub open spec fn vars_r(r: Result<(), ZError>, vars: Map<Seq<char>, CType>) -> Result<Map<Seq<char>, CType>, ErrV> {
    match r {
        Ok(()) => Ok(vars),
        Err(e) => Err(e@),
    }
}

/// An error among the first statements is that of all.
proof fn lemma_body_err(
    g: CodegenV,
    ss: Seq<StmtV>,
    i: int,
    n: int,
    vars: Map<Seq<char>, CType>,
    stack: Seq<Seq<char>>,
    left: nat,
)
    requires
        0 <= i <= n <= ss.len(),
        body_types(g, ss, i, vars, stack, left) is Err,
    ensures
        body_types(g, ss, n, vars, stack, left) == body_types(g, ss, i, vars, stack, left),
    decreases n - i,
{
    if i < n {
        lemma_body_err(g, ss, i, n - 1, vars, stack, left);
    }
}

/// Whether a name is among those in work.
pub(crate) fn is_in(v: &Vec<String>, k: &str) -> (r: bool)
    ensures
        r == strs(v@).contains(k@),
{
    let mut i: usize = 0;
    while i < v.len()
        invariant
            i <= v.len(),
            forall|j: int| 0 <= j < i ==> (#[trigger] v@[j])@ != k@,
        decreases v.len() - i,
    {
        if eq(v[i].as_str(), k) {
            assert(strs(v@)[i as int] == k@);
            return true;
        }
        i = i + 1;
    }
    assert forall|j: int| 0 <= j < strs(v@).len() implies strs(v@)[j] != k@ by {
        assert(strs(v@)[j] == v@[j]@);
    }
    false
}

/// The names in work with one more.
fn with_name(v: &Vec<String>, k: &str) -> (r: Vec<String>)
    ensures
        strs(r@) == strs(v@).push(k@),
{
    let mut out: Vec<String> = Vec::new();
    let mut i: usize = 0;
    while i < v.len()
        invariant
            i <= v.len(),
            out.len() == i,
            forall|j: int| 0 <= j < i ==> (#[trigger] out@[j])@ == v@[j]@,
        decreases v.len() - i,
    {
        out.push(v[i].clone());
        i = i + 1;
    }
    out.push(k.to_owned());
    assert(strs(out@) =~= strs(v@).push(k@));
    out
}

/// The type of a parameter.
fn type_of_param(p: &Param) -> (r: CType)
    ensures
        r == param_type(p@),
{
    match p.ty {
        Some(t) => CType::from_annot(t),
        None => CType::Int,
    }
}

/// The parameters of a function as its first variables.
pub fn first_vars(ps: &Vec<Param>) -> (r: Table<CType>)
    ensures
        r.wf(),
        r@ == param_vars(params_v(ps@), ps.len() as int),
{
    let mut vars: Table<CType> = Table::new();
    let mut i: usize = 0;
    while i < ps.len()
        invariant
            i <= ps.len(),
            vars.wf(),
            vars@ == param_vars(params_v(ps@), i as int),
        decreases ps.len() - i,
    {
        assert(params_v(ps@)[i as int] == ps@[i as int]@);
        let t = type_of_param(&ps[i]);
        vars.insert(ps[i].name.as_str(), t);
        i = i + 1;
    }
    vars
}

/// The types of the parameters of a function.
pub fn types_of(ps: &Vec<Param>) -> (r: Vec<CType>)
    ensures
        r@ == param_types(params_v(ps@)),
{
    let mut out: Vec<CType> = Vec::new();
    let mut i: usize = 0;
    while i < ps.len()
        invariant
            i <= ps.len(),
            out@ =~= param_types(params_v(ps@)).take(i as int),
        decreases ps.len() - i,
    {
        assert(params_v(ps@)[i as int] == ps@[i as int]@);
        let t = type_of_param(&ps[i]);
        out.push(t);
        i = i + 1;
    }
    assert(out@ =~= param_types(params_v(ps@)));
    out
}

impl<'a> Codegen<'a> {
    /// The types of a function.
    pub fn infer_signature(&self, name: &str, f: CFn<'a>, stack: &Vec<String>, left: usize) -> (r: Result<Sig, ZError>)
        requires
            self.wf(),
        ensures
            sig_r(r) == signature(self@, name@, cfn_v(f), strs(stack@), left as nat),
        decreases room(self@, strs(stack@)), left, 0int, f, 0int,
    {
        if left == 0 {
            return Err(self.circular_err(name));
        }
        let params = types_of(f.params);
        let mut vars = first_vars(f.params);
        match self.infer_body_types(f.body, &mut vars, stack, left - 1) {
            Err(e) => {
                return Err(e);
            },
            Ok(()) => {},
        }
        if let Some(t) = f.ret {
            return Ok(Sig { params, ret: CType::from_annot(t) });
        }
        if is_in(stack, name) || stack.len() >= self.fns.len() {
            return Err(self.circular_err(name));
        }
        let deeper = with_name(stack, name);
        match self.return_type_stmt(f.body, &vars, &deeper, self.fns.len()) {
            Err(e) => Err(e),
            Ok(t) => {
                let ret = match t {
                    Some(t) => t,
                    None => CType::Void,
                };
                Ok(Sig { params, ret })
            },
        }
    }

    fn circular_err(&self, name: &str) -> (r: ZError)
        ensures
            r@ == circular(self@, name@),
    {
        let msg = cat3(
            "cannot infer the return type of `",
            name,
            "` (recursive); add a `-> type` annotation",
        );
        self.zerr(
            codes::CANNOT_INFER,
            msg.as_str(),
            Span { line: 1, col: 1, len: 1 },
            "annotate the function, e.g. `fn f() -> int { ... }`",
        )
    }

    /// The error of a call of what cannot be translated.
    pub fn call_err(&self, name: &str, span: Span) -> (r: ZError)
        ensures
            r@ == no_call(self@, name@, span),
    {
        let msg = cat3("cannot translate call to `", name, "` (builtins are not supported in --dll yet)");
        self.zerr(
            codes::NOT_IMPLEMENTED,
            msg.as_str(),
            span,
            "use only user-defined functions in exported code",
        )
    }

    /// The error of a variable that does not exist.
    pub fn var_err(&self, name: &str, span: Span) -> (r: ZError)
        ensures
            r@ == no_var(self@, name@, span),
    {
        let msg = cat3("undefined variable `", name, "`");
        self.zerr(codes::UNDEFINED, msg.as_str(), span, "declare the variable before reading it")
    }

    /// The error of a variable whose declared type is not that of its first value.
    pub fn init_err(&self, name: &str, annot: CType, t: CType, span: Span) -> (r: ZError)
        ensures
            r@ == super::types::bad_init(self@, name@, annot, t, span),
    {
        let msg = cat7(
            "type mismatch: variable `",
            name,
            "` is declared `",
            annot.c_name(),
            "` but initialized with `",
            t.c_name(),
            "`",
        );
        self.zerr(codes::TYPE_MISMATCH, msg.as_str(), span, "Hone has no implicit type conversion")
    }

    /// The error of an expression that works in interpreted programs only.
    pub fn mode_err(&self, e: &Expr) -> (r: ZError)
        ensures
            r@ == not_in_c(self@, expr_v(*e)),
    {
        match e {
            Expr::Field { span, .. } => self.zerr(
                codes::NOT_IMPLEMENTED,
                "field access is not supported in DLL builds",
                *span,
                "field access (`e.code` etc.) works in interpreted mode only",
            ),
            Expr::Match { span, .. } => self.zerr(
                codes::NOT_IMPLEMENTED,
                "match expressions are not supported in DLL builds",
                *span,
                "match works in interpreted mode only",
            ),
            e => self.zerr(
                codes::NOT_IMPLEMENTED,
                "list/dict literals and f-strings are not supported in DLL builds",
                expr_span(e),
                "these features work in interpreted mode only",
            ),
        }
    }

    /// Adds the variables of statements.
    fn infer_body_types(&self, ss: &'a Vec<Stmt>, vars: &mut Table<CType>, stack: &Vec<String>, left: usize) -> (r: Result<
        (),
        ZError,
    >)
        requires
            self.wf(),
            old(vars).wf(),
        ensures
            final(vars).wf(),
            vars_r(r, final(vars)@) == body_types(
                self@,
                stmts_v(ss@),
                ss.len() as int,
                old(vars)@,
                strs(stack@),
                left as nat,
            ),
        decreases room(self@, strs(stack@)), left, 2int, ss, 0int,
    {
        let ghost v0 = vars@;
        let ghost g = self@;
        let ghost st = strs(stack@);
        let ghost all = stmts_v(ss@);
        let mut i: usize = 0;
        while i < ss.len()
            invariant
                i <= ss.len(),
                self.wf(),
                vars.wf(),
                g == self@,
                st == strs(stack@),
                all == stmts_v(ss@),
                v0 == old(vars)@,
                body_types(g, all, i as int, v0, st, left as nat) == Ok::<Map<Seq<char>, CType>, ErrV>(vars@),
            decreases ss.len() - i,
        {
            let s = &ss[i];
            let ghost was = vars@;
            assert(all[i as int] == stmt_v(ss@[i as int]));
            assert(decreases_to!(ss@ => ss@[i as int]));
            let r: Result<(), ZError> = match s {
                Stmt::Assign { name, value, .. } => if vars.contains_key(name.as_str()) {
                    Ok(())
                } else {
                    match self.infer_expr_type(value, vars, stack, left) {
                        Err(e) => Err(e),
                        Ok(t) => {
                            vars.insert(name.as_str(), t);
                            Ok(())
                        },
                    }
                },
                Stmt::VarDecl { name, ty, init, .. } => {
                    let annot = CType::from_annot(*ty);
                    match init {
                        None => {
                            vars.insert(name.as_str(), annot);
                            Ok(())
                        },
                        Some(e) => match self.infer_expr_type(e, vars, stack, left) {
                            Err(x) => Err(x),
                            Ok(t) => if t != annot {
                                Err(self.init_err(name.as_str(), annot, t, expr_span(e)))
                            } else {
                                vars.insert(name.as_str(), annot);
                                Ok(())
                            },
                        },
                    }
                },
                Stmt::Block { stmts, .. } => self.infer_body_types(stmts, vars, stack, left),
                Stmt::If { then_branch, else_branch, .. } => match self.infer_body_types(
                    then_branch,
                    vars,
                    stack,
                    left,
                ) {
                    Err(e) => Err(e),
                    Ok(()) => match else_branch {
                        None => Ok(()),
                        Some(b) => self.infer_body_types(b, vars, stack, left),
                    },
                },
                Stmt::While { body, .. } => self.infer_body_types(body, vars, stack, left),
                _ => Ok(()),
            };
            assert(vars_r(r, vars@) == stmt_types(g, all[i as int], was, st, left as nat));
            assert(body_types(g, all, i + 1, v0, st, left as nat) == stmt_types(
                g,
                all[i as int],
                was,
                st,
                left as nat,
            ));
            if let Err(e) = r {
                proof {
                    lemma_body_err(g, all, i + 1, ss.len() as int, v0, st, left as nat);
                }
                return Err(e);
            }
            i = i + 1;
        }
        Ok(())
    }

    fn return_err(&self, a: CType, b: CType, span: Span, help: &str) -> (r: ZError)
        ensures
            r@ == two_types(self@, a, b, span, help@),
    {
        let msg = cat5("inconsistent return types: `", a.c_name(), "` vs `", b.c_name(), "`");
        self.zerr(codes::TYPE_MISMATCH, msg.as_str(), span, help)
    }

    /// The type that statements return, if they return anything.
    fn return_type_stmt(&self, ss: &'a Vec<Stmt>, vars: &Table<CType>, stack: &Vec<String>, left: usize) -> (r: Result<
        Option<CType>,
        ZError,
    >)
        requires
            self.wf(),
            vars.wf(),
        ensures
            ret_r(r) == return_type(self@, stmts_v(ss@), 0, None, vars@, strs(stack@), left as nat),
        decreases room(self@, strs(stack@)), left, 2int, ss, 0int,
    {
        let ghost g = self@;
        let ghost st = strs(stack@);
        let ghost all = stmts_v(ss@);
        let ghost goal = return_type(g, all, 0, None, vars@, st, left as nat);
        let mut ret: Option<CType> = None;
        let mut i: usize = 0;
        while i < ss.len()
            invariant
                i <= ss.len(),
                self.wf(),
                vars.wf(),
                g == self@,
                st == strs(stack@),
                all == stmts_v(ss@),
                goal == return_type(self@, stmts_v(ss@), 0, None, vars@, strs(stack@), left as nat),
                return_type(g, all, i as int, ret, vars@, st, left as nat) == goal,
            decreases ss.len() - i,
        {
            let s = &ss[i];
            assert(all[i as int] == stmt_v(ss@[i as int]));
            assert(decreases_to!(ss@ => ss@[i as int]));
            let r: Result<Option<CType>, ZError> = match s {
                Stmt::Return { value, .. } => match value {
                    None => Ok(Some(CType::Void)),
                    Some(e) => match self.infer_expr_type(e, vars, stack, left) {
                        Err(x) => Err(x),
                        Ok(t) => Ok(Some(t)),
                    },
                },
                Stmt::Block { stmts, .. } => self.return_type_stmt(stmts, vars, stack, left),
                Stmt::If { then_branch, else_branch, span, .. } => match self.return_type_stmt(
                    then_branch,
                    vars,
                    stack,
                    left,
                ) {
                    Err(e) => Err(e),
                    Ok(a) => match else_branch {
                        None => Ok(a),
                        Some(b) => match self.return_type_stmt(b, vars, stack, left) {
                            Err(e) => Err(e),
                            Ok(b) => match (a, b) {
                                (Some(x), Some(y)) => if x != y {
                                    Err(self.return_err(x, y, *span, "make all branches return the same type"))
                                } else {
                                    Ok(Some(x))
                                },
                                (Some(x), None) => Ok(Some(x)),
                                (None, b) => Ok(b),
                            },
                        },
                    },
                },
                Stmt::While { body, .. } => self.return_type_stmt(body, vars, stack, left),
                _ => Ok(None),
            };
            assert(ret_r(r) == stmt_return(g, all[i as int], vars@, st, left as nat));
            match r {
                Err(e) => {
                    return Err(e);
                },
                Ok(None) => {},
                Ok(Some(t)) => match ret {
                    None => {
                        ret = Some(t);
                    },
                    Some(p) => if p != t {
                        return Err(
                            self.return_err(p, t, stmt_span(s), "make all return statements return the same type"),
                        );
                    },
                },
            }
            i = i + 1;
        }
        Ok(ret)
    }

    /// The type of a prefix operator's result.
    pub fn infer_prefix(&self, op: UnOp, t: CType, span: Span) -> (r: Result<CType, ZError>)
        ensures
            type_r(r) == prefix_type(self@, op, t, span),
    {
        match op {
            UnOp::Neg => if t.is_num() {
                Ok(t)
            } else {
                let msg = cat3("unary `-` requires a number, got `", t.c_name(), "`");
                Err(self.zerr(codes::TYPE_MISMATCH, msg.as_str(), span, "negation works on `int` / `float`"))
            },
            UnOp::Not => if t == CType::Bool {
                Ok(CType::Bool)
            } else {
                let msg = cat3("`!` requires a `bool`, got `", t.c_name(), "`");
                Err(self.zerr(codes::TYPE_MISMATCH, msg.as_str(), span, "logical NOT works on `bool` values"))
            },
        }
    }

    fn mixed_err(&self, op: BinOp, l: CType, r: CType, span: Span) -> (e: ZError)
        ensures
            e@ == mixed(self@, op, l, r, span),
    {
        let msg = cat7(
            "cannot apply `",
            op.symbol(),
            "` to `",
            l.c_name(),
            "` and `",
            r.c_name(),
            "` (no implicit conversion)",
        );
        self.zerr(codes::TYPE_MISMATCH, msg.as_str(), span, "Hone has no implicit type conversion")
    }

    /// The error of operands that an operator does not take.
    pub fn operand_err(&self, op: &str, l: CType, r: CType, span: Span, help: &str) -> (e: ZError)
        ensures
            e@ == no_operands(self@, op@, l, r, span, help@),
    {
        let msg = cat7("cannot apply `", op, "` to `", l.c_name(), "` and `", r.c_name(), "`");
        self.zerr(codes::TYPE_MISMATCH, msg.as_str(), span, help)
    }

    fn wants_err(&self, op: BinOp, what: &str, l: CType, r: CType, span: Span, help: &str) -> (e: ZError)
        ensures
            e@ == wants(self@, op, what@, l, r, span, help@),
    {
        let head = cat3("`", op.symbol(), what);
        let msg = cat5(head.as_str(), l.c_name(), "` and `", r.c_name(), "`");
        self.zerr(codes::TYPE_MISMATCH, msg.as_str(), span, help)
    }

    /// The type of an infix operator's result.
    pub fn infer_binary(&self, op: BinOp, l: CType, r: CType, span: Span) -> (t: Result<CType, ZError>)
        ensures
            type_r(t) == binary_type(self@, op, l, r, span),
    {
        match op {
            BinOp::Add => if l == r && (l.is_num() || l == CType::Str) {
                Ok(l)
            } else if l.is_num() && r.is_num() {
                Err(self.mixed_err(op, l, r, span))
            } else {
                Err(self.operand_err("+", l, r, span, "`+` works on numbers and concatenates strings"))
            },
            BinOp::Sub | BinOp::Mul | BinOp::Div | BinOp::Mod => if l == r && l.is_num() {
                Ok(l)
            } else if l.is_num() && r.is_num() {
                Err(self.mixed_err(op, l, r, span))
            } else {
                Err(self.operand_err(op.symbol(), l, r, span, "arithmetic works on `int` / `float`"))
            },
            BinOp::Eq | BinOp::Ne => if l == r && l != CType::Void {
                Ok(CType::Bool)
            } else {
                Err(self.mixed_err(op, l, r, span))
            },
            BinOp::Lt | BinOp::Le | BinOp::Gt | BinOp::Ge => if l == r && l.is_num() {
                Ok(CType::Bool)
            } else if l.is_num() && r.is_num() {
                Err(self.mixed_err(op, l, r, span))
            } else {
                Err(
                    self.wants_err(
                        op,
                        "` requires numeric operands, got `",
                        l,
                        r,
                        span,
                        "comparison operators work on `int` / `float`",
                    ),
                )
            },
            BinOp::And | BinOp::Or => if l == CType::Bool && r == CType::Bool {
                Ok(CType::Bool)
            } else {
                Err(
                    self.wants_err(
                        op,
                        "` requires `bool` operands, got `",
                        l,
                        r,
                        span,
                        "logical operators work on `bool` values",
                    ),
                )
            },
        }
    }

    /// The type of an expression.
    fn infer_expr_type(&self, e: &'a Expr, vars: &Table<CType>, stack: &Vec<String>, left: usize) -> (r: Result<
        CType,
        ZError,
    >)
        requires
            self.wf(),
            vars.wf(),
        ensures
            type_r(r) == expr_type(self@, expr_v(*e), vars@, strs(stack@), left as nat),
        decreases room(self@, strs(stack@)), left, 1int, e, 0int,
    {
        match e {
            Expr::IntLit(..) => Ok(CType::Int),
            Expr::FloatLit(..) => Ok(CType::Double),
            Expr::BoolLit(..) => Ok(CType::Bool),
            Expr::StrLit(..) => Ok(CType::Str),
            Expr::Ident { name, span } => match vars.get(name.as_str()) {
                Some(t) => Ok(*t),
                None => Err(self.var_err(name.as_str(), *span)),
            },
            Expr::Unary { op, expr, span } => match self.infer_expr_type(expr, vars, stack, left) {
                Err(x) => Err(x),
                Ok(t) => self.infer_prefix(*op, t, *span),
            },
            Expr::Binary { op, lhs, rhs, span } => match self.infer_expr_type(lhs, vars, stack, left) {
                Err(x) => Err(x),
                Ok(l) => match self.infer_expr_type(rhs, vars, stack, left) {
                    Err(x) => Err(x),
                    Ok(r) => self.infer_binary(*op, l, r, *span),
                },
            },
            Expr::Call { callee, span, .. } => match self.fns.get(callee.as_str()) {
                Some(f) => match self.infer_signature(callee.as_str(), *f, stack, left) {
                    Err(x) => Err(x),
                    Ok(s) => Ok(s.ret),
                },
                None => Err(self.call_err(callee.as_str(), *span)),
            },
            e => Err(self.mode_err(e)),
        }
    }
}

} // verus!
