//! The parser: recursive descent over the tokens of a text.

use vstd::prelude::*;

use crate::ast::{
    arms_v, entries_v, expr_span, expr_v, exprs_v, ffi_params_v, fields_v, opt_expr_v, params_v,
    seg_v, segs_v, sigs_v, stmts_v, BinOp, Expr, ExprV, FStrSeg, FfiParam, FfiSig, FfiTy, Param,
    Program, SegV, Stmt, StmtV, TyName, UnOp,
};
use crate::error::{codes, opt_str, opt_text, ErrV, ZError};
use crate::lexer::{
    all_short, codes_short, lemma_tokens_end, lemma_tokens_short, parts_v, toks_v, FStrPart, Key,
    Lexer, PartV, Span, Tok, TokV,
};
use crate::text::{cat2, cat3, eq, replace, strs};

pub mod forms;
pub mod grammar;
pub mod moved;
pub mod pipes;
pub mod written;

use grammar::{
    field_chain, found, g_arms, g_as, g_assign, g_alias, g_binary, g_binary_tail, g_block, g_body,
    g_breakpoint, g_code, g_cond, g_debug_print, g_decl_c, g_decl_rest, g_decl_ts, g_dotted,
    g_entries, g_expect, g_export, g_expr, g_expr_stmt, g_ffi_params, g_ffi_sig, g_ffi_sigs,
    g_ffi_ty, g_fields, g_fn, g_for_head, g_for_in, g_from, g_go, g_ident, g_ident_at, g_if,
    g_import, g_list, g_load, g_load_end, g_match, g_operand, g_param, g_params, g_pattern, g_pipes,
    g_primary, g_program, g_return, g_segs, g_semi, g_stmt, g_string, g_struct_def, g_throw, g_try,
    g_type, g_unary, g_use, g_while, infix, joined, prefix, program_of, ty_of, ty_text, Cx,
};

verus! {

/// The parser of one text, at one of its tokens.
pub struct Parser {
    file: String,
    src: String,
    toks: Vec<(Tok, Span)>,
    pos: usize,
}

/// Whether a rule of the grammar gave `r` and left the parser at `pos`.
spec fn gave<T>(g: Result<(T, int), ErrV>, r: Result<T, ErrV>, pos: usize) -> bool {
    match r {
        Ok(t) => g == Ok::<(T, int), ErrV>((t, pos as int)),
        Err(e) => g == Err::<(T, int), ErrV>(e),
    }
}

/// Whether a rule without a value of its own gave `r` and left the parser at `pos`.
spec fn gave_unit(g: Result<int, ErrV>, r: Result<(), ZError>, pos: usize) -> bool {
    match r {
        Ok(_) => g == Ok::<int, ErrV>(pos as int),
        Err(e) => g == Err::<int, ErrV>(e@),
    }
}

spec fn expr_r(r: Result<Expr, ZError>) -> Result<ExprV, ErrV> {
    match r {
        Ok(e) => Ok(e@),
        Err(x) => Err(x@),
    }
}

spec fn exprs_r(r: Result<Vec<Expr>, ZError>) -> Result<Seq<ExprV>, ErrV> {
    match r {
        Ok(es) => Ok(exprs_v(es@)),
        Err(x) => Err(x@),
    }
}

spec fn stmt_r(r: Result<Stmt, ZError>) -> Result<StmtV, ErrV> {
    match r {
        Ok(s) => Ok(s@),
        Err(x) => Err(x@),
    }
}

spec fn stmts_r(r: Result<Vec<Stmt>, ZError>) -> Result<Seq<StmtV>, ErrV> {
    match r {
        Ok(ss) => Ok(stmts_v(ss@)),
        Err(x) => Err(x@),
    }
}

spec fn text_r(r: Result<String, ZError>) -> Result<Seq<char>, ErrV> {
    match r {
        Ok(s) => Ok(s@),
        Err(x) => Err(x@),
    }
}

spec fn opt_text_r(r: Result<Option<String>, ZError>) -> Result<Option<Seq<char>>, ErrV> {
    match r {
        Ok(s) => Ok(opt_text(s)),
        Err(x) => Err(x@),
    }
}

spec fn texts_r(r: Result<Vec<String>, ZError>) -> Result<Seq<Seq<char>>, ErrV> {
    match r {
        Ok(s) => Ok(strs(s@)),
        Err(x) => Err(x@),
    }
}

spec fn plain_r<T>(r: Result<T, ZError>) -> Result<T, ErrV> {
    match r {
        Ok(t) => Ok(t),
        Err(x) => Err(x@),
    }
}

/// The name of a type.
fn type_text(t: TyName) -> (r: &'static str)
    ensures
        r@ == ty_text(t),
{
    match t {
        TyName::Int => "int",
        TyName::Float => "float",
        TyName::Bool => "bool",
        TyName::Str => "str",
    }
}

/// The type that a token names.
fn type_of(t: &Tok) -> (r: Option<TyName>)
    ensures
        r == ty_of(t@),
{
    match t {
        Tok::Key(k) => match k {
            Key::TInt => Some(TyName::Int),
            Key::TFloat => Some(TyName::Float),
            Key::TBool => Some(TyName::Bool),
            Key::TStr => Some(TyName::Str),
            _ => None,
        },
        _ => None,
    }
}

/// Names joined by dots.
fn join(parts: &Vec<String>) -> (r: String)
    ensures
        r@ == joined(strs(parts@)),
{
    let mut out = String::new();
    let mut i: usize = 0;
    let ghost ps = strs(parts@);
    assert(ps.take(0) =~= Seq::empty());
    while i < parts.len()
        invariant
            i <= parts.len(),
            ps == strs(parts@),
            out@ == joined(ps.take(i as int)),
        decreases parts.len() - i,
    {
        proof {
            assert(ps.take(i + 1).drop_last() =~= ps.take(i as int));
            assert(ps.take(i + 1).last() == parts@[i as int]@);
        }
        if i == 0 {
            out = parts[i].clone();
        } else {
            out.append(".");
            out.append(parts[i].as_str());
        }
        i = i + 1;
    }
    assert(ps.take(i as int) =~= ps);
    out
}

/// The infix operator of a token at a level of precedence.
fn infix_of(level: u8, t: &Tok) -> (r: Option<BinOp>)
    ensures
        r == infix(level as nat, t@),
{
    match t {
        Tok::Key(k) => if level == 0 {
            match k {
                Key::Star => Some(BinOp::Mul),
                Key::Slash => Some(BinOp::Div),
                Key::Percent => Some(BinOp::Mod),
                _ => None,
            }
        } else if level == 1 {
            match k {
                Key::Plus => Some(BinOp::Add),
                Key::Minus => Some(BinOp::Sub),
                _ => None,
            }
        } else if level == 2 {
            match k {
                Key::Lt => Some(BinOp::Lt),
                Key::Le => Some(BinOp::Le),
                Key::Gt => Some(BinOp::Gt),
                Key::Ge => Some(BinOp::Ge),
                _ => None,
            }
        } else if level == 3 {
            match k {
                Key::EqEq => Some(BinOp::Eq),
                Key::NotEq => Some(BinOp::Ne),
                _ => None,
            }
        } else if level == 4 {
            match k {
                Key::AndAnd => Some(BinOp::And),
                _ => None,
            }
        } else if level == 5 {
            match k {
                Key::OrOr => Some(BinOp::Or),
                _ => None,
            }
        } else {
            None
        },
        _ => None,
    }
}

proof fn lemma_push_expr(es: Seq<Expr>, e: Expr)
    ensures
        exprs_v(es.push(e)) == exprs_v(es).push(expr_v(e)),
{
    assert(exprs_v(es.push(e)) =~= exprs_v(es).push(expr_v(e)));
}

proof fn lemma_push_stmt(ss: Seq<Stmt>, s: Stmt)
    ensures
        stmts_v(ss.push(s)) == stmts_v(ss).push(s@),
{
    assert(stmts_v(ss.push(s)) =~= stmts_v(ss).push(s@));
}

/// An error in a piece of an interpolated text is the error of the text.
proof fn lemma_segs_fail(cx: Cx, parts: Seq<PartV>, span: Span, n: int)
    requires
        0 <= n <= parts.len(),
        g_segs(cx, parts.take(n), span) is Err,
    ensures
        g_segs(cx, parts, span) == g_segs(cx, parts.take(n), span),
    decreases parts.len() - n,
{
    if n == parts.len() {
        assert(parts.take(n) =~= parts);
    } else {
        assert(parts.take(n + 1).drop_last() =~= parts.take(n));
        lemma_segs_fail(cx, parts, span, n + 1);
    }
}

impl Parser {
    /// What the grammar sees of the parser.
    spec fn cx(self) -> Cx {
        Cx { file: self.file@, src: self.src@, toks: toks_v(self.toks@) }
    }

    /// Whether the parser stands on a token of a text that ends with its end.
    spec fn wf(self) -> bool {
        &&& self.pos < self.toks.len()
        &&& self.toks@.last().0@ == TokV::Key(Key::Eof)
        &&& all_short(toks_v(self.toks@), self.src@.len())
    }

    /// Whether two parsers are of the same text.
    spec fn same(self, other: Parser) -> bool {
        self.file == other.file && self.src == other.src && self.toks == other.toks
    }

    /// Whether the parser `new` went on from `self` in the same text.
    spec fn went(self, new: Parser) -> bool {
        new.wf() && new.same(self) && self.pos < new.pos
    }

    /// The parser of a text, and the program that the text is.
    pub fn parse(file: &str, src: &str) -> (r: Result<Program, ZError>)
        ensures
            match r {
                Ok(p) => program_of(file@, src@) == Ok::<Seq<StmtV>, ErrV>(p@),
                Err(e) => program_of(file@, src@) == Err::<Seq<StmtV>, ErrV>(e@),
            },
    {
        let lexer = Lexer::new(file, src);
        match lexer.tokenize() {
            Err(e) => Err(e),
            Ok(toks) => {
                proof {
                    lemma_tokens_end(src@, 0);
                    lemma_tokens_short(src@, 0);
                    assert(toks_v(toks@).last() == (toks@.last().0@, toks@.last().1));
                }
                let mut p = Parser { file: file.to_owned(), src: src.to_owned(), toks, pos: 0 };
                match p.parse_program() {
                    Ok(stmts) => Ok(Program { stmts }),
                    Err(e) => Err(e),
                }
            },
        }
    }

    fn at(&self, k: Key) -> (r: bool)
        requires
            self.wf(),
        ensures
            r == self.cx().at(self.pos as int, k),
    {
        match &self.toks[self.pos].0 {
            Tok::Key(j) => *j == k,
            _ => false,
        }
    }

    fn span(&self) -> (r: Span)
        requires
            self.wf(),
        ensures
            r == self.cx().span(self.pos as int),
    {
        self.toks[self.pos].1
    }

    fn next(&mut self)
        requires
            old(self).wf(),
        ensures
            final(self).wf(),
            final(self).same(*old(self)),
            final(self).pos == old(self).cx().next(old(self).pos as int),
    {
        if self.pos < self.toks.len() - 1 {
            self.pos = self.pos + 1;
        }
    }

    fn fail_at(&self, span: Span, code: &'static str, msg: &str, help: Option<&str>) -> (r: ZError)
        ensures
            r@ == self.cx().fail_at(span, code@, msg@, opt_str(help)),
    {
        let len: usize = if span.len == 0 { 1 } else { span.len };
        ZError::new(
            code,
            msg,
            self.file.as_str(),
            self.src.as_str(),
            span.line,
            span.col,
            len,
            help,
        )
    }

    fn fail(&self, code: &'static str, msg: &str, help: Option<&str>) -> (r: ZError)
        requires
            self.wf(),
        ensures
            r@ == self.cx().fail(self.pos as int, code@, msg@, opt_str(help)),
    {
        self.fail_at(self.span(), code, msg, help)
    }

    /// The message of an unexpected token at `at`.
    fn found_at(&self, what: &str, at: usize) -> (r: String)
        requires
            at < self.toks.len(),
        ensures
            r@ == found(what@, self.cx().tok(at as int)),
    {
        cat3(what, ", found ", self.toks[at].0.describe().as_str())
    }

    fn expect(&mut self, k: Key, what: &str) -> (r: Result<(), ZError>)
        requires
            old(self).wf(),
        ensures
            final(self).wf(),
            final(self).same(*old(self)),
            gave_unit(g_expect(old(self).cx(), old(self).pos as int, k, what@), r, final(self).pos),
            r is Ok && k != Key::Eof ==> old(self).went(*final(self)),
    {
        if self.at(k) {
            self.next();
            Ok(())
        } else {
            let what = cat2("expected ", what);
            let msg = self.found_at(what.as_str(), self.pos);
            let help = cat3("insert `", k.written(), "` here");
            Err(self.fail(codes::SYNTAX, msg.as_str(), Some(help.as_str())))
        }
    }

    fn expect_semi(&mut self) -> (r: Result<(), ZError>)
        requires
            old(self).wf(),
        ensures
            final(self).wf(),
            final(self).same(*old(self)),
            gave_unit(g_semi(old(self).cx(), old(self).pos as int), r, final(self).pos),
            r is Ok ==> old(self).went(*final(self)),
    {
        if self.at(Key::Semi) {
            self.next();
            Ok(())
        } else {
            let msg = self.found_at("expected `;`", self.pos);
            Err(
                self.fail(
                    codes::MISSING_SEMI,
                    msg.as_str(),
                    Some("insert `;` at the end of the statement"),
                ),
            )
        }
    }

    /// Takes an identifier; another token is reported at the token behind it.
    fn ident(&mut self, msg: &str, help: Option<&str>) -> (r: Result<String, ZError>)
        requires
            old(self).wf(),
        ensures
            final(self).wf(),
            final(self).same(*old(self)),
            gave(
                g_ident(old(self).cx(), old(self).pos as int, msg@, opt_str(help)),
                text_r(r),
                final(self).pos,
            ),
            r is Ok ==> old(self).went(*final(self)),
    {
        let at: usize = self.pos;
        self.next();
        match &self.toks[at].0 {
            Tok::Ident(s) => Ok(s.clone()),
            _ => {
                let m = self.found_at(msg, at);
                Err(self.fail(codes::SYNTAX, m.as_str(), help))
            },
        }
    }

    /// Takes an identifier; another token is reported where it stands.
    fn ident_at(&mut self, msg: &str, help: Option<&str>) -> (r: Result<String, ZError>)
        requires
            old(self).wf(),
        ensures
            final(self).wf(),
            final(self).same(*old(self)),
            gave(
                g_ident_at(old(self).cx(), old(self).pos as int, msg@, opt_str(help)),
                text_r(r),
                final(self).pos,
            ),
            r is Ok ==> old(self).went(*final(self)),
    {
        let at: usize = self.pos;
        let span = self.span();
        self.next();
        match &self.toks[at].0 {
            Tok::Ident(s) => Ok(s.clone()),
            _ => {
                let m = self.found_at(msg, at);
                Err(self.fail_at(span, codes::SYNTAX, m.as_str(), help))
            },
        }
    }

    /// Takes a text literal; another token is reported at the token behind it.
    fn string(&mut self, msg: &str, help: Option<&str>) -> (r: Result<String, ZError>)
        requires
            old(self).wf(),
        ensures
            final(self).wf(),
            final(self).same(*old(self)),
            gave(
                g_string(old(self).cx(), old(self).pos as int, msg@, opt_str(help)),
                text_r(r),
                final(self).pos,
            ),
            r is Ok ==> old(self).went(*final(self)),
    {
        let at: usize = self.pos;
        self.next();
        match &self.toks[at].0 {
            Tok::StrLit(s) => Ok(s.clone()),
            _ => {
                let m = self.found_at(msg, at);
                Err(self.fail(codes::SYNTAX, m.as_str(), help))
            },
        }
    }

    fn parse_type(&mut self) -> (r: Result<TyName, ZError>)
        requires
            old(self).wf(),
        ensures
            final(self).wf(),
            final(self).same(*old(self)),
            gave(g_type(old(self).cx(), old(self).pos as int), plain_r(r), final(self).pos),
            r is Ok ==> old(self).went(*final(self)),
    {
        let at: usize = self.pos;
        self.next();
        match type_of(&self.toks[at].0) {
            Some(ty) => Ok(ty),
            None => {
                let m = self.found_at("expected a type name (`int`/`float`/`bool`/`str`)", at);
                Err(self.fail(codes::SYNTAX, m.as_str(), None))
            },
        }
    }

    /// Collects the members of a dotted name, behind its first part. A type name and
    /// `load` are members too (`random.int`, `plugin.load`).
    fn join_dotted_parts(&mut self, first: String) -> (r: Result<Vec<String>, ZError>)
        requires
            old(self).wf(),
        ensures
            final(self).wf(),
            final(self).same(*old(self)),
            gave(
                g_dotted(old(self).cx(), old(self).pos as int, seq![first@]),
                texts_r(r),
                final(self).pos,
            ),
            r matches Ok(ps) ==> ps.len() > 0 && old(self).pos <= final(self).pos,
    {
        let ghost cx = self.cx();
        let ghost goal = g_dotted(cx, self.pos as int, seq![first@]);
        let mut parts: Vec<String> = Vec::new();
        parts.push(first.clone());
        assert(strs(parts@) =~= seq![first@]);
        while self.at(Key::Dot)
            invariant
                self.wf(),
                self.same(*old(self)),
                self.cx() == cx,
                old(self).pos <= self.pos,
                parts.len() > 0,
                g_dotted(cx, self.pos as int, strs(parts@)) == goal,
                goal == g_dotted(cx, old(self).pos as int, seq![first@]),
                cx == old(self).cx(),
            decreases self.toks.len() - self.pos,
        {
            self.next();
            let at: usize = self.pos;
            let span = self.span();
            self.next();
            let part = match &self.toks[at].0 {
                Tok::Ident(s) => Some(s.clone()),
                Tok::Key(Key::Load) => Some("load".to_owned()),
                t => match type_of(t) {
                    Some(ty) => Some(type_text(ty).to_owned()),
                    None => None,
                },
            };
            match part {
                Some(p) => {
                    let ghost before = strs(parts@);
                    let ghost pv = p@;
                    parts.push(p);
                    assert(strs(parts@) =~= before.push(pv));
                },
                None => {
                    let m = self.found_at("expected an identifier after `.`", at);
                    return Err(self.fail_at(span, codes::SYNTAX, m.as_str(), None));
                },
            }
        }
        Ok(parts)
    }

    /// Parses an expression: operators, then pipes (`x |> f(a)` is `f(x, a)`).
    fn parse_expr(&mut self) -> (r: Result<Expr, ZError>)
        requires
            old(self).wf(),
        ensures
            final(self).wf(),
            final(self).same(*old(self)),
            gave(g_expr(old(self).cx(), old(self).pos as int), expr_r(r), final(self).pos),
            r is Ok ==> old(self).went(*final(self)),
        decreases old(self).src@.len(), old(self).toks.len() - old(self).pos, 20nat,
    {
        let ghost cx = self.cx();
        let ghost goal = g_expr(cx, self.pos as int);
        let mut lhs = self.parse_binary(5)?;
        while self.at(Key::Pipe)
            invariant
                self.wf(),
                old(self).wf(),
                old(self).went(*self),
                self.cx() == cx,
                g_pipes(cx, self.pos as int, lhs@) == goal,
                goal == g_expr(cx, old(self).pos as int),
                cx == old(self).cx(),
            decreases self.toks.len() - self.pos,
        {
            let span = self.span();
            let ghost pos0 = self.pos;
            let ghost lhs_v = lhs@;
            self.next();
            let first = self.ident_at(
                "expected a function name after `|>`",
                Some("pipe form: `x |> f` or `x |> f(a, b)`"),
            )?;
            let parts = self.join_dotted_parts(first)?;
            let callee = join(&parts);
            let mut args: Vec<Expr> = Vec::new();
            args.push(lhs);
            assert(exprs_v(args@) =~= seq![lhs_v]);
            if self.at(Key::LParen) {
                self.next();
                let mut more = self.parse_list(Key::RParen)?;
                let ghost more_v = exprs_v(more@);
                proof {
                    assert(exprs_v(args@ + more@) =~= seq![lhs_v] + more_v);
                }
                args.append(&mut more);
                self.expect(Key::RParen, "`)`")?;
            }
            lhs = Expr::Call { callee, args, span };
        }
        Ok(lhs)
    }

    /// Parses an operand of the operators of a level.
    fn parse_operand(&mut self, level: u8) -> (r: Result<Expr, ZError>)
        requires
            old(self).wf(),
        ensures
            final(self).wf(),
            final(self).same(*old(self)),
            gave(g_operand(old(self).cx(), old(self).pos as int, level as nat), expr_r(r), final(self).pos),
            r is Ok ==> old(self).went(*final(self)),
        decreases old(self).src@.len(), old(self).toks.len() - old(self).pos, 2 * (level as nat) + 2,
    {
        if level == 0 {
            self.parse_unary()
        } else {
            self.parse_binary(level - 1)
        }
    }

    /// Parses operands joined by the operators of a level, to the left.
    fn parse_binary(&mut self, level: u8) -> (r: Result<Expr, ZError>)
        requires
            old(self).wf(),
        ensures
            final(self).wf(),
            final(self).same(*old(self)),
            gave(g_binary(old(self).cx(), old(self).pos as int, level as nat), expr_r(r), final(self).pos),
            r is Ok ==> old(self).went(*final(self)),
        decreases old(self).src@.len(), old(self).toks.len() - old(self).pos, 2 * (level as nat) + 3,
    {
        let ghost cx = self.cx();
        let ghost goal = g_binary(cx, self.pos as int, level as nat);
        let mut lhs = self.parse_operand(level)?;
        loop
            invariant
                self.wf(),
                old(self).wf(),
                old(self).went(*self),
                self.cx() == cx,
                g_binary_tail(cx, self.pos as int, level as nat, lhs@) == goal,
                goal == g_binary(cx, old(self).pos as int, level as nat),
                cx == old(self).cx(),
            decreases self.toks.len() - self.pos,
        {
            match infix_of(level, &self.toks[self.pos].0) {
                None => {
                    return Ok(lhs);
                },
                Some(op) => {
                    let span = self.span();
                    self.next();
                    let rhs = self.parse_operand(level)?;
                    lhs = Expr::Binary { op, lhs: Box::new(lhs), rhs: Box::new(rhs), span };
                },
            }
        }
    }

    /// Parses prefix operators in front of a primary expression.
    fn parse_unary(&mut self) -> (r: Result<Expr, ZError>)
        requires
            old(self).wf(),
        ensures
            final(self).wf(),
            final(self).same(*old(self)),
            gave(g_unary(old(self).cx(), old(self).pos as int), expr_r(r), final(self).pos),
            r is Ok ==> old(self).went(*final(self)),
        decreases old(self).src@.len(), old(self).toks.len() - old(self).pos, 1nat,
    {
        let op = if self.at(Key::Minus) {
            Some(UnOp::Neg)
        } else if self.at(Key::Bang) {
            Some(UnOp::Not)
        } else {
            None
        };
        match op {
            Some(op) => {
                let span = self.span();
                self.next();
                let e = self.parse_unary()?;
                Ok(Expr::Unary { op, expr: Box::new(e), span })
            },
            None => self.parse_primary(),
        }
    }

    /// Parses the expressions up to the token `close`.
    fn parse_list(&mut self, close: Key) -> (r: Result<Vec<Expr>, ZError>)
        requires
            old(self).wf(),
        ensures
            final(self).wf(),
            final(self).same(*old(self)),
            gave(g_list(old(self).cx(), old(self).pos as int, close, Seq::empty()), exprs_r(r), final(self).pos),
            r is Ok ==> old(self).pos <= final(self).pos,
        decreases old(self).src@.len(), old(self).toks.len() - old(self).pos, 21nat,
    {
        let ghost cx = self.cx();
        let ghost goal = g_list(cx, self.pos as int, close, Seq::empty());
        let mut items: Vec<Expr> = Vec::new();
        assert(exprs_v(items@) =~= Seq::empty());
        loop
            invariant
                self.wf(),
                old(self).wf(),
                self.same(*old(self)),
                old(self).pos <= self.pos,
                self.cx() == cx,
                g_list(cx, self.pos as int, close, exprs_v(items@)) == goal,
                goal == g_list(cx, old(self).pos as int, close, Seq::empty()),
                cx == old(self).cx(),
            decreases self.toks.len() - self.pos,
        {
            if self.at(close) {
                return Ok(items);
            }
            let e = self.parse_expr()?;
            proof {
                lemma_push_expr(items@, e);
            }
            items.push(e);
            if !self.at(Key::Comma) {
                return Ok(items);
            }
            self.next();
        }
    }

    /// Parses the entries of a dictionary up to its closing brace.
    fn parse_entries(&mut self) -> (r: Result<Vec<(String, Expr)>, ZError>)
        requires
            old(self).wf(),
        ensures
            final(self).wf(),
            final(self).same(*old(self)),
            gave(
                g_entries(old(self).cx(), old(self).pos as int, Seq::empty()),
                match r {
                    Ok(es) => Ok(entries_v(es@)),
                    Err(x) => Err(x@),
                },
                final(self).pos,
            ),
            r is Ok ==> old(self).pos <= final(self).pos,
        decreases old(self).src@.len(), old(self).toks.len() - old(self).pos, 21nat,
    {
        let ghost cx = self.cx();
        let ghost goal = g_entries(cx, self.pos as int, Seq::empty());
        let mut entries: Vec<(String, Expr)> = Vec::new();
        assert(entries_v(entries@) =~= Seq::empty());
        loop
            invariant
                self.wf(),
                old(self).wf(),
                self.same(*old(self)),
                old(self).pos <= self.pos,
                self.cx() == cx,
                g_entries(cx, self.pos as int, entries_v(entries@)) == goal,
                goal == g_entries(cx, old(self).pos as int, Seq::empty()),
                cx == old(self).cx(),
            decreases self.toks.len() - self.pos,
        {
            if self.at(Key::RBrace) {
                return Ok(entries);
            }
            let at: usize = self.pos;
            let span = self.span();
            self.next();
            let key = match &self.toks[at].0 {
                Tok::StrLit(k) => k.clone(),
                _ => {
                    let m = self.found_at("dict keys must be string literals", at);
                    return Err(
                        self.fail_at(
                            span,
                            codes::SYNTAX,
                            m.as_str(),
                            Some("form: {\"key\": value, ...}"),
                        ),
                    );
                },
            };
            self.expect(Key::Colon, "`:`")?;
            let e = self.parse_expr()?;
            proof {
                assert(entries_v(entries@.push((key, e))) =~= entries_v(entries@).push((key@, e@)));
            }
            entries.push((key, e));
            if !self.at(Key::Comma) {
                return Ok(entries);
            }
            self.next();
        }
    }

    /// Parses a literal, a name, a call, a bracketed expression, a list, a dictionary,
    /// an interpolated text or a match.
    fn parse_primary(&mut self) -> (r: Result<Expr, ZError>)
        requires
            old(self).wf(),
        ensures
            final(self).wf(),
            final(self).same(*old(self)),
            gave(g_primary(old(self).cx(), old(self).pos as int), expr_r(r), final(self).pos),
            r is Ok ==> old(self).went(*final(self)),
        decreases old(self).src@.len(), old(self).toks.len() - old(self).pos, 0nat,
    {
        let at: usize = self.pos;
        let span = self.span();
        let ghost cx = self.cx();
        if let Tok::FStr(_) = &self.toks[at].0 {
            let segs = self.parse_segs(at, span)?;
            self.next();
            return Ok(Expr::FStr(segs, span));
        }
        self.next();
        let ident = match &self.toks[at].0 {
            Tok::IntLit(n) => {
                return Ok(Expr::IntLit(*n, span));
            },
            Tok::FloatLit(t) => {
                return Ok(Expr::FloatLit(t.clone(), span));
            },
            Tok::StrLit(t) => {
                return Ok(Expr::StrLit(t.clone(), span));
            },
            Tok::Ident(s) => Some(s.clone()),
            _ => None,
        };
        if let Some(first) = ident {
            let parts = self.join_dotted_parts(first)?;
            if self.at(Key::LParen) {
                self.next();
                let args = self.parse_list(Key::RParen)?;
                self.expect(Key::RParen, "`)`")?;
                return Ok(Expr::Call { callee: join(&parts), args, span });
            }
            return Ok(chain(&parts, span));
        }
        if let Some(ty) = type_of(&self.toks[at].0) {
            return Ok(Expr::StrLit(type_text(ty).to_owned(), span));
        }
        let k = match &self.toks[at].0 {
            Tok::Key(k) => *k,
            _ => Key::Eof,
        };
        match k {
            Key::True => Ok(Expr::BoolLit(true, span)),
            Key::False => Ok(Expr::BoolLit(false, span)),
            Key::LBracket => {
                let items = self.parse_list(Key::RBracket)?;
                self.expect(Key::RBracket, "`]`")?;
                Ok(Expr::ListLit(items, span))
            },
            Key::LBrace => {
                let entries = self.parse_entries()?;
                self.expect(Key::RBrace, "`}`")?;
                Ok(Expr::DictLit(entries, span))
            },
            Key::LParen => {
                let inner = self.parse_expr()?;
                self.expect(Key::RParen, "`)`")?;
                Ok(inner)
            },
            Key::Match => self.parse_match(span),
            _ => {
                let m = self.found_at("expected an expression", at);
                Err(
                    self.fail(
                        codes::SYNTAX,
                        m.as_str(),
                        Some("an expression is a literal, a variable name, or a function call"),
                    ),
                )
            },
        }
    }

    /// Parses a match, behind its keyword.
    fn parse_match(&mut self, span: Span) -> (r: Result<Expr, ZError>)
        requires
            old(self).wf(),
        ensures
            final(self).wf(),
            final(self).same(*old(self)),
            gave(g_match(old(self).cx(), old(self).pos as int, span), expr_r(r), final(self).pos),
            r is Ok ==> old(self).went(*final(self)),
        decreases old(self).src@.len(), old(self).toks.len() - old(self).pos, 21nat,
    {
        let value = self.parse_expr()?;
        self.expect(Key::LBrace, "`{`")?;
        let ghost cx = self.cx();
        let ghost start = self.pos as int;
        let ghost goal = g_arms(cx, start, Seq::empty(), false);
        let mut arms: Vec<(Option<Expr>, Expr)> = Vec::new();
        let mut wild = false;
        assert(arms_v(arms@) =~= Seq::empty());
        let mut open = true;
        while open && !self.at(Key::RBrace)
            invariant
                self.wf(),
                old(self).wf(),
                old(self).went(*self),
                self.cx() == cx,
                open ==> g_arms(cx, self.pos as int, arms_v(arms@), wild) == goal,
                !open ==> goal == Ok::<(Seq<(Option<ExprV>, ExprV)>, int), ErrV>(
                    (arms_v(arms@), self.pos as int),
                ),
                goal == g_arms(cx, start, Seq::empty(), false),
                cx == old(self).cx(),
                ({
                    let g = g_match(cx, old(self).pos as int, span);
                    &&& goal matches Err(x) ==> g == Err::<(ExprV, int), ErrV>(x)
                    &&& goal matches Ok((av, p2)) ==> g == (match g_expect(
                        cx,
                        p2,
                        Key::RBrace,
                        "`}`"@,
                    ) {
                        Err(x) => Err(x),
                        Ok(p3) => Ok(
                            (ExprV::Match { value: Box::new(value@), arms: av, span }, p3),
                        ),
                    })
                }),
            decreases self.toks.len() - self.pos,
        {
            let pat = self.parse_pattern(wild)?;
            self.expect(Key::FatArrow, "`=>`")?;
            let body = self.parse_expr()?;
            proof {
                assert(arms_v(arms@.push((pat, body))) =~= arms_v(arms@).push(
                    (opt_expr_v(pat), body@),
                ));
            }
            let is_wild = pat.is_none();
            arms.push((pat, body));
            if self.at(Key::Comma) {
                self.next();
                wild = wild || is_wild;
            } else {
                open = false;
            }
        }
        self.expect(Key::RBrace, "`}`")?;
        Ok(Expr::Match { value: Box::new(value), arms, span })
    }

    /// Parses the pattern of an arm: a literal, or `_`, which may stand once and last.
    fn parse_pattern(&mut self, wild: bool) -> (r: Result<Option<Expr>, ZError>)
        requires
            old(self).wf(),
        ensures
            final(self).wf(),
            final(self).same(*old(self)),
            match r {
                Ok(p) => g_pattern(old(self).cx(), old(self).pos as int, wild) == Ok::<
                    Option<ExprV>,
                    ErrV,
                >(opt_expr_v(p)) && old(self).went(*final(self)) && final(self).pos == old(
                    self,
                ).cx().next(old(self).pos as int),
                Err(e) => g_pattern(old(self).cx(), old(self).pos as int, wild) == Err::<
                    Option<ExprV>,
                    ErrV,
                >(e@),
            },
    {
        let at: usize = self.pos;
        let span = self.span();
        self.next();
        let mut under = false;
        let pat = match &self.toks[at].0 {
            Tok::Ident(s) => {
                under = eq(s.as_str(), "_");
                None
            },
            Tok::IntLit(n) => Some(Expr::IntLit(*n, span)),
            Tok::FloatLit(t) => Some(Expr::FloatLit(t.clone(), span)),
            Tok::StrLit(t) => Some(Expr::StrLit(t.clone(), span)),
            Tok::Key(Key::True) => Some(Expr::BoolLit(true, span)),
            Tok::Key(Key::False) => Some(Expr::BoolLit(false, span)),
            _ => None,
        };
        if under {
            if wild {
                return Err(
                    self.fail_at(
                        span,
                        codes::SYNTAX,
                        "duplicate `_` wildcard in match",
                        Some("`_` may only appear once, as the last arm"),
                    ),
                );
            }
            return Ok(None);
        }
        if pat.is_none() {
            let m = self.found_at("unsupported match pattern", at);
            return Err(
                self.fail_at(
                    span,
                    codes::SYNTAX,
                    m.as_str(),
                    Some("patterns: literals (`1`, `\"a\"`, `true`) or `_` wildcard"),
                ),
            );
        }
        if wild {
            return Err(
                self.fail_at(
                    span,
                    codes::SYNTAX,
                    "the `_` wildcard must be the last arm of a match",
                    Some("`_` may only appear once, as the last arm"),
                ),
            );
        }
        Ok(pat)
    }

    /// Parses the pieces of the interpolated text at token `at`.
    fn parse_segs(&self, at: usize, span: Span) -> (r: Result<Vec<FStrSeg>, ZError>)
        requires
            self.wf(),
            at < self.toks.len(),
            self.toks@[at as int].0 is FStr,
        ensures
            match r {
                Ok(segs) => g_segs(self.cx(), self.cx().tok(at as int)->FStr_0, span) == Ok::<
                    Seq<SegV>,
                    ErrV,
                >(segs_v(segs@)),
                Err(e) => g_segs(self.cx(), self.cx().tok(at as int)->FStr_0, span) == Err::<
                    Seq<SegV>,
                    ErrV,
                >(e@),
            },
        decreases self.src@.len(), 0int, 1nat,
    {
        let ghost cx = self.cx();
        let mut segs: Vec<FStrSeg> = Vec::new();
        match &self.toks[at].0 {
            Tok::FStr(parts) => {
                let ghost pv = parts_v(parts@);
                assert(cx.tok(at as int) == TokV::FStr(pv));
                assert(all_short(cx.toks, self.src@.len()));
                assert(codes_short(pv, self.src@.len())) by {
                    assert(cx.toks[at as int].0 == TokV::FStr(pv));
                }
                assert(pv.take(0) =~= Seq::empty());
                assert(segs_v(segs@) =~= Seq::empty());
                let mut i: usize = 0;
                while i < parts.len()
                    invariant
                        self.wf(),
                        i <= parts.len(),
                        pv == parts_v(parts@),
                        codes_short(pv, self.src@.len()),
                        cx == self.cx(),
                        g_segs(cx, pv.take(i as int), span) == Ok::<Seq<SegV>, ErrV>(segs_v(segs@)),
                        cx.tok(at as int) == TokV::FStr(pv),
                    decreases parts.len() - i,
                {
                    proof {
                        assert(pv.take(i + 1).drop_last() =~= pv.take(i as int));
                        assert(pv.take(i + 1).last() == parts@[i as int]@);
                        assert(pv[i as int] == parts@[i as int]@);
                    }
                    let seg = match &parts[i] {
                        FStrPart::Lit(s) => {
                            let once = replace(s.as_str(), "{{", "{");
                            FStrSeg::Lit(replace(once.as_str(), "}}", "}"))
                        },
                        FStrPart::Code(code) => match self.parse_fstr_code(code.as_str(), span) {
                            Ok(e) => FStrSeg::Code(e),
                            Err(e) => {
                                proof {
                                    lemma_segs_fail(cx, pv, span, i + 1);
                                }
                                return Err(e);
                            },
                        },
                    };
                    proof {
                        assert(segs_v(segs@.push(seg)) =~= segs_v(segs@).push(seg_v(seg)));
                    }
                    segs.push(seg);
                    i = i + 1;
                }
                assert(pv.take(i as int) =~= pv);
            },
            _ => {},
        }
        Ok(segs)
    }

    /// Parses a piece of code of an interpolated text as one expression; errors point
    /// at the whole text.
    fn parse_fstr_code(&self, code: &str, outer: Span) -> (r: Result<Expr, ZError>)
        requires
            code@.len() < self.src@.len(),
        ensures
            match r {
                Ok(e) => g_code(self.cx(), code@, outer) == Ok::<ExprV, ErrV>(e@),
                Err(e) => g_code(self.cx(), code@, outer) == Err::<ExprV, ErrV>(e@),
            },
        decreases self.src@.len(), 0int, 0nat,
    {
        let lexer = Lexer::new(self.file.as_str(), code);
        match lexer.tokenize() {
            Err(e) => {
                let m = cat2("invalid expression in f-string: ", e.msg.as_str());
                Err(
                    self.fail_at(
                        outer,
                        codes::SYNTAX,
                        m.as_str(),
                        Some("check the code between `{` and `}`"),
                    ),
                )
            },
            Ok(toks) => {
                proof {
                    lemma_tokens_end(code@, 0);
                    lemma_tokens_short(code@, 0);
                    assert(toks_v(toks@).last() == (toks@.last().0@, toks@.last().1));
                }
                let mut p = Parser { file: self.file.clone(), src: code.to_owned(), toks, pos: 0 };
                match p.parse_expr() {
                    Err(e) => {
                        let m = cat2("invalid expression in f-string: ", e.msg.as_str());
                        Err(
                            self.fail_at(
                                outer,
                                codes::SYNTAX,
                                m.as_str(),
                                Some("check the code between `{` and `}`"),
                            ),
                        )
                    },
                    Ok(e) => {
                        if p.at(Key::Eof) {
                            Ok(e)
                        } else {
                            Err(
                                self.fail_at(
                                    outer,
                                    codes::SYNTAX,
                                    "f-string code segment must be a single expression",
                                    Some("wrap compound code in parentheses, e.g. `{(a + b) * 2}`"),
                                ),
                            )
                        }
                    },
                }
            },
        }
    }

    /// Parses a parameter: `name`, `name : type` or `type name`.
    fn parse_param(&mut self) -> (r: Result<Param, ZError>)
        requires
            old(self).wf(),
        ensures
            final(self).wf(),
            final(self).same(*old(self)),
            gave(g_param(old(self).cx(), old(self).pos as int), match r { Ok(p) => Ok(p@), Err(x) => Err(x@) }, final(self).pos),
            r is Ok ==> old(self).went(*final(self)),
    {
        let at: usize = self.pos;
        let span = self.span();
        self.next();
        let name = match &self.toks[at].0 {
            Tok::Ident(s) => Some(s.clone()),
            _ => None,
        };
        if let Some(name) = name {
            if self.at(Key::Colon) {
                self.next();
                let ty = self.parse_type()?;
                return Ok(Param { name, ty: Some(ty), span });
            }
            return Ok(Param { name, ty: None, span });
        }
        match type_of(&self.toks[at].0) {
            Some(ty) => {
                let name = self.ident_at("expected a parameter name", None)?;
                Ok(Param { name, ty: Some(ty), span })
            },
            None => {
                let m = self.found_at("expected a parameter", at);
                Err(
                    self.fail(
                        codes::SYNTAX,
                        m.as_str(),
                        Some("parameter form: `a`, `a : int`, or `int a`"),
                    ),
                )
            },
        }
    }

    /// Parses the parameters of a function up to its closing bracket.
    fn parse_params(&mut self) -> (r: Result<Vec<Param>, ZError>)
        requires
            old(self).wf(),
        ensures
            final(self).wf(),
            final(self).same(*old(self)),
            gave(g_params(old(self).cx(), old(self).pos as int, Seq::empty()), match r { Ok(p) => Ok(params_v(p@)), Err(x) => Err(x@) }, final(self).pos),
            r is Ok ==> old(self).pos <= final(self).pos,
    {
        let ghost cx = self.cx();
        let ghost goal = g_params(cx, self.pos as int, Seq::empty());
        let mut params: Vec<Param> = Vec::new();
        assert(params_v(params@) =~= Seq::empty());
        loop
            invariant
                self.wf(),
                old(self).wf(),
                self.same(*old(self)),
                old(self).pos <= self.pos,
                self.cx() == cx,
                g_params(cx, self.pos as int, params_v(params@)) == goal,
                goal == g_params(cx, old(self).pos as int, Seq::empty()),
                cx == old(self).cx(),
            decreases self.toks.len() - self.pos,
        {
            if self.at(Key::RParen) {
                return Ok(params);
            }
            let p = self.parse_param()?;
            assert(params_v(params@.push(p)) =~= params_v(params@).push(p@));
            params.push(p);
            if !self.at(Key::Comma) {
                return Ok(params);
            }
            self.next();
        }
    }

    /// Parses the fields of a struct up to its closing brace.
    fn parse_fields(&mut self) -> (r: Result<Vec<(String, TyName)>, ZError>)
        requires
            old(self).wf(),
        ensures
            final(self).wf(),
            final(self).same(*old(self)),
            gave(g_fields(old(self).cx(), old(self).pos as int, Seq::empty()), match r { Ok(p) => Ok(fields_v(p@)), Err(x) => Err(x@) }, final(self).pos),
            r is Ok ==> old(self).pos <= final(self).pos,
    {
        let ghost cx = self.cx();
        let ghost goal = g_fields(cx, self.pos as int, Seq::empty());
        let mut fields: Vec<(String, TyName)> = Vec::new();
        assert(fields_v(fields@) =~= Seq::empty());
        loop
            invariant
                self.wf(),
                old(self).wf(),
                self.same(*old(self)),
                old(self).pos <= self.pos,
                self.cx() == cx,
                g_fields(cx, self.pos as int, fields_v(fields@)) == goal,
                goal == g_fields(cx, old(self).pos as int, Seq::empty()),
                cx == old(self).cx(),
            decreases self.toks.len() - self.pos,
        {
            if self.at(Key::RBrace) {
                return Ok(fields);
            }
            let name = self.ident_at(
                "expected a field name",
                Some("fields look like `name: type`"),
            )?;
            self.expect(Key::Colon, "`:`")?;
            let ty = self.parse_type()?;
            assert(fields_v(fields@.push((name, ty))) =~= fields_v(fields@).push((name@, ty)));
            fields.push((name, ty));
            if !self.at(Key::Comma) {
                return Ok(fields);
            }
            self.next();
        }
    }

    /// Takes a C ABI type; `void` is a result only.
    fn ffi_ty(&mut self, result: bool) -> (r: Result<FfiTy, ZError>)
        requires
            old(self).wf(),
        ensures
            final(self).wf(),
            final(self).same(*old(self)),
            gave(g_ffi_ty(old(self).cx(), old(self).pos as int, result), plain_r(r), final(self).pos),
            r is Ok ==> old(self).went(*final(self)),
    {
        let at: usize = self.pos;
        self.next();
        let mut ptr = false;
        let mut void = false;
        let mut callback = false;
        match &self.toks[at].0 {
            Tok::Ident(s) => {
                ptr = eq(s.as_str(), "ptr");
                void = eq(s.as_str(), "void");
            },
            Tok::Key(k) => {
                callback = *k == Key::Fn;
            },
            _ => {},
        }
        if callback {
            return Err(
                self.fail(
                    codes::SYNTAX,
                    "callback parameter types (`fn(...)`) are not supported yet",
                    Some(
                        "declare the callback as `ptr` and pass a function pointer obtained from the library",
                    ),
                ),
            );
        }
        if ptr {
            return Ok(FfiTy::Ptr);
        }
        if result && void {
            return Ok(FfiTy::Void);
        }
        match type_of(&self.toks[at].0) {
            Some(TyName::Int) => Ok(FfiTy::Int),
            Some(TyName::Float) => Ok(FfiTy::Float),
            Some(TyName::Bool) => Ok(FfiTy::Bool),
            Some(TyName::Str) => Ok(FfiTy::Str),
            None => {
                let m = self.found_at("expected a type name", at);
                Err(
                    self.fail(
                        codes::SYNTAX,
                        m.as_str(),
                        Some(
                            "supported FFI types: `int`/`float`/`bool`/`str`/`ptr`, return types also allow `void`",
                        ),
                    ),
                )
            },
        }
    }

    /// Parses the parameters of the signature of `name`: at least one, eight at most.
    fn parse_ffi_params(&mut self, name: &str) -> (r: Result<Vec<FfiParam>, ZError>)
        requires
            old(self).wf(),
        ensures
            final(self).wf(),
            final(self).same(*old(self)),
            gave(g_ffi_params(old(self).cx(), old(self).pos as int, name@, Seq::empty()), match r { Ok(p) => Ok(ffi_params_v(p@)), Err(x) => Err(x@) }, final(self).pos),
            r is Ok ==> old(self).went(*final(self)),
    {
        let ghost cx = self.cx();
        let ghost goal = g_ffi_params(cx, self.pos as int, name@, Seq::empty());
        let mut params: Vec<FfiParam> = Vec::new();
        assert(ffi_params_v(params@) =~= Seq::empty());
        loop
            invariant
                self.wf(),
                old(self).wf(),
                self.same(*old(self)),
                old(self).pos <= self.pos,
                self.cx() == cx,
                g_ffi_params(cx, self.pos as int, name@, ffi_params_v(params@)) == goal,
                goal == g_ffi_params(cx, old(self).pos as int, name@, Seq::empty()),
                cx == old(self).cx(),
            decreases self.toks.len() - self.pos,
        {
            let span = self.span();
            let pname = self.ident("expected a parameter name", Some("form: `name: ty`"))?;
            self.expect(Key::Colon, "`:`")?;
            let ty = self.ffi_ty(false)?;
            if params.len() >= 8 {
                let m = cat3("`", name, "` has more than 8 parameters");
                return Err(
                    self.fail(
                        codes::SYNTAX,
                        m.as_str(),
                        Some("the C ABI convention supports up to 8 scalar parameters"),
                    ),
                );
            }
            let p = FfiParam { name: pname, ty, span };
            assert(ffi_params_v(params@.push(p)) =~= ffi_params_v(params@).push(p@));
            params.push(p);
            if !self.at(Key::Comma) {
                return Ok(params);
            }
            self.next();
            if self.at(Key::RParen) {
                return Ok(params);
            }
        }
    }

    /// Parses a signature: `fn name(p: ty, ...) -> ret;`.
    fn parse_ffi_sig(&mut self) -> (r: Result<FfiSig, ZError>)
        requires
            old(self).wf(),
        ensures
            final(self).wf(),
            final(self).same(*old(self)),
            gave(g_ffi_sig(old(self).cx(), old(self).pos as int), match r { Ok(p) => Ok(p@), Err(x) => Err(x@) }, final(self).pos),
            r is Ok ==> old(self).went(*final(self)),
    {
        self.expect(Key::Fn, "`fn`")?;
        let span = self.span();
        let name = self.ident(
            "expected a function name after `fn` in the signature block",
            Some("form: `fn name(p: ty, ...) -> ret;`"),
        )?;
        self.expect(Key::LParen, "`(`")?;
        let params = if self.at(Key::RParen) {
            let none: Vec<FfiParam> = Vec::new();
            assert(ffi_params_v(none@) =~= Seq::empty());
            none
        } else {
            self.parse_ffi_params(name.as_str())?
        };
        self.expect(Key::RParen, "`)`")?;
        self.expect(Key::Arrow, "`->`")?;
        let ret = self.ffi_ty(true)?;
        self.expect_semi()?;
        Ok(FfiSig { name, params, ret, unsupported: None, span })
    }

    /// Parses the signatures up to the closing brace of their block.
    fn parse_ffi_sigs(&mut self) -> (r: Result<Vec<FfiSig>, ZError>)
        requires
            old(self).wf(),
        ensures
            final(self).wf(),
            final(self).same(*old(self)),
            gave(g_ffi_sigs(old(self).cx(), old(self).pos as int, Seq::empty()), match r { Ok(p) => Ok(sigs_v(p@)), Err(x) => Err(x@) }, final(self).pos),
            r is Ok ==> old(self).pos <= final(self).pos,
    {
        let ghost cx = self.cx();
        let ghost goal = g_ffi_sigs(cx, self.pos as int, Seq::empty());
        let mut sigs: Vec<FfiSig> = Vec::new();
        assert(sigs_v(sigs@) =~= Seq::empty());
        while !self.at(Key::RBrace)
            invariant
                self.wf(),
                old(self).wf(),
                self.same(*old(self)),
                old(self).pos <= self.pos,
                self.cx() == cx,
                g_ffi_sigs(cx, self.pos as int, sigs_v(sigs@)) == goal,
                goal == g_ffi_sigs(cx, old(self).pos as int, Seq::empty()),
                cx == old(self).cx(),
            decreases self.toks.len() - self.pos,
        {
            let sig = self.parse_ffi_sig()?;
            assert(sigs_v(sigs@.push(sig)) =~= sigs_v(sigs@).push(sig@));
            sigs.push(sig);
        }
        Ok(sigs)
    }

    /// Parses the rest of a declaration behind its name and type.
    fn parse_decl_rest(&mut self, name: String, ty: TyName, span: Span) -> (r: Result<Stmt, ZError>)
        requires
            old(self).wf(),
        ensures
            final(self).wf(),
            final(self).same(*old(self)),
            gave(g_decl_rest(old(self).cx(), old(self).pos as int, name@, ty, span), stmt_r(r), final(self).pos),
            r is Ok ==> old(self).went(*final(self)),
    {
        let init = if self.at(Key::Assign) {
            self.next();
            Some(self.parse_expr()?)
        } else {
            None
        };
        self.expect_semi()?;
        Ok(Stmt::VarDecl { name, ty, init, span })
    }

    /// Parses `int x = 10;`.
    fn parse_decl_c(&mut self, ty: TyName) -> (r: Result<Stmt, ZError>)
        requires
            ty_of(old(self).cx().tok(old(self).pos as int)) is Some,
            old(self).wf(),
        ensures
            final(self).wf(),
            final(self).same(*old(self)),
            gave(g_decl_c(old(self).cx(), old(self).pos as int, ty), stmt_r(r), final(self).pos),
            r is Ok ==> old(self).went(*final(self)),
    {
        let span = self.span();
        self.next();
        let name = self.ident_at(
            "expected a variable name after type",
            Some("declaration form: `int x = 10;`"),
        )?;
        self.parse_decl_rest(name, ty, span)
    }

    /// Parses `x : int = 10;`.
    fn parse_decl_ts(&mut self, name: String) -> (r: Result<Stmt, ZError>)
        requires
            old(self).wf(),
        ensures
            final(self).wf(),
            final(self).same(*old(self)),
            gave(g_decl_ts(old(self).cx(), old(self).pos as int, name@), stmt_r(r), final(self).pos),
            r is Ok ==> old(self).went(*final(self)),
    {
        let span = self.span();
        self.next();
        self.expect(Key::Colon, "`:`")?;
        let ty = self.parse_type()?;
        self.parse_decl_rest(name, ty, span)
    }

    /// Parses `x = expr;`.
    fn parse_assign(&mut self, name: String) -> (r: Result<Stmt, ZError>)
        requires
            old(self).wf(),
        ensures
            final(self).wf(),
            final(self).same(*old(self)),
            gave(g_assign(old(self).cx(), old(self).pos as int, name@), stmt_r(r), final(self).pos),
            r is Ok ==> old(self).went(*final(self)),
    {
        let span = self.span();
        self.next();
        self.next();
        let value = self.parse_expr()?;
        self.expect_semi()?;
        Ok(Stmt::Assign { name, value, span })
    }

    /// Parses `expr;`.
    fn parse_expr_stmt(&mut self) -> (r: Result<Stmt, ZError>)
        requires
            old(self).wf(),
        ensures
            final(self).wf(),
            final(self).same(*old(self)),
            gave(g_expr_stmt(old(self).cx(), old(self).pos as int), stmt_r(r), final(self).pos),
            r is Ok ==> old(self).went(*final(self)),
    {
        let expr = self.parse_expr()?;
        let span = expr_span(&expr);
        self.expect_semi()?;
        Ok(Stmt::ExprStmt { expr, span })
    }

    /// Parses `debug_print(expr);`.
    fn parse_debug_print(&mut self) -> (r: Result<Stmt, ZError>)
        requires
            old(self).wf(),
        ensures
            final(self).wf(),
            final(self).same(*old(self)),
            gave(g_debug_print(old(self).cx(), old(self).pos as int), stmt_r(r), final(self).pos),
            r is Ok ==> old(self).went(*final(self)),
    {
        self.next();
        let span = self.span();
        self.next();
        let expr = self.parse_expr()?;
        self.expect(Key::RParen, "`)`")?;
        self.expect_semi()?;
        Ok(Stmt::DebugPrint { expr: Box::new(expr), span })
    }

    /// Parses `return;` or `return expr;`.
    fn parse_return(&mut self) -> (r: Result<Stmt, ZError>)
        requires
            old(self).wf(),
        ensures
            final(self).wf(),
            final(self).same(*old(self)),
            gave(g_return(old(self).cx(), old(self).pos as int), stmt_r(r), final(self).pos),
            r is Ok ==> old(self).went(*final(self)),
    {
        let span = self.span();
        self.next();
        let value = if self.at(Key::Semi) {
            None
        } else {
            Some(self.parse_expr()?)
        };
        self.expect_semi()?;
        Ok(Stmt::Return { value, span })
    }

    /// Parses `throw expr;`.
    fn parse_throw(&mut self) -> (r: Result<Stmt, ZError>)
        requires
            old(self).wf(),
        ensures
            final(self).wf(),
            final(self).same(*old(self)),
            gave(g_throw(old(self).cx(), old(self).pos as int), stmt_r(r), final(self).pos),
            r is Ok ==> old(self).went(*final(self)),
    {
        let span = self.span();
        self.next();
        let value = self.parse_expr()?;
        self.expect_semi()?;
        Ok(Stmt::Throw { value, span })
    }

    /// Parses `@export name;`.
    fn parse_export(&mut self) -> (r: Result<Stmt, ZError>)
        requires
            old(self).wf(),
        ensures
            final(self).wf(),
            final(self).same(*old(self)),
            gave(g_export(old(self).cx(), old(self).pos as int), stmt_r(r), final(self).pos),
            r is Ok ==> old(self).went(*final(self)),
    {
        let span = self.span();
        self.next();
        let at: usize = self.pos;
        self.next();
        let export = match &self.toks[at].0 {
            Tok::Ident(s) => eq(s.as_str(), "export"),
            _ => false,
        };
        if !export {
            let m = self.found_at("expected `export` after `@`", at);
            return Err(
                self.fail(
                    codes::SYNTAX,
                    m.as_str(),
                    Some("`@export` form: `@export function_name;`"),
                ),
            );
        }
        let name = self.ident(
            "expected a function name after `@export`",
            Some("`@export` form: `@export function_name;`"),
        )?;
        self.expect_semi()?;
        Ok(Stmt::Export { name, span })
    }

    /// Parses an optional `as name`.
    fn parse_as(&mut self, help: &str) -> (r: Result<Option<String>, ZError>)
        requires
            old(self).wf(),
        ensures
            final(self).wf(),
            final(self).same(*old(self)),
            gave(g_as(old(self).cx(), old(self).pos as int, help@), opt_text_r(r), final(self).pos),
            r is Ok ==> old(self).pos <= final(self).pos,
    {
        if self.at(Key::As) {
            self.next();
            let s = self.ident("expected an alias name after `as`", Some(help))?;
            Ok(Some(s))
        } else {
            Ok(None)
        }
    }

    /// Parses the optional header of a `load`.
    fn parse_from(&mut self) -> (r: Result<Option<String>, ZError>)
        requires
            old(self).wf(),
        ensures
            final(self).wf(),
            final(self).same(*old(self)),
            gave(g_from(old(self).cx(), old(self).pos as int), opt_text_r(r), final(self).pos),
            r is Ok ==> old(self).pos <= final(self).pos,
    {
        if self.at(Key::From) {
            self.next();
            let s = self.string(
                "expected a header path string after `from`",
                Some("`load \"path/to/lib\" as lib from \"path/to/header.h\";`"),
            )?;
            Ok(Some(s))
        } else {
            Ok(None)
        }
    }

    /// Parses the end of a `load`: a block of signatures, which needs an alias, or a
    /// semicolon.
    fn parse_load_end(&mut self, alias: &Option<String>) -> (r: Result<Vec<FfiSig>, ZError>)
        requires
            old(self).wf(),
        ensures
            final(self).wf(),
            final(self).same(*old(self)),
            gave(g_load_end(old(self).cx(), old(self).pos as int, opt_text(*alias)), match r { Ok(p) => Ok(sigs_v(p@)), Err(x) => Err(x@) }, final(self).pos),
            r is Ok ==> old(self).went(*final(self)),
    {
        if self.at(Key::LBrace) {
            if alias.is_none() {
                return Err(
                    self.fail(
                        codes::SYNTAX,
                        "a signature block requires an alias: `load \"path\" as lib { fn ...; }`",
                        Some("the alias is used as the call prefix, e.g. `lib.name(...)`"),
                    ),
                );
            }
            self.next();
            let sigs = self.parse_ffi_sigs()?;
            self.expect(Key::RBrace, "`}`")?;
            Ok(sigs)
        } else {
            self.expect_semi()?;
            let none: Vec<FfiSig> = Vec::new();
            assert(sigs_v(none@) =~= Seq::empty());
            Ok(none)
        }
    }

    /// Parses `load [lazy] "path" [as alias] [from "header"] [{ signatures }]`.
    fn parse_load(&mut self) -> (r: Result<Stmt, ZError>)
        requires
            old(self).wf(),
        ensures
            final(self).wf(),
            final(self).same(*old(self)),
            gave(g_load(old(self).cx(), old(self).pos as int), stmt_r(r), final(self).pos),
            r is Ok ==> old(self).went(*final(self)),
    {
        let span = self.span();
        self.next();
        let lazy = self.at(Key::Lazy);
        if lazy {
            self.next();
        }
        let path = self.string(
            "expected a library path string after `load`",
            Some("`load` form: `load \"path/to/lib\" [as lib];`"),
        )?;
        let alias = self.parse_as("`load \"path\" as lib;`")?;
        let from = self.parse_from()?;
        let sigs = self.parse_load_end(&alias)?;
        Ok(Stmt::Load { lazy, path, alias, from, sigs, span })
    }

    /// Parses `use namespace;`.
    fn parse_use(&mut self) -> (r: Result<Stmt, ZError>)
        requires
            old(self).wf(),
        ensures
            final(self).wf(),
            final(self).same(*old(self)),
            gave(g_use(old(self).cx(), old(self).pos as int), stmt_r(r), final(self).pos),
            r is Ok ==> old(self).went(*final(self)),
    {
        let span = self.span();
        self.next();
        let namespace = self.ident(
            "expected a namespace name after `use`",
            Some("`use` form: `use namespace;`"),
        )?;
        self.expect_semi()?;
        Ok(Stmt::Use { namespace, span })
    }

    /// Parses `import "name" from "url" [as alias];`.
    fn parse_import(&mut self) -> (r: Result<Stmt, ZError>)
        requires
            old(self).wf(),
        ensures
            final(self).wf(),
            final(self).same(*old(self)),
            gave(g_import(old(self).cx(), old(self).pos as int), stmt_r(r), final(self).pos),
            r is Ok ==> old(self).went(*final(self)),
    {
        let span = self.span();
        self.next();
        let name = self.string(
            "expected a module name string after `import`",
            Some("`import` form: `import \"mod\" from \"URL\";`"),
        )?;
        self.expect(Key::From, "`from`")?;
        let url = self.string(
            "expected a URL string after `from`",
            Some("`import` form: `import \"mod\" from \"URL\";`"),
        )?;
        let alias = self.parse_as("`import` form: `import \"mod\" from \"URL\" as alias;`")?;
        self.expect_semi()?;
        Ok(Stmt::Import { name, url, alias, span })
    }

    /// Parses `alias original as new_name;`.
    fn parse_alias(&mut self) -> (r: Result<Stmt, ZError>)
        requires
            old(self).wf(),
        ensures
            final(self).wf(),
            final(self).same(*old(self)),
            gave(g_alias(old(self).cx(), old(self).pos as int), stmt_r(r), final(self).pos),
            r is Ok ==> old(self).went(*final(self)),
    {
        let span = self.span();
        self.next();
        let original = self.ident(
            "expected a function name after `alias`",
            Some("`alias` form: `alias original_name as new_name;`"),
        )?;
        self.expect(Key::As, "`as`")?;
        let new_name = self.ident(
            "expected a new name after `as`",
            Some("`alias` form: `alias original_name as new_name;`"),
        )?;
        self.expect_semi()?;
        Ok(Stmt::Alias { original, new_name, span })
    }

    /// Parses `struct Name { field: type, ... };`.
    fn parse_struct_def(&mut self) -> (r: Result<Stmt, ZError>)
        requires
            old(self).wf(),
        ensures
            final(self).wf(),
            final(self).same(*old(self)),
            gave(g_struct_def(old(self).cx(), old(self).pos as int), stmt_r(r), final(self).pos),
            r is Ok ==> old(self).went(*final(self)),
    {
        let span = self.span();
        self.next();
        let name = self.ident(
            "expected a struct name after `struct`",
            Some("`struct` form: `struct Name { field: type, ... };`"),
        )?;
        self.expect(Key::LBrace, "`{`")?;
        let fields = self.parse_fields()?;
        self.expect(Key::RBrace, "`}`")?;
        self.expect_semi()?;
        Ok(Stmt::StructDef { name, fields, span })
    }

    /// Parses `go callee(args);`.
    fn parse_go(&mut self) -> (r: Result<Stmt, ZError>)
        requires
            old(self).wf(),
        ensures
            final(self).wf(),
            final(self).same(*old(self)),
            gave(g_go(old(self).cx(), old(self).pos as int), stmt_r(r), final(self).pos),
            r is Ok ==> old(self).went(*final(self)),
    {
        let span = self.span();
        self.next();
        let first = self.ident(
            "expected a function name after `go`",
            Some("`go` form: `go function_name(args);`"),
        )?;
        let parts = self.join_dotted_parts(first)?;
        self.expect(Key::LParen, "`(`")?;
        let args = self.parse_list(Key::RParen)?;
        self.expect(Key::RParen, "`)`")?;
        self.expect_semi()?;
        Ok(Stmt::Go { callee: join(&parts), args, span })
    }

    /// Parses `breakpoint;`.
    fn parse_breakpoint(&mut self) -> (r: Result<Stmt, ZError>)
        requires
            old(self).wf(),
        ensures
            final(self).wf(),
            final(self).same(*old(self)),
            gave(g_breakpoint(old(self).cx(), old(self).pos as int), stmt_r(r), final(self).pos),
            r is Ok ==> old(self).went(*final(self)),
    {
        let span = self.span();
        self.next();
        self.expect_semi()?;
        Ok(Stmt::Breakpoint { span })
    }

    /// Parses a bracketed condition.
    fn parse_cond(&mut self) -> (r: Result<Expr, ZError>)
        requires
            old(self).wf(),
        ensures
            final(self).wf(),
            final(self).same(*old(self)),
            gave(g_cond(old(self).cx(), old(self).pos as int), expr_r(r), final(self).pos),
            r is Ok ==> old(self).went(*final(self)),
    {
        self.expect(Key::LParen, "`(`")?;
        let e = self.parse_expr()?;
        self.expect(Key::RParen, "`)`")?;
        Ok(e)
    }

    /// Parses a block with both its braces.
    fn parse_block(&mut self) -> (r: Result<Vec<Stmt>, ZError>)
        requires
            old(self).wf(),
        ensures
            final(self).wf(),
            final(self).same(*old(self)),
            gave(g_block(old(self).cx(), old(self).pos as int), stmts_r(r), final(self).pos),
            r is Ok ==> old(self).went(*final(self)),
        decreases old(self).toks.len() - old(self).pos, 0nat,
    {
        self.expect(Key::LBrace, "`{`")?;
        self.parse_block_body()
    }

    /// Parses the statements of a block up to and with its closing brace.
    fn parse_block_body(&mut self) -> (r: Result<Vec<Stmt>, ZError>)
        requires
            old(self).wf(),
        ensures
            final(self).wf(),
            final(self).same(*old(self)),
            gave(g_body(old(self).cx(), old(self).pos as int, Seq::empty()), stmts_r(r), final(self).pos),
            r is Ok ==> old(self).went(*final(self)),
        decreases old(self).toks.len() - old(self).pos, 3nat,
    {
        let ghost cx = self.cx();
        let ghost goal = g_body(cx, self.pos as int, Seq::empty());
        let mut stmts: Vec<Stmt> = Vec::new();
        assert(stmts_v(stmts@) =~= Seq::empty());
        while !self.at(Key::RBrace)
            invariant
                self.wf(),
                old(self).wf(),
                self.same(*old(self)),
                old(self).pos <= self.pos,
                self.cx() == cx,
                g_body(cx, self.pos as int, stmts_v(stmts@)) == goal,
                goal == g_body(cx, old(self).pos as int, Seq::empty()),
                cx == old(self).cx(),
            decreases self.toks.len() - self.pos,
        {
            if self.at(Key::Eof) {
                return Err(
                    self.fail(
                        codes::SYNTAX,
                        "unexpected end of file, expected `}`",
                        Some("close the block with `}`"),
                    ),
                );
            }
            if self.at(Key::Semi) {
                self.next();
            } else {
                let s = self.parse_stmt()?;
                proof {
                    lemma_push_stmt(stmts@, s);
                }
                stmts.push(s);
            }
        }
        self.next();
        Ok(stmts)
    }

    /// Parses a function behind `fn`.
    fn parse_fn_body(&mut self, tmp: bool) -> (r: Result<Stmt, ZError>)
        requires
            old(self).wf(),
        ensures
            final(self).wf(),
            final(self).same(*old(self)),
            gave(g_fn(old(self).cx(), old(self).pos as int, tmp), stmt_r(r), final(self).pos),
            r is Ok ==> old(self).went(*final(self)),
        decreases old(self).toks.len() - old(self).pos, 0nat,
    {
        let span = self.span();
        let name = self.ident(
            "expected a function name after `fn`",
            Some("function form: `fn name(param1, param2) { ... }`"),
        )?;
        self.expect(Key::LParen, "`(`")?;
        let params = self.parse_params()?;
        self.expect(Key::RParen, "`)`")?;
        let ret = if self.at(Key::Arrow) {
            self.next();
            Some(self.parse_type()?)
        } else {
            None
        };
        self.expect(Key::LBrace, "`{`")?;
        let body = self.parse_block_body()?;
        Ok(Stmt::FnDef { name, params, ret, body, span, tmp })
    }

    /// Parses `if (cond) { ... } [else ...]`.
    fn parse_if(&mut self) -> (r: Result<Stmt, ZError>)
        requires
            old(self).cx().at(old(self).pos as int, Key::If),
            old(self).wf(),
        ensures
            final(self).wf(),
            final(self).same(*old(self)),
            gave(g_if(old(self).cx(), old(self).pos as int), stmt_r(r), final(self).pos),
            r is Ok ==> old(self).went(*final(self)),
        decreases old(self).toks.len() - old(self).pos, 1nat,
    {
        let span = self.span();
        self.next();
        let cond = self.parse_cond()?;
        let then_branch = self.parse_block()?;
        if !self.at(Key::Else) {
            return Ok(Stmt::If { cond, then_branch, else_branch: None, span });
        }
        self.next();
        let mut else_branch: Vec<Stmt> = Vec::new();
        if self.at(Key::If) {
            let s = self.parse_if()?;
            proof {
                assert(stmts_v(else_branch@.push(s)) =~= seq![s@]);
            }
            else_branch.push(s);
        } else {
            else_branch = self.parse_block()?;
        }
        Ok(Stmt::If { cond, then_branch, else_branch: Some(else_branch), span })
    }

    /// Parses `while (cond) { ... }`.
    fn parse_while(&mut self) -> (r: Result<Stmt, ZError>)
        requires
            old(self).cx().at(old(self).pos as int, Key::While),
            old(self).wf(),
        ensures
            final(self).wf(),
            final(self).same(*old(self)),
            gave(g_while(old(self).cx(), old(self).pos as int), stmt_r(r), final(self).pos),
            r is Ok ==> old(self).went(*final(self)),
        decreases old(self).toks.len() - old(self).pos, 1nat,
    {
        let span = self.span();
        self.next();
        let cond = self.parse_cond()?;
        let body = self.parse_block()?;
        Ok(Stmt::While { cond, body, span })
    }

    /// Parses the head of a loop behind `for`.
    fn parse_for_head(&mut self) -> (r: Result<(String, Option<String>, Expr), ZError>)
        requires
            old(self).wf(),
        ensures
            final(self).wf(),
            final(self).same(*old(self)),
            gave(g_for_head(old(self).cx(), old(self).pos as int), match r { Ok(h) => Ok((h.0@, opt_text(h.1), h.2@)), Err(x) => Err(x@) }, final(self).pos),
            r is Ok ==> old(self).went(*final(self)),
    {
        let var = self.ident(
            "expected a loop variable",
            Some("form: `for x in list { ... }`"),
        )?;
        let var2 = if self.at(Key::Comma) {
            self.next();
            let v = self.ident(
                "expected a second loop variable",
                Some("form: `for k, v in dict { ... }`"),
            )?;
            Some(v)
        } else {
            None
        };
        self.expect(Key::In, "`in`")?;
        let iter = self.parse_expr()?;
        Ok((var, var2, iter))
    }

    /// Parses `for x in expr { ... }` or `for k, v in expr { ... }`.
    fn parse_for_in(&mut self) -> (r: Result<Stmt, ZError>)
        requires
            old(self).cx().at(old(self).pos as int, Key::For),
            old(self).wf(),
        ensures
            final(self).wf(),
            final(self).same(*old(self)),
            gave(g_for_in(old(self).cx(), old(self).pos as int), stmt_r(r), final(self).pos),
            r is Ok ==> old(self).went(*final(self)),
        decreases old(self).toks.len() - old(self).pos, 1nat,
    {
        let span = self.span();
        self.next();
        let (var, var2, iter) = self.parse_for_head()?;
        let body = self.parse_block()?;
        Ok(Stmt::ForIn { var, var2, iter, body, span })
    }

    /// Parses `try { ... } catch e { ... }`.
    fn parse_try(&mut self) -> (r: Result<Stmt, ZError>)
        requires
            old(self).cx().at(old(self).pos as int, Key::Try),
            old(self).wf(),
        ensures
            final(self).wf(),
            final(self).same(*old(self)),
            gave(g_try(old(self).cx(), old(self).pos as int), stmt_r(r), final(self).pos),
            r is Ok ==> old(self).went(*final(self)),
        decreases old(self).toks.len() - old(self).pos, 1nat,
    {
        let span = self.span();
        self.next();
        let body = self.parse_block()?;
        if !self.at(Key::Catch) {
            return Err(
                self.fail(
                    codes::SYNTAX,
                    "expected `catch` after the `try` block",
                    Some("form: `try { ... } catch e { ... }`"),
                ),
            );
        }
        self.next();
        let catch_var = self.ident_at(
            "expected an error variable name after `catch`",
            Some("form: `catch e` where `e` is a new variable of type `error`"),
        )?;
        let handler = self.parse_block()?;
        Ok(Stmt::Try { body, catch_var, handler, span })
    }

    /// Parses a statement.
    fn parse_stmt(&mut self) -> (r: Result<Stmt, ZError>)
        requires
            old(self).wf(),
        ensures
            final(self).wf(),
            final(self).same(*old(self)),
            gave(g_stmt(old(self).cx(), old(self).pos as int), stmt_r(r), final(self).pos),
            r is Ok ==> old(self).went(*final(self)),
        decreases old(self).toks.len() - old(self).pos, 2nat,
    {
        let (name, key) = match &self.toks[self.pos].0 {
            Tok::Ident(s) => (Some(s.clone()), Key::Eof),
            Tok::Key(k) => (None, *k),
            _ => (None, Key::Eof),
        };
        if let Some(name) = name {
            let after: usize = if self.pos < self.toks.len() - 1 {
                self.pos + 1
            } else {
                self.pos
            };
            let second = match &self.toks[after].0 {
                Tok::Key(k) => *k,
                _ => Key::Eof,
            };
            return if second == Key::LParen && eq(name.as_str(), "debug_print") {
                self.parse_debug_print()
            } else if second == Key::Colon {
                self.parse_decl_ts(name)
            } else if second == Key::Assign {
                self.parse_assign(name)
            } else {
                self.parse_expr_stmt()
            };
        }
        match key {
            Key::TInt => self.parse_decl_c(TyName::Int),
            Key::TFloat => self.parse_decl_c(TyName::Float),
            Key::TBool => self.parse_decl_c(TyName::Bool),
            Key::TStr => self.parse_decl_c(TyName::Str),
            Key::Fn => {
                self.next();
                self.parse_fn_body(false)
            },
            Key::If => self.parse_if(),
            Key::While => self.parse_while(),
            Key::For => self.parse_for_in(),
            Key::Return => self.parse_return(),
            Key::Go => self.parse_go(),
            Key::Try => self.parse_try(),
            Key::Throw => self.parse_throw(),
            Key::Breakpoint => self.parse_breakpoint(),
            Key::LBrace => {
                let span = self.span();
                self.next();
                let stmts = self.parse_block_body()?;
                Ok(Stmt::Block { stmts, span })
            },
            Key::Semi => {
                self.next();
                self.parse_stmt()
            },
            Key::Load => self.parse_load(),
            Key::Use => self.parse_use(),
            Key::Import => self.parse_import(),
            Key::Alias => self.parse_alias(),
            Key::At => self.parse_export(),
            Key::Tmp => {
                self.next();
                self.expect(Key::Fn, "`fn`")?;
                self.parse_fn_body(true)
            },
            Key::Struct => self.parse_struct_def(),
            _ => {
                let m = self.found_at("expected a statement", self.pos);
                Err(
                    self.fail(
                        codes::SYNTAX,
                        m.as_str(),
                        Some(
                            "statements start with an identifier, `fn`, `if`, `while`, `return`, `go`, `breakpoint` or `{`",
                        ),
                    ),
                )
            },
        }
    }

    /// Parses the statements of a program.
    fn parse_program(&mut self) -> (r: Result<Vec<Stmt>, ZError>)
        requires
            old(self).wf(),
        ensures
            stmts_r(r) == g_program(old(self).cx(), old(self).pos as int, Seq::empty()),
    {
        let ghost cx = self.cx();
        let ghost goal = g_program(cx, self.pos as int, Seq::empty());
        let mut stmts: Vec<Stmt> = Vec::new();
        assert(stmts_v(stmts@) =~= Seq::empty());
        while !self.at(Key::Eof)
            invariant
                self.wf(),
                old(self).wf(),
                self.same(*old(self)),
                old(self).pos <= self.pos,
                self.cx() == cx,
                g_program(cx, self.pos as int, stmts_v(stmts@)) == goal,
                goal == g_program(cx, old(self).pos as int, Seq::empty()),
                cx == old(self).cx(),
            decreases self.toks.len() - self.pos,
        {
            if self.at(Key::Semi) {
                self.next();
            } else {
                let s = self.parse_stmt()?;
                proof {
                    lemma_push_stmt(stmts@, s);
                }
                stmts.push(s);
            }
        }
        Ok(stmts)
    }
}

/// The access to the members `parts[1..]` of the variable `parts[0]`.
fn chain(parts: &Vec<String>, span: Span) -> (r: Expr)
    requires
        parts.len() > 0,
    ensures
        r@ == field_chain(strs(parts@), span),
{
    let ghost ps = strs(parts@);
    let mut e = Expr::Ident { name: parts[0].clone(), span };
    let mut i: usize = 1;
    assert(ps.take(1)[0] == parts@[0]@);
    while i < parts.len()
        invariant
            1 <= i <= parts.len(),
            ps == strs(parts@),
            e@ == field_chain(ps.take(i as int), span),
        decreases parts.len() - i,
    {
        proof {
            assert(ps.take(i + 1).drop_last() =~= ps.take(i as int));
            assert(ps.take(i + 1).last() == parts@[i as int]@);
        }
        e = Expr::Field { obj: Box::new(e), field: parts[i].clone(), span };
        i = i + 1;
    }
    assert(ps.take(i as int) =~= ps);
    e
}

} // verus!
