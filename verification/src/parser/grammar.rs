//! The grammar: what a row of tokens means, as functions from a position to a piece of
//! syntax and the position behind it.

use vstd::prelude::*;

use crate::ast::{BinOp, ExprV, FfiParamV, FfiSigV, FfiTy, ParamV, SegV, StmtV, TyName, UnOp};
use crate::error::{codes, err_at, err_plain, ErrV};
use crate::lexer::{tokenized, Key, PartV, Span, TokV};
use crate::text::replaced;

verus! {

/// What a position is a position of: the file, its text and its tokens.
pub struct Cx {
    pub file: Seq<char>,
    pub src: Seq<char>,
    pub toks: Seq<(TokV, Span)>,
}

/// The length of a mark: at least one.
pub open spec fn mark_len(n: usize) -> nat {
    if n == 0 {
        1
    } else {
        n as nat
    }
}

impl Cx {
    /// The token at a position.
    pub open spec fn tok(self, pos: int) -> TokV {
        self.toks[pos].0
    }

    /// The place of the token at a position.
    pub open spec fn span(self, pos: int) -> Span {
        self.toks[pos].1
    }

    /// The position behind a position: the last token is never left.
    pub open spec fn next(self, pos: int) -> int {
        if pos < self.toks.len() - 1 {
            pos + 1
        } else {
            pos
        }
    }

    /// Whether a position holds a given token.
    pub open spec fn at(self, pos: int, k: Key) -> bool {
        self.tok(pos) == TokV::Key(k)
    }

    /// Whether parsing from `pos` to `p` went on, within the text.
    pub open spec fn on(self, pos: int, p: int) -> bool {
        pos < p < self.toks.len()
    }

    /// An error at a place.
    pub open spec fn fail_at(
        self,
        span: Span,
        code: Seq<char>,
        msg: Seq<char>,
        help: Option<Seq<char>>,
    ) -> ErrV {
        err_at(
            code,
            msg,
            self.file,
            self.src,
            span.line as nat,
            span.col as nat,
            mark_len(span.len),
            help,
        )
    }

    /// An error at the token of a position.
    pub open spec fn fail(
        self,
        pos: int,
        code: Seq<char>,
        msg: Seq<char>,
        help: Option<Seq<char>>,
    ) -> ErrV {
        self.fail_at(self.span(pos), code, msg, help)
    }

    /// The place of an unexpected end: never reached by the rows of tokens that the
    /// scanner makes.
    pub open spec fn stuck(self) -> ErrV {
        err_plain(codes::SYNTAX@, Seq::empty(), None)
    }
}

/// The error message of an unexpected token.
pub open spec fn found(what: Seq<char>, t: TokV) -> Seq<char> {
    what + ", found "@ + t.describe()
}

/// A token that must stand at a position.
pub open spec fn g_expect(cx: Cx, pos: int, k: Key, what: Seq<char>) -> Result<int, ErrV> {
    if cx.at(pos, k) {
        Ok(cx.next(pos))
    } else {
        Err(
            cx.fail(
                pos,
                codes::SYNTAX@,
                found("expected "@ + what, cx.tok(pos)),
                Some("insert `"@ + k.text() + "` here"@),
            ),
        )
    }
}

/// The semicolon at the end of a statement.
pub open spec fn g_semi(cx: Cx, pos: int) -> Result<int, ErrV> {
    if cx.at(pos, Key::Semi) {
        Ok(cx.next(pos))
    } else {
        Err(
            cx.fail(
                pos,
                codes::MISSING_SEMI@,
                found("expected `;`"@, cx.tok(pos)),
                Some("insert `;` at the end of the statement"@),
            ),
        )
    }
}

/// An identifier; another token is reported at the token behind it.
pub open spec fn g_ident(cx: Cx, pos: int, msg: Seq<char>, help: Option<Seq<char>>) -> Result<
    (Seq<char>, int),
    ErrV,
> {
    match cx.tok(pos) {
        TokV::Ident(s) => Ok((s, cx.next(pos))),
        t => Err(cx.fail(cx.next(pos), codes::SYNTAX@, found(msg, t), help)),
    }
}

/// An identifier; another token is reported where it stands.
pub open spec fn g_ident_at(cx: Cx, pos: int, msg: Seq<char>, help: Option<Seq<char>>) -> Result<
    (Seq<char>, int),
    ErrV,
> {
    match cx.tok(pos) {
        TokV::Ident(s) => Ok((s, cx.next(pos))),
        t => Err(cx.fail(pos, codes::SYNTAX@, found(msg, t), help)),
    }
}

/// A text literal; another token is reported at the token behind it.
pub open spec fn g_string(cx: Cx, pos: int, msg: Seq<char>, help: Option<Seq<char>>) -> Result<
    (Seq<char>, int),
    ErrV,
> {
    match cx.tok(pos) {
        TokV::StrLit(s) => Ok((s, cx.next(pos))),
        t => Err(cx.fail(cx.next(pos), codes::SYNTAX@, found(msg, t), help)),
    }
}

/// The type that a token names.
pub open spec fn ty_of(t: TokV) -> Option<TyName> {
    match t {
        TokV::Key(Key::TInt) => Some(TyName::Int),
        TokV::Key(Key::TFloat) => Some(TyName::Float),
        TokV::Key(Key::TBool) => Some(TyName::Bool),
        TokV::Key(Key::TStr) => Some(TyName::Str),
        _ => None,
    }
}

/// The name of a type.
pub open spec fn ty_text(t: TyName) -> Seq<char> {
    match t {
        TyName::Int => "int"@,
        TyName::Float => "float"@,
        TyName::Bool => "bool"@,
        TyName::Str => "str"@,
    }
}

/// A type.
pub open spec fn g_type(cx: Cx, pos: int) -> Result<(TyName, int), ErrV> {
    match ty_of(cx.tok(pos)) {
        Some(ty) => Ok((ty, cx.next(pos))),
        None => Err(
            cx.fail(
                cx.next(pos),
                codes::SYNTAX@,
                found("expected a type name (`int`/`float`/`bool`/`str`)"@, cx.tok(pos)),
                None,
            ),
        ),
    }
}

/// The name that a token is as a member: an identifier, a type or `load`.
pub open spec fn member_of(t: TokV) -> Option<Seq<char>> {
    match t {
        TokV::Ident(s) => Some(s),
        TokV::Key(Key::Load) => Some("load"@),
        _ => match ty_of(t) {
            Some(ty) => Some(ty_text(ty)),
            None => None,
        },
    }
}

/// The members behind a name: `.b.c`, each added to `parts`.
pub open spec fn g_dotted(cx: Cx, pos: int, parts: Seq<Seq<char>>) -> Result<
    (Seq<Seq<char>>, int),
    ErrV,
>
    decreases cx.toks.len() - pos,
{
    if !cx.at(pos, Key::Dot) {
        Ok((parts, pos))
    } else {
        let p = cx.next(pos);
        match member_of(cx.tok(p)) {
            Some(m) => if cx.on(pos, cx.next(p)) {
                g_dotted(cx, cx.next(p), parts.push(m))
            } else {
                Err(cx.stuck())
            },
            None => Err(
                cx.fail(
                    p,
                    codes::SYNTAX@,
                    found("expected an identifier after `.`"@, cx.tok(p)),
                    None,
                ),
            ),
        }
    }
}

/// Names joined by dots.
pub open spec fn joined(parts: Seq<Seq<char>>) -> Seq<char>
    decreases parts.len(),
{
    if parts.len() == 0 {
        Seq::empty()
    } else if parts.len() == 1 {
        parts[0]
    } else {
        joined(parts.drop_last()) + "."@ + parts.last()
    }
}

/// The access to the members `parts[1..]` of the variable `parts[0]`.
pub open spec fn field_chain(parts: Seq<Seq<char>>, span: Span) -> ExprV
    decreases parts.len(),
{
    if parts.len() <= 1 {
        ExprV::Ident { name: parts[0], span }
    } else {
        ExprV::Field {
            obj: Box::new(field_chain(parts.drop_last(), span)),
            field: parts.last(),
            span,
        }
    }
}

/// The infix operator of a token at a level of precedence: `||` (the loosest) is on
/// level five, then `&&`, equality, comparison, sums and products.
pub open spec fn infix(level: nat, t: TokV) -> Option<BinOp> {
    match t {
        TokV::Key(k) => if level == 0 {
            match k {
                Key::Star => Some(BinOp::Mul),
                Key::Slash => Some(BinOp::Div),
                Key::Percent => Some(BinOp::Mod),
                _ => None,
            }
        } else if level == 1 {
            match k {
                Key::Plus => Some(BinOp::Add),
                Key::Minus => Some(BinOp::Sub),
                _ => None,
            }
        } else if level == 2 {
            match k {
                Key::Lt => Some(BinOp::Lt),
                Key::Le => Some(BinOp::Le),
                Key::Gt => Some(BinOp::Gt),
                Key::Ge => Some(BinOp::Ge),
                _ => None,
            }
        } else if level == 3 {
            match k {
                Key::EqEq => Some(BinOp::Eq),
                Key::NotEq => Some(BinOp::Ne),
                _ => None,
            }
        } else if level == 4 {
            if k == Key::AndAnd {
                Some(BinOp::And)
            } else {
                None
            }
        } else if level == 5 {
            if k == Key::OrOr {
                Some(BinOp::Or)
            } else {
                None
            }
        } else {
            None
        },
        _ => None,
    }
}

/// An expression: operators, then pipes.
pub open spec fn g_expr(cx: Cx, pos: int) -> Result<(ExprV, int), ErrV>
    decreases cx.src.len(), cx.toks.len() - pos, 20nat,
{
    match g_binary(cx, pos, 5) {
        Ok((e, p)) => if cx.on(pos, p) {
            g_pipes(cx, p, e)
        } else {
            Err(cx.stuck())
        },
        Err(x) => Err(x),
    }
}

/// The pipes behind an expression: `x |> f(a)` is the call `f(x, a)`.
pub open spec fn g_pipes(cx: Cx, pos: int, lhs: ExprV) -> Result<(ExprV, int), ErrV>
    decreases cx.src.len(), cx.toks.len() - pos, 1nat,
{
    if !cx.at(pos, Key::Pipe) {
        Ok((lhs, pos))
    } else {
        let p0 = cx.next(pos);
        match g_ident_at(
            cx,
            p0,
            "expected a function name after `|>`"@,
            Some("pipe form: `x |> f` or `x |> f(a, b)`"@),
        ) {
            Err(x) => Err(x),
            Ok((first, p1)) => match g_dotted(cx, p1, seq![first]) {
                Err(x) => Err(x),
                Ok((parts, p2)) => if !cx.on(pos, p2) {
                    Err(cx.stuck())
                } else if cx.at(p2, Key::LParen) {
                    match g_list(cx, cx.next(p2), Key::RParen, Seq::empty()) {
                        Err(x) => Err(x),
                        Ok((args, p3)) => match g_expect(cx, p3, Key::RParen, "`)`"@) {
                            Err(x) => Err(x),
                            Ok(p4) => if cx.on(pos, p4) {
                                g_pipes(
                                    cx,
                                    p4,
                                    ExprV::Call {
                                        callee: joined(parts),
                                        args: seq![lhs] + args,
                                        span: cx.span(pos),
                                    },
                                )
                            } else {
                                Err(cx.stuck())
                            },
                        },
                    }
                } else {
                    g_pipes(
                        cx,
                        p2,
                        ExprV::Call { callee: joined(parts), args: seq![lhs], span: cx.span(pos) },
                    )
                },
            },
        }
    }
}

/// An operand of the operators of a level.
pub open spec fn g_operand(cx: Cx, pos: int, level: nat) -> Result<(ExprV, int), ErrV>
    decreases cx.src.len(), cx.toks.len() - pos, 2 * level + 2,
{
    if level == 0 {
        g_unary(cx, pos)
    } else {
        g_binary(cx, pos, (level - 1) as nat)
    }
}

/// Operands joined by the operators of a level, to the left.
pub open spec fn g_binary(cx: Cx, pos: int, level: nat) -> Result<(ExprV, int), ErrV>
    decreases cx.src.len(), cx.toks.len() - pos, 2 * level + 3,
{
    match g_operand(cx, pos, level) {
        Ok((e, p)) => if cx.on(pos, p) {
            g_binary_tail(cx, p, level, e)
        } else {
            Err(cx.stuck())
        },
        Err(x) => Err(x),
    }
}

/// The operators of a level behind an operand.
pub open spec fn g_binary_tail(cx: Cx, pos: int, level: nat, lhs: ExprV) -> Result<
    (ExprV, int),
    ErrV,
>
    decreases cx.src.len(), cx.toks.len() - pos, 1nat,
{
    match infix(level, cx.tok(pos)) {
        None => Ok((lhs, pos)),
        Some(op) => if !cx.on(pos, cx.next(pos)) {
            Err(cx.stuck())
        } else {
            match g_operand(cx, cx.next(pos), level) {
                Err(x) => Err(x),
                Ok((rhs, p)) => if cx.on(pos, p) {
                    g_binary_tail(
                        cx,
                        p,
                        level,
                        ExprV::Binary {
                            op,
                            lhs: Box::new(lhs),
                            rhs: Box::new(rhs),
                            span: cx.span(pos),
                        },
                    )
                } else {
                    Err(cx.stuck())
                },
            }
        },
    }
}

/// The prefix operator of a token.
pub open spec fn prefix(t: TokV) -> Option<UnOp> {
    match t {
        TokV::Key(Key::Minus) => Some(UnOp::Neg),
        TokV::Key(Key::Bang) => Some(UnOp::Not),
        _ => None,
    }
}

/// Prefix operators in front of a primary expression.
pub open spec fn g_unary(cx: Cx, pos: int) -> Result<(ExprV, int), ErrV>
    decreases cx.src.len(), cx.toks.len() - pos, 1nat,
{
    match prefix(cx.tok(pos)) {
        Some(op) => if !cx.on(pos, cx.next(pos)) {
            Err(cx.stuck())
        } else {
            match g_unary(cx, cx.next(pos)) {
                Ok((e, p)) => Ok((ExprV::Unary { op, expr: Box::new(e), span: cx.span(pos) }, p)),
                Err(x) => Err(x),
            }
        },
        None => g_primary(cx, pos),
    }
}

/// A literal, a name, a call, a bracketed expression, a list, a dictionary or a match.
pub open spec fn g_primary(cx: Cx, pos: int) -> Result<(ExprV, int), ErrV>
    decreases cx.src.len(), cx.toks.len() - pos, 0nat,
{
    let span = cx.span(pos);
    let p = cx.next(pos);
    match cx.tok(pos) {
        TokV::IntLit(n) => Ok((ExprV::IntLit(n, span), p)),
        TokV::FloatLit(t) => Ok((ExprV::FloatLit(t, span), p)),
        TokV::StrLit(s) => Ok((ExprV::StrLit(s, span), p)),
        TokV::FStr(parts) => if pos >= cx.toks.len() {
            Err(cx.stuck())
        } else {
            match g_segs(cx, parts, span) {
                Ok(segs) => Ok((ExprV::FStr(segs, span), p)),
                Err(x) => Err(x),
            }
        },
        TokV::Ident(first) => match g_dotted(cx, p, seq![first]) {
            Err(x) => Err(x),
            Ok((parts, p1)) => if cx.at(p1, Key::LParen) {
                if !cx.on(pos, cx.next(p1)) {
                    Err(cx.stuck())
                } else {
                    match g_list(cx, cx.next(p1), Key::RParen, Seq::empty()) {
                        Err(x) => Err(x),
                        Ok((args, p2)) => match g_expect(cx, p2, Key::RParen, "`)`"@) {
                            Err(x) => Err(x),
                            Ok(p3) => Ok(
                                (ExprV::Call { callee: joined(parts), args, span }, p3),
                            ),
                        },
                    }
                }
            } else {
                Ok((field_chain(parts, span), p1))
            },
        },
        TokV::Key(k) => if k == Key::True {
            Ok((ExprV::BoolLit(true, span), p))
        } else if k == Key::False {
            Ok((ExprV::BoolLit(false, span), p))
        } else if ty_of(TokV::Key(k)) is Some {
            Ok((ExprV::StrLit(ty_text(ty_of(TokV::Key(k))->0), span), p))
        } else if (k == Key::LBracket || k == Key::LBrace || k == Key::LParen || k == Key::Match)
            && !cx.on(pos, p) {
            Err(cx.stuck())
        } else if k == Key::LBracket {
            match g_list(cx, p, Key::RBracket, Seq::empty()) {
                Err(x) => Err(x),
                Ok((items, p1)) => match g_expect(cx, p1, Key::RBracket, "`]`"@) {
                    Err(x) => Err(x),
                    Ok(p2) => Ok((ExprV::ListLit(items, span), p2)),
                },
            }
        } else if k == Key::LBrace {
            match g_entries(cx, p, Seq::empty()) {
                Err(x) => Err(x),
                Ok((entries, p1)) => match g_expect(cx, p1, Key::RBrace, "`}`"@) {
                    Err(x) => Err(x),
                    Ok(p2) => Ok((ExprV::DictLit(entries, span), p2)),
                },
            }
        } else if k == Key::LParen {
            match g_expr(cx, p) {
                Err(x) => Err(x),
                Ok((e, p1)) => match g_expect(cx, p1, Key::RParen, "`)`"@) {
                    Err(x) => Err(x),
                    Ok(p2) => Ok((e, p2)),
                },
            }
        } else if k == Key::Match {
            g_match(cx, p, span)
        } else {
            Err(
                cx.fail(
                    p,
                    codes::SYNTAX@,
                    found("expected an expression"@, cx.tok(pos)),
                    Some("an expression is a literal, a variable name, or a function call"@),
                ),
            )
        },
    }
}

/// The expressions up to the token `close`, behind those in `items`: between two of
/// them stands a comma, and one more comma may end the list.
pub open spec fn g_list(cx: Cx, pos: int, close: Key, items: Seq<ExprV>) -> Result<
    (Seq<ExprV>, int),
    ErrV,
>
    decreases cx.src.len(), cx.toks.len() - pos, 21nat,
{
    if cx.at(pos, close) {
        Ok((items, pos))
    } else {
        match g_expr(cx, pos) {
            Err(x) => Err(x),
            Ok((e, p)) => if !cx.at(p, Key::Comma) {
                Ok((items.push(e), p))
            } else if cx.on(pos, cx.next(p)) {
                g_list(cx, cx.next(p), close, items.push(e))
            } else {
                Err(cx.stuck())
            },
        }
    }
}

/// The entries of a dictionary up to its closing brace, behind those in `entries`.
pub open spec fn g_entries(cx: Cx, pos: int, entries: Seq<(Seq<char>, ExprV)>) -> Result<
    (Seq<(Seq<char>, ExprV)>, int),
    ErrV,
>
    decreases cx.src.len(), cx.toks.len() - pos, 21nat,
{
    if cx.at(pos, Key::RBrace) {
        Ok((entries, pos))
    } else {
        match cx.tok(pos) {
            TokV::StrLit(key) => match g_expect(cx, cx.next(pos), Key::Colon, "`:`"@) {
                Err(x) => Err(x),
                Ok(p) => if !cx.on(pos, p) {
                    Err(cx.stuck())
                } else {
                    match g_expr(cx, p) {
                        Err(x) => Err(x),
                        Ok((e, p1)) => if !cx.at(p1, Key::Comma) {
                            Ok((entries.push((key, e)), p1))
                        } else if cx.on(pos, cx.next(p1)) {
                            g_entries(cx, cx.next(p1), entries.push((key, e)))
                        } else {
                            Err(cx.stuck())
                        },
                    }
                },
            },
            t => Err(
                cx.fail(
                    pos,
                    codes::SYNTAX@,
                    found("dict keys must be string literals"@, t),
                    Some("form: {\"key\": value, ...}"@),
                ),
            ),
        }
    }
}

/// A match, behind its keyword.
pub open spec fn g_match(cx: Cx, pos: int, span: Span) -> Result<(ExprV, int), ErrV>
    decreases cx.src.len(), cx.toks.len() - pos, 21nat,
{
    match g_expr(cx, pos) {
        Err(x) => Err(x),
        Ok((value, p)) => match g_expect(cx, p, Key::LBrace, "`{`"@) {
            Err(x) => Err(x),
            Ok(p1) => if !cx.on(pos, p1) {
                Err(cx.stuck())
            } else {
                match g_arms(cx, p1, Seq::empty(), false) {
                    Err(x) => Err(x),
                    Ok((arms, p2)) => match g_expect(cx, p2, Key::RBrace, "`}`"@) {
                        Err(x) => Err(x),
                        Ok(p3) => Ok((ExprV::Match { value: Box::new(value), arms, span }, p3)),
                    },
                }
            },
        },
    }
}

/// The pattern of an arm: a literal, or `_`, which may stand once and last.
pub open spec fn g_pattern(cx: Cx, pos: int, wild: bool) -> Result<Option<ExprV>, ErrV> {
    let span = cx.span(pos);
    let t = cx.tok(pos);
    if t == TokV::Ident("_"@) {
        if wild {
            Err(
                cx.fail_at(
                    span,
                    codes::SYNTAX@,
                    "duplicate `_` wildcard in match"@,
                    Some("`_` may only appear once, as the last arm"@),
                ),
            )
        } else {
            Ok(None)
        }
    } else {
        let pat = match t {
            TokV::IntLit(n) => Some(ExprV::IntLit(n, span)),
            TokV::FloatLit(f) => Some(ExprV::FloatLit(f, span)),
            TokV::StrLit(s) => Some(ExprV::StrLit(s, span)),
            TokV::Key(Key::True) => Some(ExprV::BoolLit(true, span)),
            TokV::Key(Key::False) => Some(ExprV::BoolLit(false, span)),
            _ => None,
        };
        if pat is None {
            Err(
                cx.fail_at(
                    span,
                    codes::SYNTAX@,
                    found("unsupported match pattern"@, t),
                    Some("patterns: literals (`1`, `\"a\"`, `true`) or `_` wildcard"@),
                ),
            )
        } else if wild {
            Err(
                cx.fail_at(
                    span,
                    codes::SYNTAX@,
                    "the `_` wildcard must be the last arm of a match"@,
                    Some("`_` may only appear once, as the last arm"@),
                ),
            )
        } else {
            Ok(pat)
        }
    }
}

/// The arms of a match up to its closing brace, behind those in `arms`; `wild` says
/// whether `_` has been seen.
pub open spec fn g_arms(
    cx: Cx,
    pos: int,
    arms: Seq<(Option<ExprV>, ExprV)>,
    wild: bool,
) -> Result<(Seq<(Option<ExprV>, ExprV)>, int), ErrV>
    decreases cx.src.len(), cx.toks.len() - pos, 21nat,
{
    if cx.at(pos, Key::RBrace) {
        Ok((arms, pos))
    } else {
        match g_pattern(cx, pos, wild) {
            Err(x) => Err(x),
            Ok(pat) => match g_expect(cx, cx.next(pos), Key::FatArrow, "`=>`"@) {
                Err(x) => Err(x),
                Ok(p) => if !cx.on(pos, p) {
                    Err(cx.stuck())
                } else {
                    match g_expr(cx, p) {
                        Err(x) => Err(x),
                        Ok((body, p1)) => if !cx.at(p1, Key::Comma) {
                            Ok((arms.push((pat, body)), p1))
                        } else if cx.on(pos, cx.next(p1)) {
                            g_arms(cx, cx.next(p1), arms.push((pat, body)), wild || pat is None)
                        } else {
                            Err(cx.stuck())
                        },
                    }
                },
            },
        }
    }
}

/// The literal text of a piece, with doubled braces read as single ones.
pub open spec fn unbraced(s: Seq<char>) -> Seq<char> {
    replaced(replaced(s, "{{"@, "{"@), "}}"@, "}"@)
}

/// The error of a piece of code in an interpolated text.
pub open spec fn seg_fail(cx: Cx, span: Span, msg: Seq<char>) -> ErrV {
    cx.fail_at(
        span,
        codes::SYNTAX@,
        "invalid expression in f-string: "@ + msg,
        Some("check the code between `{` and `}`"@),
    )
}

/// The expression of a piece of code in an interpolated text at `span`.
pub open spec fn g_code(cx: Cx, code: Seq<char>, span: Span) -> Result<ExprV, ErrV>
    decreases cx.src.len(), 0int, 0nat,
{
    match tokenized(cx.file, code) {
        Err(e) => Err(seg_fail(cx, span, e.msg)),
        Ok(toks) => {
            let inner = Cx { file: cx.file, src: code, toks };
            if code.len() >= cx.src.len() {
                Err(cx.stuck())
            } else {
                match g_expr(inner, 0) {
                    Err(e) => Err(seg_fail(cx, span, e.msg)),
                    Ok((e, p)) => if inner.at(p, Key::Eof) {
                        Ok(e)
                    } else {
                        Err(
                            cx.fail_at(
                                span,
                                codes::SYNTAX@,
                                "f-string code segment must be a single expression"@,
                                Some(
                                    "wrap compound code in parentheses, e.g. `{(a + b) * 2}`"@,
                                ),
                            ),
                        )
                    },
                }
            }
        },
    }
}

/// The pieces of an interpolated text at `span`.
pub open spec fn g_segs(cx: Cx, parts: Seq<PartV>, span: Span) -> Result<Seq<SegV>, ErrV>
    decreases cx.src.len(), 0int, parts.len(),
{
    if parts.len() == 0 {
        Ok(Seq::empty())
    } else {
        match g_segs(cx, parts.drop_last(), span) {
            Err(x) => Err(x),
            Ok(segs) => match parts.last() {
                PartV::Lit(s) => Ok(segs.push(SegV::Lit(unbraced(s)))),
                PartV::Code(code) => match g_code(cx, code, span) {
                    Err(x) => Err(x),
                    Ok(e) => Ok(segs.push(SegV::Code(e))),
                },
            },
        }
    }
}

/// A parameter: `name`, `name : type` or `type name`.
pub open spec fn g_param(cx: Cx, pos: int) -> Result<(ParamV, int), ErrV> {
    let span = cx.span(pos);
    let p = cx.next(pos);
    match cx.tok(pos) {
        TokV::Ident(name) => if cx.at(p, Key::Colon) {
            match g_type(cx, cx.next(p)) {
                Err(x) => Err(x),
                Ok((ty, p1)) => Ok((ParamV { name, ty: Some(ty), span }, p1)),
            }
        } else {
            Ok((ParamV { name, ty: None, span }, p))
        },
        t => match ty_of(t) {
            Some(ty) => match g_ident_at(cx, p, "expected a parameter name"@, None) {
                Err(x) => Err(x),
                Ok((name, p1)) => Ok((ParamV { name, ty: Some(ty), span }, p1)),
            },
            None => Err(
                cx.fail(
                    p,
                    codes::SYNTAX@,
                    found("expected a parameter"@, t),
                    Some("parameter form: `a`, `a : int`, or `int a`"@),
                ),
            ),
        },
    }
}

/// The parameters of a function up to its closing bracket, behind those in `params`.
pub open spec fn g_params(cx: Cx, pos: int, params: Seq<ParamV>) -> Result<(Seq<ParamV>, int), ErrV>
    decreases cx.toks.len() - pos,
{
    if cx.at(pos, Key::RParen) {
        Ok((params, pos))
    } else {
        match g_param(cx, pos) {
            Err(x) => Err(x),
            Ok((param, p)) => if !cx.at(p, Key::Comma) {
                Ok((params.push(param), p))
            } else if cx.on(pos, cx.next(p)) {
                g_params(cx, cx.next(p), params.push(param))
            } else {
                Err(cx.stuck())
            },
        }
    }
}

/// The fields of a struct up to its closing brace, behind those in `fields`.
pub open spec fn g_fields(cx: Cx, pos: int, fields: Seq<(Seq<char>, TyName)>) -> Result<
    (Seq<(Seq<char>, TyName)>, int),
    ErrV,
>
    decreases cx.toks.len() - pos,
{
    if cx.at(pos, Key::RBrace) {
        Ok((fields, pos))
    } else {
        match g_ident_at(
            cx,
            pos,
            "expected a field name"@,
            Some("fields look like `name: type`"@),
        ) {
            Err(x) => Err(x),
            Ok((name, p)) => match g_expect(cx, p, Key::Colon, "`:`"@) {
                Err(x) => Err(x),
                Ok(p1) => match g_type(cx, p1) {
                    Err(x) => Err(x),
                    Ok((ty, p2)) => if !cx.at(p2, Key::Comma) {
                        Ok((fields.push((name, ty)), p2))
                    } else if cx.on(pos, cx.next(p2)) {
                        g_fields(cx, cx.next(p2), fields.push((name, ty)))
                    } else {
                        Err(cx.stuck())
                    },
                },
            },
        }
    }
}

/// The C ABI type of the token at `pos`; `void` is a result only. An error is reported
/// at the token behind it.
pub open spec fn g_ffi_ty(cx: Cx, pos: int, result: bool) -> Result<(FfiTy, int), ErrV> {
    let p = cx.next(pos);
    let t = cx.tok(pos);
    if t == TokV::Key(Key::Fn) {
        Err(
            cx.fail(
                p,
                codes::SYNTAX@,
                "callback parameter types (`fn(...)`) are not supported yet"@,
                Some(
                    "declare the callback as `ptr` and pass a function pointer obtained from the library"@,
                ),
            ),
        )
    } else if t == TokV::Ident("ptr"@) {
        Ok((FfiTy::Ptr, p))
    } else if result && t == TokV::Ident("void"@) {
        Ok((FfiTy::Void, p))
    } else {
        match ty_of(t) {
            Some(TyName::Int) => Ok((FfiTy::Int, p)),
            Some(TyName::Float) => Ok((FfiTy::Float, p)),
            Some(TyName::Bool) => Ok((FfiTy::Bool, p)),
            Some(TyName::Str) => Ok((FfiTy::Str, p)),
            None => Err(
                cx.fail(
                    p,
                    codes::SYNTAX@,
                    found("expected a type name"@, t),
                    Some(
                        "supported FFI types: `int`/`float`/`bool`/`str`/`ptr`, return types also allow `void`"@,
                    ),
                ),
            ),
        }
    }
}

/// The parameters of the signature of `name`, at least one more, behind those in
/// `params`: eight at most.
pub open spec fn g_ffi_params(cx: Cx, pos: int, name: Seq<char>, params: Seq<FfiParamV>) -> Result<
    (Seq<FfiParamV>, int),
    ErrV,
>
    decreases cx.toks.len() - pos,
{
    match g_ident(cx, pos, "expected a parameter name"@, Some("form: `name: ty`"@)) {
        Err(x) => Err(x),
        Ok((pname, p)) => match g_expect(cx, p, Key::Colon, "`:`"@) {
            Err(x) => Err(x),
            Ok(p1) => match g_ffi_ty(cx, p1, false) {
                Err(x) => Err(x),
                Ok((ty, p2)) => if params.len() >= 8 {
                    Err(
                        cx.fail(
                            p2,
                            codes::SYNTAX@,
                            "`"@ + name + "` has more than 8 parameters"@,
                            Some("the C ABI convention supports up to 8 scalar parameters"@),
                        ),
                    )
                } else {
                    let more = params.push(FfiParamV { name: pname, ty, span: cx.span(pos) });
                    if !cx.at(p2, Key::Comma) {
                        Ok((more, p2))
                    } else if cx.at(cx.next(p2), Key::RParen) {
                        Ok((more, cx.next(p2)))
                    } else if cx.on(pos, cx.next(p2)) {
                        g_ffi_params(cx, cx.next(p2), name, more)
                    } else {
                        Err(cx.stuck())
                    }
                },
            },
        },
    }
}

/// A signature: `fn name(p: ty, ...) -> ret;`.
pub open spec fn g_ffi_sig(cx: Cx, pos: int) -> Result<(FfiSigV, int), ErrV> {
    match g_expect(cx, pos, Key::Fn, "`fn`"@) {
        Err(x) => Err(x),
        Ok(p) => match g_ident(
            cx,
            p,
            "expected a function name after `fn` in the signature block"@,
            Some("form: `fn name(p: ty, ...) -> ret;`"@),
        ) {
            Err(x) => Err(x),
            Ok((name, p1)) => match g_expect(cx, p1, Key::LParen, "`(`"@) {
                Err(x) => Err(x),
                Ok(p2) => {
                    let ps = if cx.at(p2, Key::RParen) {
                        Ok((Seq::empty(), p2))
                    } else {
                        g_ffi_params(cx, p2, name, Seq::empty())
                    };
                    match ps {
                        Err(x) => Err(x),
                        Ok((params, p3)) => match g_expect(cx, p3, Key::RParen, "`)`"@) {
                            Err(x) => Err(x),
                            Ok(p4) => match g_expect(cx, p4, Key::Arrow, "`->`"@) {
                                Err(x) => Err(x),
                                Ok(p5) => match g_ffi_ty(cx, p5, true) {
                                    Err(x) => Err(x),
                                    Ok((ret, p6)) => match g_semi(cx, p6) {
                                        Err(x) => Err(x),
                                        Ok(p7) => Ok(
                                            (
                                                FfiSigV {
                                                    name,
                                                    params,
                                                    ret,
                                                    unsupported: None,
                                                    span: cx.span(p),
                                                },
                                                p7,
                                            ),
                                        ),
                                    },
                                },
                            },
                        },
                    }
                },
            },
        },
    }
}

/// The signatures up to the closing brace of their block, behind those in `sigs`.
pub open spec fn g_ffi_sigs(cx: Cx, pos: int, sigs: Seq<FfiSigV>) -> Result<(Seq<FfiSigV>, int), ErrV>
    decreases cx.toks.len() - pos,
{
    if cx.at(pos, Key::RBrace) {
        Ok((sigs, pos))
    } else {
        match g_ffi_sig(cx, pos) {
            Err(x) => Err(x),
            Ok((sig, p)) => if cx.on(pos, p) {
                g_ffi_sigs(cx, p, sigs.push(sig))
            } else {
                Err(cx.stuck())
            },
        }
    }
}

/// An optional initial value: `= expr`.
pub open spec fn g_init(cx: Cx, pos: int) -> Result<(Option<ExprV>, int), ErrV> {
    if cx.at(pos, Key::Assign) {
        match g_expr(cx, cx.next(pos)) {
            Err(x) => Err(x),
            Ok((e, p)) => Ok((Some(e), p)),
        }
    } else {
        Ok((None, pos))
    }
}

/// The rest of a declaration behind its name and type: an optional initial value and
/// the semicolon.
pub open spec fn g_decl_rest(cx: Cx, pos: int, name: Seq<char>, ty: TyName, span: Span) -> Result<
    (StmtV, int),
    ErrV,
> {
    match g_init(cx, pos) {
        Err(x) => Err(x),
        Ok((init, p)) => match g_semi(cx, p) {
            Err(x) => Err(x),
            Ok(p1) => Ok((StmtV::VarDecl { name, ty, init, span }, p1)),
        },
    }
}

/// `int x = 10;`, at the type `ty`.
pub open spec fn g_decl_c(cx: Cx, pos: int, ty: TyName) -> Result<(StmtV, int), ErrV> {
    match g_ident_at(
        cx,
        cx.next(pos),
        "expected a variable name after type"@,
        Some("declaration form: `int x = 10;`"@),
    ) {
        Err(x) => Err(x),
        Ok((name, p)) => g_decl_rest(cx, p, name, ty, cx.span(pos)),
    }
}

/// `x : int = 10;`.
pub open spec fn g_decl_ts(cx: Cx, pos: int, name: Seq<char>) -> Result<(StmtV, int), ErrV> {
    match g_expect(cx, cx.next(pos), Key::Colon, "`:`"@) {
        Err(x) => Err(x),
        Ok(p) => match g_type(cx, p) {
            Err(x) => Err(x),
            Ok((ty, p1)) => g_decl_rest(cx, p1, name, ty, cx.span(pos)),
        },
    }
}

/// `x = expr;`.
pub open spec fn g_assign(cx: Cx, pos: int, name: Seq<char>) -> Result<(StmtV, int), ErrV> {
    match g_expr(cx, cx.next(cx.next(pos))) {
        Err(x) => Err(x),
        Ok((value, p)) => match g_semi(cx, p) {
            Err(x) => Err(x),
            Ok(p1) => Ok((StmtV::Assign { name, value, span: cx.span(pos) }, p1)),
        },
    }
}

/// `expr;`.
pub open spec fn g_expr_stmt(cx: Cx, pos: int) -> Result<(StmtV, int), ErrV> {
    match g_expr(cx, pos) {
        Err(x) => Err(x),
        Ok((expr, p)) => match g_semi(cx, p) {
            Err(x) => Err(x),
            Ok(p1) => Ok((StmtV::ExprStmt { expr, span: expr.span() }, p1)),
        },
    }
}

/// `debug_print(expr);`.
pub open spec fn g_debug_print(cx: Cx, pos: int) -> Result<(StmtV, int), ErrV> {
    let open = cx.next(pos);
    match g_expr(cx, cx.next(open)) {
        Err(x) => Err(x),
        Ok((expr, p)) => match g_expect(cx, p, Key::RParen, "`)`"@) {
            Err(x) => Err(x),
            Ok(p1) => match g_semi(cx, p1) {
                Err(x) => Err(x),
                Ok(p2) => Ok((StmtV::DebugPrint { expr, span: cx.span(open) }, p2)),
            },
        },
    }
}

/// `return;` or `return expr;`.
pub open spec fn g_return(cx: Cx, pos: int) -> Result<(StmtV, int), ErrV> {
    let p = cx.next(pos);
    let value = if cx.at(p, Key::Semi) {
        Ok((None, p))
    } else {
        match g_expr(cx, p) {
            Err(x) => Err(x),
            Ok((e, p1)) => Ok((Some(e), p1)),
        }
    };
    match value {
        Err(x) => Err(x),
        Ok((value, p1)) => match g_semi(cx, p1) {
            Err(x) => Err(x),
            Ok(p2) => Ok((StmtV::Return { value, span: cx.span(pos) }, p2)),
        },
    }
}

/// `throw expr;`.
pub open spec fn g_throw(cx: Cx, pos: int) -> Result<(StmtV, int), ErrV> {
    match g_expr(cx, cx.next(pos)) {
        Err(x) => Err(x),
        Ok((value, p)) => match g_semi(cx, p) {
            Err(x) => Err(x),
            Ok(p1) => Ok((StmtV::Throw { value, span: cx.span(pos) }, p1)),
        },
    }
}

/// `@export name;`.
pub open spec fn g_export(cx: Cx, pos: int) -> Result<(StmtV, int), ErrV> {
    let p = cx.next(pos);
    let form = Some("`@export` form: `@export function_name;`"@);
    if cx.tok(p) != TokV::Ident("export"@) {
        Err(
            cx.fail(
                cx.next(p),
                codes::SYNTAX@,
                found("expected `export` after `@`"@, cx.tok(p)),
                form,
            ),
        )
    } else {
        match g_ident(cx, cx.next(p), "expected a function name after `@export`"@, form) {
            Err(x) => Err(x),
            Ok((name, p1)) => match g_semi(cx, p1) {
                Err(x) => Err(x),
                Ok(p2) => Ok((StmtV::Export { name, span: cx.span(pos) }, p2)),
            },
        }
    }
}

/// An optional `as name`.
pub open spec fn g_as(cx: Cx, pos: int, help: Seq<char>) -> Result<(Option<Seq<char>>, int), ErrV> {
    if cx.at(pos, Key::As) {
        match g_ident(cx, cx.next(pos), "expected an alias name after `as`"@, Some(help)) {
            Err(x) => Err(x),
            Ok((s, p)) => Ok((Some(s), p)),
        }
    } else {
        Ok((None, pos))
    }
}

/// The optional header of a `load`: `from "path"`.
pub open spec fn g_from(cx: Cx, pos: int) -> Result<(Option<Seq<char>>, int), ErrV> {
    if cx.at(pos, Key::From) {
        match g_string(
            cx,
            cx.next(pos),
            "expected a header path string after `from`"@,
            Some("`load \"path/to/lib\" as lib from \"path/to/header.h\";`"@),
        ) {
            Err(x) => Err(x),
            Ok((s, p)) => Ok((Some(s), p)),
        }
    } else {
        Ok((None, pos))
    }
}

/// The end of a `load`: a block of signatures, which needs an alias, or a semicolon.
pub open spec fn g_load_end(cx: Cx, pos: int, alias: Option<Seq<char>>) -> Result<
    (Seq<FfiSigV>, int),
    ErrV,
> {
    if cx.at(pos, Key::LBrace) {
        if alias is None {
            Err(
                cx.fail(
                    pos,
                    codes::SYNTAX@,
                    "a signature block requires an alias: `load \"path\" as lib { fn ...; }`"@,
                    Some("the alias is used as the call prefix, e.g. `lib.name(...)`"@),
                ),
            )
        } else {
            match g_ffi_sigs(cx, cx.next(pos), Seq::empty()) {
                Err(x) => Err(x),
                Ok((sigs, p)) => match g_expect(cx, p, Key::RBrace, "`}`"@) {
                    Err(x) => Err(x),
                    Ok(p1) => Ok((sigs, p1)),
                },
            }
        }
    } else {
        match g_semi(cx, pos) {
            Err(x) => Err(x),
            Ok(p) => Ok((Seq::empty(), p)),
        }
    }
}

/// `load [lazy] "path" [as alias] [from "header"] [{ signatures }]`.
pub open spec fn g_load(cx: Cx, pos: int) -> Result<(StmtV, int), ErrV> {
    let p = cx.next(pos);
    let lazy = cx.at(p, Key::Lazy);
    let p0 = if lazy { cx.next(p) } else { p };
    match g_string(
        cx,
        p0,
        "expected a library path string after `load`"@,
        Some("`load` form: `load \"path/to/lib\" [as lib];`"@),
    ) {
        Err(x) => Err(x),
        Ok((path, p1)) => match g_as(cx, p1, "`load \"path\" as lib;`"@) {
            Err(x) => Err(x),
            Ok((alias, p2)) => match g_from(cx, p2) {
                Err(x) => Err(x),
                Ok((from, p3)) => match g_load_end(cx, p3, alias) {
                    Err(x) => Err(x),
                    Ok((sigs, p4)) => Ok(
                        (StmtV::Load { lazy, path, alias, from, sigs, span: cx.span(pos) }, p4),
                    ),
                },
            },
        },
    }
}

/// `use namespace;`.
pub open spec fn g_use(cx: Cx, pos: int) -> Result<(StmtV, int), ErrV> {
    match g_ident(
        cx,
        cx.next(pos),
        "expected a namespace name after `use`"@,
        Some("`use` form: `use namespace;`"@),
    ) {
        Err(x) => Err(x),
        Ok((namespace, p)) => match g_semi(cx, p) {
            Err(x) => Err(x),
            Ok(p1) => Ok((StmtV::Use { namespace, span: cx.span(pos) }, p1)),
        },
    }
}

/// `import "name" from "url" [as alias];`.
pub open spec fn g_import(cx: Cx, pos: int) -> Result<(StmtV, int), ErrV> {
    let form = "`import` form: `import \"mod\" from \"URL\";`"@;
    match g_string(
        cx,
        cx.next(pos),
        "expected a module name string after `import`"@,
        Some(form),
    ) {
        Err(x) => Err(x),
        Ok((name, p)) => match g_expect(cx, p, Key::From, "`from`"@) {
            Err(x) => Err(x),
            Ok(p1) => match g_string(cx, p1, "expected a URL string after `from`"@, Some(form)) {
                Err(x) => Err(x),
                Ok((url, p2)) => match g_as(
                    cx,
                    p2,
                    "`import` form: `import \"mod\" from \"URL\" as alias;`"@,
                ) {
                    Err(x) => Err(x),
                    Ok((alias, p3)) => match g_semi(cx, p3) {
                        Err(x) => Err(x),
                        Ok(p4) => Ok(
                            (StmtV::Import { name, url, alias, span: cx.span(pos) }, p4),
                        ),
                    },
                },
            },
        },
    }
}

/// `alias original as new_name;`.
pub open spec fn g_alias(cx: Cx, pos: int) -> Result<(StmtV, int), ErrV> {
    let form = Some("`alias` form: `alias original_name as new_name;`"@);
    match g_ident(cx, cx.next(pos), "expected a function name after `alias`"@, form) {
        Err(x) => Err(x),
        Ok((original, p)) => match g_expect(cx, p, Key::As, "`as`"@) {
            Err(x) => Err(x),
            Ok(p1) => match g_ident(cx, p1, "expected a new name after `as`"@, form) {
                Err(x) => Err(x),
                Ok((new_name, p2)) => match g_semi(cx, p2) {
                    Err(x) => Err(x),
                    Ok(p3) => Ok((StmtV::Alias { original, new_name, span: cx.span(pos) }, p3)),
                },
            },
        },
    }
}

/// `struct Name { field: type, ... };`.
pub open spec fn g_struct_def(cx: Cx, pos: int) -> Result<(StmtV, int), ErrV> {
    match g_ident(
        cx,
        cx.next(pos),
        "expected a struct name after `struct`"@,
        Some("`struct` form: `struct Name { field: type, ... };`"@),
    ) {
        Err(x) => Err(x),
        Ok((name, p)) => match g_expect(cx, p, Key::LBrace, "`{`"@) {
            Err(x) => Err(x),
            Ok(p1) => match g_fields(cx, p1, Seq::empty()) {
                Err(x) => Err(x),
                Ok((fields, p2)) => match g_expect(cx, p2, Key::RBrace, "`}`"@) {
                    Err(x) => Err(x),
                    Ok(p3) => match g_semi(cx, p3) {
                        Err(x) => Err(x),
                        Ok(p4) => Ok((StmtV::StructDef { name, fields, span: cx.span(pos) }, p4)),
                    },
                },
            },
        },
    }
}

/// `go callee(args);`.
pub open spec fn g_go(cx: Cx, pos: int) -> Result<(StmtV, int), ErrV> {
    match g_ident(
        cx,
        cx.next(pos),
        "expected a function name after `go`"@,
        Some("`go` form: `go function_name(args);`"@),
    ) {
        Err(x) => Err(x),
        Ok((first, p)) => match g_dotted(cx, p, seq![first]) {
            Err(x) => Err(x),
            Ok((parts, p1)) => match g_expect(cx, p1, Key::LParen, "`(`"@) {
                Err(x) => Err(x),
                Ok(p2) => match g_list(cx, p2, Key::RParen, Seq::empty()) {
                    Err(x) => Err(x),
                    Ok((args, p3)) => match g_expect(cx, p3, Key::RParen, "`)`"@) {
                        Err(x) => Err(x),
                        Ok(p4) => match g_semi(cx, p4) {
                            Err(x) => Err(x),
                            Ok(p5) => Ok(
                                (
                                    StmtV::Go { callee: joined(parts), args, span: cx.span(pos) },
                                    p5,
                                ),
                            ),
                        },
                    },
                },
            },
        },
    }
}

/// `breakpoint;`.
pub open spec fn g_breakpoint(cx: Cx, pos: int) -> Result<(StmtV, int), ErrV> {
    match g_semi(cx, cx.next(pos)) {
        Err(x) => Err(x),
        Ok(p) => Ok((StmtV::Breakpoint { span: cx.span(pos) }, p)),
    }
}

/// A bracketed condition: `(expr)`.
pub open spec fn g_cond(cx: Cx, pos: int) -> Result<(ExprV, int), ErrV> {
    match g_expect(cx, pos, Key::LParen, "`(`"@) {
        Err(x) => Err(x),
        Ok(p) => match g_expr(cx, p) {
            Err(x) => Err(x),
            Ok((e, p1)) => match g_expect(cx, p1, Key::RParen, "`)`"@) {
                Err(x) => Err(x),
                Ok(p2) => Ok((e, p2)),
            },
        },
    }
}

/// The head of a function behind `fn`: its name, parameters and result type, up to the
/// opening brace.
pub open spec fn g_fn_head(cx: Cx, pos: int) -> Result<
    ((Seq<char>, Seq<ParamV>, Option<TyName>), int),
    ErrV,
> {
    match g_ident(
        cx,
        pos,
        "expected a function name after `fn`"@,
        Some("function form: `fn name(param1, param2) { ... }`"@),
    ) {
        Err(x) => Err(x),
        Ok((name, p)) => match g_expect(cx, p, Key::LParen, "`(`"@) {
            Err(x) => Err(x),
            Ok(p1) => match g_params(cx, p1, Seq::empty()) {
                Err(x) => Err(x),
                Ok((params, p2)) => match g_expect(cx, p2, Key::RParen, "`)`"@) {
                    Err(x) => Err(x),
                    Ok(p3) => {
                        let ret = if cx.at(p3, Key::Arrow) {
                            match g_type(cx, cx.next(p3)) {
                                Err(x) => Err(x),
                                Ok((ty, p4)) => Ok((Some(ty), p4)),
                            }
                        } else {
                            Ok((None, p3))
                        };
                        match ret {
                            Err(x) => Err(x),
                            Ok((ret, p4)) => match g_expect(cx, p4, Key::LBrace, "`{`"@) {
                                Err(x) => Err(x),
                                Ok(p5) => Ok(((name, params, ret), p5)),
                            },
                        }
                    },
                },
            },
        },
    }
}

/// The head of a loop behind `for`: its variables and what it runs over.
pub open spec fn g_for_head(cx: Cx, pos: int) -> Result<
    ((Seq<char>, Option<Seq<char>>, ExprV), int),
    ErrV,
> {
    match g_ident(
        cx,
        pos,
        "expected a loop variable"@,
        Some("form: `for x in list { ... }`"@),
    ) {
        Err(x) => Err(x),
        Ok((var, p)) => {
            let second = if cx.at(p, Key::Comma) {
                match g_ident(
                    cx,
                    cx.next(p),
                    "expected a second loop variable"@,
                    Some("form: `for k, v in dict { ... }`"@),
                ) {
                    Err(x) => Err(x),
                    Ok((v, p1)) => Ok((Some(v), p1)),
                }
            } else {
                Ok((None, p))
            };
            match second {
                Err(x) => Err(x),
                Ok((var2, p1)) => match g_expect(cx, p1, Key::In, "`in`"@) {
                    Err(x) => Err(x),
                    Ok(p2) => match g_expr(cx, p2) {
                        Err(x) => Err(x),
                        Ok((iter, p3)) => Ok(((var, var2, iter), p3)),
                    },
                },
            }
        },
    }
}

/// The statements of a block up to and with its closing brace, behind those in `stmts`.
pub open spec fn g_body(cx: Cx, pos: int, stmts: Seq<StmtV>) -> Result<(Seq<StmtV>, int), ErrV>
    decreases cx.toks.len() - pos, 3nat,
{
    if cx.at(pos, Key::RBrace) {
        Ok((stmts, cx.next(pos)))
    } else if cx.at(pos, Key::Eof) {
        Err(
            cx.fail(
                pos,
                codes::SYNTAX@,
                "unexpected end of file, expected `}`"@,
                Some("close the block with `}`"@),
            ),
        )
    } else if cx.at(pos, Key::Semi) {
        if cx.on(pos, cx.next(pos)) {
            g_body(cx, cx.next(pos), stmts)
        } else {
            Err(cx.stuck())
        }
    } else {
        match g_stmt(cx, pos) {
            Err(x) => Err(x),
            Ok((s, p)) => if cx.on(pos, p) {
                g_body(cx, p, stmts.push(s))
            } else {
                Err(cx.stuck())
            },
        }
    }
}

/// A block with both its braces.
pub open spec fn g_block(cx: Cx, pos: int) -> Result<(Seq<StmtV>, int), ErrV>
    decreases cx.toks.len() - pos, 0nat,
{
    match g_expect(cx, pos, Key::LBrace, "`{`"@) {
        Err(x) => Err(x),
        Ok(p) => if cx.on(pos, p) {
            g_body(cx, p, Seq::empty())
        } else {
            Err(cx.stuck())
        },
    }
}

/// A function behind `fn`.
pub open spec fn g_fn(cx: Cx, pos: int, tmp: bool) -> Result<(StmtV, int), ErrV>
    decreases cx.toks.len() - pos, 0nat,
{
    match g_fn_head(cx, pos) {
        Err(x) => Err(x),
        Ok(((name, params, ret), p)) => if !cx.on(pos, p) {
            Err(cx.stuck())
        } else {
            match g_body(cx, p, Seq::empty()) {
                Err(x) => Err(x),
                Ok((body, p1)) => Ok(
                    (StmtV::FnDef { name, params, ret, body, span: cx.span(pos), tmp }, p1),
                ),
            }
        },
    }
}

/// `if (cond) { ... } [else ...]`.
pub open spec fn g_if(cx: Cx, pos: int) -> Result<(StmtV, int), ErrV>
    decreases cx.toks.len() - pos, 1nat,
{
    match g_cond(cx, cx.next(pos)) {
        Err(x) => Err(x),
        Ok((cond, p)) => if !cx.on(pos, p) {
            Err(cx.stuck())
        } else {
            match g_block(cx, p) {
                Err(x) => Err(x),
                Ok((then_branch, p1)) => {
                    let span = cx.span(pos);
                    let p2 = cx.next(p1);
                    if !cx.at(p1, Key::Else) {
                        Ok((StmtV::If { cond, then_branch, else_branch: None, span }, p1))
                    } else if !cx.on(pos, p2) {
                        Err(cx.stuck())
                    } else if cx.at(p2, Key::If) {
                        match g_if(cx, p2) {
                            Err(x) => Err(x),
                            Ok((s, p3)) => Ok(
                                (
                                    StmtV::If {
                                        cond,
                                        then_branch,
                                        else_branch: Some(seq![s]),
                                        span,
                                    },
                                    p3,
                                ),
                            ),
                        }
                    } else {
                        match g_block(cx, p2) {
                            Err(x) => Err(x),
                            Ok((b, p3)) => Ok(
                                (
                                    StmtV::If { cond, then_branch, else_branch: Some(b), span },
                                    p3,
                                ),
                            ),
                        }
                    }
                },
            }
        },
    }
}

/// `while (cond) { ... }`.
pub open spec fn g_while(cx: Cx, pos: int) -> Result<(StmtV, int), ErrV>
    decreases cx.toks.len() - pos, 1nat,
{
    match g_cond(cx, cx.next(pos)) {
        Err(x) => Err(x),
        Ok((cond, p)) => if !cx.on(pos, p) {
            Err(cx.stuck())
        } else {
            match g_block(cx, p) {
                Err(x) => Err(x),
                Ok((body, p1)) => Ok((StmtV::While { cond, body, span: cx.span(pos) }, p1)),
            }
        },
    }
}

/// `for x in expr { ... }` or `for k, v in expr { ... }`.
pub open spec fn g_for_in(cx: Cx, pos: int) -> Result<(StmtV, int), ErrV>
    decreases cx.toks.len() - pos, 1nat,
{
    match g_for_head(cx, cx.next(pos)) {
        Err(x) => Err(x),
        Ok(((var, var2, iter), p)) => if !cx.on(pos, p) {
            Err(cx.stuck())
        } else {
            match g_block(cx, p) {
                Err(x) => Err(x),
                Ok((body, p1)) => Ok(
                    (StmtV::ForIn { var, var2, iter, body, span: cx.span(pos) }, p1),
                ),
            }
        },
    }
}

/// `try { ... } catch e { ... }`.
pub open spec fn g_try(cx: Cx, pos: int) -> Result<(StmtV, int), ErrV>
    decreases cx.toks.len() - pos, 1nat,
{
    if !cx.on(pos, cx.next(pos)) {
        Err(cx.stuck())
    } else {
        match g_block(cx, cx.next(pos)) {
            Err(x) => Err(x),
            Ok((body, p)) => if !cx.at(p, Key::Catch) {
                Err(
                    cx.fail(
                        p,
                        codes::SYNTAX@,
                        "expected `catch` after the `try` block"@,
                        Some("form: `try { ... } catch e { ... }`"@),
                    ),
                )
            } else {
                match g_ident_at(
                    cx,
                    cx.next(p),
                    "expected an error variable name after `catch`"@,
                    Some("form: `catch e` where `e` is a new variable of type `error`"@),
                ) {
                    Err(x) => Err(x),
                    Ok((catch_var, p1)) => if !cx.on(pos, p1) {
                        Err(cx.stuck())
                    } else {
                        match g_block(cx, p1) {
                            Err(x) => Err(x),
                            Ok((handler, p2)) => Ok(
                                (StmtV::Try { body, catch_var, handler, span: cx.span(pos) }, p2),
                            ),
                        }
                    },
                }
            },
        }
    }
}

/// A statement.
pub open spec fn g_stmt(cx: Cx, pos: int) -> Result<(StmtV, int), ErrV>
    decreases cx.toks.len() - pos, 2nat,
{
    let p = cx.next(pos);
    match cx.tok(pos) {
        TokV::Ident(name) => if cx.at(p, Key::LParen) && name == "debug_print"@ {
            g_debug_print(cx, pos)
        } else if cx.at(p, Key::Colon) {
            g_decl_ts(cx, pos, name)
        } else if cx.at(p, Key::Assign) {
            g_assign(cx, pos, name)
        } else {
            g_expr_stmt(cx, pos)
        },
        TokV::Key(k) => match k {
            Key::TInt => g_decl_c(cx, pos, TyName::Int),
            Key::TFloat => g_decl_c(cx, pos, TyName::Float),
            Key::TBool => g_decl_c(cx, pos, TyName::Bool),
            Key::TStr => g_decl_c(cx, pos, TyName::Str),
            Key::Fn => if cx.on(pos, p) {
                g_fn(cx, p, false)
            } else {
                Err(cx.stuck())
            },
            Key::If => g_if(cx, pos),
            Key::While => g_while(cx, pos),
            Key::For => g_for_in(cx, pos),
            Key::Return => g_return(cx, pos),
            Key::Go => g_go(cx, pos),
            Key::Try => g_try(cx, pos),
            Key::Throw => g_throw(cx, pos),
            Key::Breakpoint => g_breakpoint(cx, pos),
            Key::LBrace => if !cx.on(pos, p) {
                Err(cx.stuck())
            } else {
                match g_body(cx, p, Seq::empty()) {
                    Err(x) => Err(x),
                    Ok((stmts, p1)) => Ok((StmtV::Block { stmts, span: cx.span(pos) }, p1)),
                }
            },
            Key::Semi => if cx.on(pos, p) {
                g_stmt(cx, p)
            } else {
                Err(cx.stuck())
            },
            Key::Load => g_load(cx, pos),
            Key::Use => g_use(cx, pos),
            Key::Import => g_import(cx, pos),
            Key::Alias => g_alias(cx, pos),
            Key::At => g_export(cx, pos),
            Key::Tmp => match g_expect(cx, p, Key::Fn, "`fn`"@) {
                Err(x) => Err(x),
                Ok(p1) => if cx.on(pos, p1) {
                    g_fn(cx, p1, true)
                } else {
                    Err(cx.stuck())
                },
            },
            Key::Struct => g_struct_def(cx, pos),
            _ => Err(no_stmt(cx, pos)),
        },
        _ => Err(no_stmt(cx, pos)),
    }
}

/// The error where no statement starts.
pub open spec fn no_stmt(cx: Cx, pos: int) -> ErrV {
    cx.fail(
        pos,
        codes::SYNTAX@,
        found("expected a statement"@, cx.tok(pos)),
        Some(
            "statements start with an identifier, `fn`, `if`, `while`, `return`, `go`, `breakpoint` or `{`"@,
        ),
    )
}

/// The statements of a program from a position to the end of the text.
pub open spec fn g_program(cx: Cx, pos: int, stmts: Seq<StmtV>) -> Result<Seq<StmtV>, ErrV>
    decreases cx.toks.len() - pos,
{
    if cx.at(pos, Key::Eof) {
        Ok(stmts)
    } else if cx.at(pos, Key::Semi) {
        if cx.on(pos, cx.next(pos)) {
            g_program(cx, cx.next(pos), stmts)
        } else {
            Err(cx.stuck())
        }
    } else {
        match g_stmt(cx, pos) {
            Err(x) => Err(x),
            Ok((s, p)) => if cx.on(pos, p) {
                g_program(cx, p, stmts.push(s))
            } else {
                Err(cx.stuck())
            },
        }
    }
}

/// The program that a source text is, or the first error in it.
pub open spec fn program_of(file: Seq<char>, src: Seq<char>) -> Result<Seq<StmtV>, ErrV> {
    match tokenized(file, src) {
        Err(x) => Err(x),
        Ok(toks) => g_program(Cx { file, src, toks }, 0, Seq::empty()),
    }
}

/// `x |> f(a, b)` is the call `f(x, a, b)`, and `x |> f` the call `f(x)`: what stands left of
/// the pipe becomes the first argument, before those that stand in brackets, and the whole
/// can stand left of the next pipe.
pub proof fn law_pipe_is_a_call(
    cx: Cx,
    pos: int,
    lhs: ExprV,
    first: Seq<char>,
    p1: int,
    parts: Seq<Seq<char>>,
    p2: int,
    args: Seq<ExprV>,
    p3: int,
    p4: int,
)
    requires
        cx.at(pos, Key::Pipe),
        g_ident_at(
            cx,
            cx.next(pos),
            "expected a function name after `|>`"@,
            Some("pipe form: `x |> f` or `x |> f(a, b)`"@),
        ) == Ok::<(Seq<char>, int), ErrV>((first, p1)),
        g_dotted(cx, p1, seq![first]) == Ok::<(Seq<Seq<char>>, int), ErrV>((parts, p2)),
        cx.on(pos, p2),
    ensures
        !cx.at(p2, Key::LParen) ==> g_pipes(cx, pos, lhs) == g_pipes(
            cx,
            p2,
            ExprV::Call { callee: joined(parts), args: seq![lhs], span: cx.span(pos) },
        ),
        cx.at(p2, Key::LParen) && g_list(cx, cx.next(p2), Key::RParen, Seq::empty()) == Ok::<
            (Seq<ExprV>, int),
            ErrV,
        >((args, p3)) && g_expect(cx, p3, Key::RParen, "`)`"@) == Ok::<int, ErrV>(p4) && cx.on(pos, p4) ==> g_pipes(
            cx,
            pos,
            lhs,
        ) == g_pipes(
            cx,
            p4,
            ExprV::Call { callee: joined(parts), args: seq![lhs] + args, span: cx.span(pos) },
        ),
{
}

} // verus!
