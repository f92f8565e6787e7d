//! The forms of statements: which tokens, and what between them, make which statement.

use vstd::prelude::*;

use super::grammar::{
    g_block, g_body, g_dotted, g_expr, g_fields, g_fn, g_fn_head, g_for_in, g_if, g_list, g_params, g_program, g_stmt, g_try, g_while,
    joined, Cx,
};
use crate::ast::{ExprV, ParamV, StmtV, TyName};
use crate::error::ErrV;
use crate::lexer::{Key, TokV};

verus! {

/// Whether an expression stands from one position up to another.
pub open spec fn expr_at(cx: Cx, pos: int, e: ExprV, end: int) -> bool {
    pos < end < cx.toks.len() && g_expr(cx, pos) == Ok::<(ExprV, int), ErrV>((e, end))
}

/// Whether a block with its braces stands from one position up to another.
pub open spec fn block_at(cx: Cx, pos: int, x: Seq<StmtV>, end: int) -> bool {
    pos < end < cx.toks.len() && g_block(cx, pos) == Ok::<(Seq<StmtV>, int), ErrV>((x, end))
}

/// Whether a statement stands from one position up to another.
pub open spec fn stmt_at(cx: Cx, pos: int, s: StmtV, end: int) -> bool {
    g_stmt(cx, pos) == Ok::<(StmtV, int), ErrV>((s, end))
}

/// The word of a type.
pub open spec fn type_word(t: TyName) -> Key {
    match t {
        TyName::Int => Key::TInt,
        TyName::Float => Key::TFloat,
        TyName::Bool => Key::TBool,
        TyName::Str => Key::TStr,
    }
}

/// `if (cond) { ... }` has the block as its branch and no other, where no `else` follows.
pub proof fn law_if_form(cx: Cx, pos: int, c: ExprV, p: int, yes: Seq<StmtV>, q: int)
    requires
        0 <= pos,
        cx.at(pos, Key::If),
        cx.at(pos + 1, Key::LParen),
        expr_at(cx, pos + 2, c, p),
        cx.at(p, Key::RParen),
        block_at(cx, p + 1, yes, q),
        !cx.at(q, Key::Else),
    ensures
        stmt_at(cx, pos, StmtV::If { cond: c, then_branch: yes, else_branch: None, span: cx.span(pos) }, q),
{
    assert(g_stmt(cx, pos) == g_if(cx, pos));
}

/// `if (cond) { ... } else { ... }` has the first block for a condition that holds and the second for
/// one that does not.
pub proof fn law_else_form(cx: Cx, pos: int, c: ExprV, p: int, yes: Seq<StmtV>, q: int, no: Seq<StmtV>, r: int)
    requires
        0 <= pos,
        cx.at(pos, Key::If),
        cx.at(pos + 1, Key::LParen),
        expr_at(cx, pos + 2, c, p),
        cx.at(p, Key::RParen),
        block_at(cx, p + 1, yes, q),
        cx.at(q, Key::Else),
        cx.at(q + 1, Key::LBrace),
        block_at(cx, q + 1, no, r),
    ensures
        stmt_at(cx, pos, StmtV::If { cond: c, then_branch: yes, else_branch: Some(no), span: cx.span(pos) }, r),
{
    assert(g_stmt(cx, pos) == g_if(cx, pos));
}

/// `else if` is an `else` with the second `if` alone in its block.
pub proof fn law_else_if_form(cx: Cx, pos: int, c: ExprV, p: int, yes: Seq<StmtV>, q: int, s: StmtV, r: int)
    requires
        0 <= pos,
        cx.at(pos, Key::If),
        cx.at(pos + 1, Key::LParen),
        expr_at(cx, pos + 2, c, p),
        cx.at(p, Key::RParen),
        block_at(cx, p + 1, yes, q),
        cx.at(q, Key::Else),
        cx.at(q + 1, Key::If),
        q + 1 < cx.toks.len(),
        stmt_at(cx, q + 1, s, r),
    ensures
        stmt_at(cx, pos, StmtV::If { cond: c, then_branch: yes, else_branch: Some(seq![s]), span: cx.span(pos) }, r),
{
    assert(g_stmt(cx, pos) == g_if(cx, pos));
    assert(g_stmt(cx, q + 1) == g_if(cx, q + 1));
}

/// `while (cond) { ... }` repeats its block.
pub proof fn law_while_form(cx: Cx, pos: int, c: ExprV, p: int, body: Seq<StmtV>, q: int)
    requires
        0 <= pos,
        cx.at(pos, Key::While),
        cx.at(pos + 1, Key::LParen),
        expr_at(cx, pos + 2, c, p),
        cx.at(p, Key::RParen),
        block_at(cx, p + 1, body, q),
    ensures
        stmt_at(cx, pos, StmtV::While { cond: c, body, span: cx.span(pos) }, q),
{
    assert(g_stmt(cx, pos) == g_while(cx, pos));
}

/// `for x in value { ... }`.
pub proof fn law_for_form(cx: Cx, pos: int, x: Seq<char>, e: ExprV, p: int, body: Seq<StmtV>, q: int)
    requires
        0 <= pos,
        cx.at(pos, Key::For),
        cx.tok(pos + 1) == TokV::Ident(x),
        cx.at(pos + 2, Key::In),
        expr_at(cx, pos + 3, e, p),
        block_at(cx, p, body, q),
    ensures
        stmt_at(cx, pos, StmtV::ForIn { var: x, var2: None, iter: e, body, span: cx.span(pos) }, q),
{
    assert(g_stmt(cx, pos) == g_for_in(cx, pos));
}

/// `for k, v in value { ... }`: the first name is the key's, the second the value's.
pub proof fn law_for_pairs_form(
    cx: Cx,
    pos: int,
    k: Seq<char>,
    v: Seq<char>,
    e: ExprV,
    p: int,
    body: Seq<StmtV>,
    q: int,
)
    requires
        0 <= pos,
        cx.at(pos, Key::For),
        cx.tok(pos + 1) == TokV::Ident(k),
        cx.at(pos + 2, Key::Comma),
        cx.tok(pos + 3) == TokV::Ident(v),
        cx.at(pos + 4, Key::In),
        expr_at(cx, pos + 5, e, p),
        block_at(cx, p, body, q),
    ensures
        stmt_at(cx, pos, StmtV::ForIn { var: k, var2: Some(v), iter: e, body, span: cx.span(pos) }, q),
{
    assert(g_stmt(cx, pos) == g_for_in(cx, pos));
}

/// `try { ... } catch e { ... }`.
pub proof fn law_try_form(cx: Cx, pos: int, body: Seq<StmtV>, p: int, e: Seq<char>, handler: Seq<StmtV>, q: int)
    requires
        0 <= pos,
        cx.at(pos, Key::Try),
        block_at(cx, pos + 1, body, p),
        cx.at(p, Key::Catch),
        cx.tok(p + 1) == TokV::Ident(e),
        block_at(cx, p + 2, handler, q),
    ensures
        stmt_at(cx, pos, StmtV::Try { body, catch_var: e, handler, span: cx.span(pos) }, q),
{
    assert(g_stmt(cx, pos) == g_try(cx, pos));
}

/// `x = value;`, and both forms of a declaration, `int x = value;` and `x: int = value;`.
pub proof fn law_assignment_forms(cx: Cx, pos: int, x: Seq<char>, t: TyName, e: ExprV, p: int)
    requires
        0 <= pos,
        cx.at(p, Key::Semi),
        p + 1 < cx.toks.len(),
    ensures
        cx.tok(pos) == TokV::Ident(x) && cx.at(pos + 1, Key::Assign) && expr_at(cx, pos + 2, e, p) ==> stmt_at(
            cx,
            pos,
            StmtV::Assign { name: x, value: e, span: cx.span(pos) },
            p + 1,
        ),
        cx.at(pos, type_word(t)) && cx.tok(pos + 1) == TokV::Ident(x) && cx.at(pos + 2, Key::Assign) && expr_at(
            cx,
            pos + 3,
            e,
            p,
        ) ==> stmt_at(cx, pos, StmtV::VarDecl { name: x, ty: t, init: Some(e), span: cx.span(pos) }, p + 1),
        cx.tok(pos) == TokV::Ident(x) && cx.at(pos + 1, Key::Colon) && cx.at(pos + 2, type_word(t)) && cx.at(
            pos + 3,
            Key::Assign,
        ) && expr_at(cx, pos + 4, e, p) ==> stmt_at(
            cx,
            pos,
            StmtV::VarDecl { name: x, ty: t, init: Some(e), span: cx.span(pos) },
            p + 1,
        ),
        cx.at(pos, type_word(t)) && cx.tok(pos + 1) == TokV::Ident(x) && p == pos + 2 ==> stmt_at(
            cx,
            pos,
            StmtV::VarDecl { name: x, ty: t, init: None, span: cx.span(pos) },
            p + 1,
        ),
{
}

/// `return;`, `return value;`, `throw value;` and a call that stands alone.
pub proof fn law_value_forms(cx: Cx, pos: int, e: ExprV, p: int)
    requires
        0 <= pos,
        cx.at(p, Key::Semi),
        p + 1 < cx.toks.len(),
    ensures
        cx.at(pos, Key::Return) && p == pos + 1 ==> stmt_at(
            cx,
            pos,
            StmtV::Return { value: None, span: cx.span(pos) },
            p + 1,
        ),
        cx.at(pos, Key::Return) && expr_at(cx, pos + 1, e, p) && !cx.at(pos + 1, Key::Semi) ==> stmt_at(
            cx,
            pos,
            StmtV::Return { value: Some(e), span: cx.span(pos) },
            p + 1,
        ),
        cx.at(pos, Key::Throw) && expr_at(cx, pos + 1, e, p) ==> stmt_at(
            cx,
            pos,
            StmtV::Throw { value: e, span: cx.span(pos) },
            p + 1,
        ),
        cx.tok(pos) is Ident && cx.tok(pos) != TokV::Ident("debug_print"@) && (cx.at(pos + 1, Key::LParen) || cx.at(
            pos + 1,
            Key::Dot,
        )) && expr_at(cx, pos, e, p) ==> stmt_at(cx, pos, StmtV::ExprStmt { expr: e, span: e.span() }, p + 1),
        cx.tok(pos) == TokV::Ident("debug_print"@) && cx.at(pos + 1, Key::LParen) && expr_at(cx, pos + 2, e, p - 1)
            && cx.at(p - 1, Key::RParen) ==> stmt_at(
            cx,
            pos,
            StmtV::DebugPrint { expr: e, span: cx.span(pos + 1) },
            p + 1,
        ),
{
}

/// Whether the head of a function, `name(params)`, stands from one position up to its closing bracket.
pub open spec fn head_at(cx: Cx, pos: int, name: Seq<char>, params: Seq<ParamV>, p: int) -> bool {
    &&& 0 <= pos
    &&& cx.tok(pos) == TokV::Ident(name)
    &&& cx.at(pos + 1, Key::LParen)
    &&& g_params(cx, pos + 2, Seq::empty()) == Ok::<(Seq<ParamV>, int), ErrV>((params, p))
    &&& pos + 2 <= p
    &&& cx.at(p, Key::RParen)
}

proof fn lemma_plain_fn(cx: Cx, pos: int, name: Seq<char>, params: Seq<ParamV>, p: int, body: Seq<StmtV>, q: int, tmp: bool)
    requires
        head_at(cx, pos, name, params, p),
        cx.at(p + 1, Key::LBrace),
        block_at(cx, p + 1, body, q),
    ensures
        g_fn(cx, pos, tmp) == Ok::<(StmtV, int), ErrV>(
            (StmtV::FnDef { name, params, ret: None, body, span: cx.span(pos), tmp }, q),
        ),
{
    assert(g_body(cx, p + 2, Seq::empty()) == g_block(cx, p + 1));
    assert(g_fn_head(cx, pos) == Ok::<((Seq<char>, Seq<ParamV>, Option<TyName>), int), ErrV>(
        ((name, params, None), p + 2),
    ));
}

proof fn lemma_typed_fn(
    cx: Cx,
    pos: int,
    name: Seq<char>,
    params: Seq<ParamV>,
    p: int,
    t: TyName,
    body: Seq<StmtV>,
    q: int,
    tmp: bool,
)
    requires
        head_at(cx, pos, name, params, p),
        cx.at(p + 1, Key::Arrow),
        cx.at(p + 2, type_word(t)),
        cx.at(p + 3, Key::LBrace),
        block_at(cx, p + 3, body, q),
    ensures
        g_fn(cx, pos, tmp) == Ok::<(StmtV, int), ErrV>(
            (StmtV::FnDef { name, params, ret: Some(t), body, span: cx.span(pos), tmp }, q),
        ),
{
    assert(g_body(cx, p + 4, Seq::empty()) == g_block(cx, p + 3));
    assert(g_fn_head(cx, pos) == Ok::<((Seq<char>, Seq<ParamV>, Option<TyName>), int), ErrV>(
        ((name, params, Some(t)), p + 4),
    ));
}

/// `fn name(params) { ... }` has its name, its parameters and its body, and is kept; behind `tmp` it is
/// one for the script alone.
pub proof fn law_function_form(cx: Cx, pos: int, name: Seq<char>, params: Seq<ParamV>, p: int, body: Seq<StmtV>, q: int)
    requires
        0 < pos,
        cx.at(pos, Key::Fn),
        head_at(cx, pos + 1, name, params, p),
        cx.at(p + 1, Key::LBrace),
        block_at(cx, p + 1, body, q),
    ensures
        stmt_at(cx, pos, StmtV::FnDef { name, params, ret: None, body, span: cx.span(pos + 1), tmp: false }, q),
        cx.at(pos - 1, Key::Tmp) ==> stmt_at(
            cx,
            pos - 1,
            StmtV::FnDef { name, params, ret: None, body, span: cx.span(pos + 1), tmp: true },
            q,
        ),
{
    lemma_plain_fn(cx, pos + 1, name, params, p, body, q, false);
    lemma_plain_fn(cx, pos + 1, name, params, p, body, q, true);
    lemma_fn_stmt(cx, pos);
}

/// `fn name(params) -> type { ... }` has that type too.
pub proof fn law_typed_function_form(
    cx: Cx,
    pos: int,
    name: Seq<char>,
    params: Seq<ParamV>,
    p: int,
    t: TyName,
    body: Seq<StmtV>,
    q: int,
)
    requires
        0 < pos,
        cx.at(pos, Key::Fn),
        head_at(cx, pos + 1, name, params, p),
        cx.at(p + 1, Key::Arrow),
        cx.at(p + 2, type_word(t)),
        cx.at(p + 3, Key::LBrace),
        block_at(cx, p + 3, body, q),
    ensures
        stmt_at(cx, pos, StmtV::FnDef { name, params, ret: Some(t), body, span: cx.span(pos + 1), tmp: false }, q),
        cx.at(pos - 1, Key::Tmp) ==> stmt_at(
            cx,
            pos - 1,
            StmtV::FnDef { name, params, ret: Some(t), body, span: cx.span(pos + 1), tmp: true },
            q,
        ),
{
    lemma_typed_fn(cx, pos + 1, name, params, p, t, body, q, false);
    lemma_typed_fn(cx, pos + 1, name, params, p, t, body, q, true);
    lemma_fn_stmt(cx, pos);
}

/// A statement that starts with `fn` or `tmp fn`.
proof fn lemma_fn_stmt(cx: Cx, pos: int)
    requires
        0 < pos < cx.toks.len() - 1,
        cx.at(pos, Key::Fn),
    ensures
        g_stmt(cx, pos) == g_fn(cx, pos + 1, false),
        cx.at(pos - 1, Key::Tmp) ==> g_stmt(cx, pos - 1) == g_fn(cx, pos + 1, true),
{
}

/// Parameters stand in their order, each with its own type: `a`, `a: type` or `type a`.
pub proof fn law_parameter_forms(cx: Cx, pos: int, before: Seq<ParamV>, a: Seq<char>, t: TyName)
    requires
        0 <= pos,
        pos + 4 < cx.toks.len(),
    ensures
        cx.at(pos, Key::RParen) ==> g_params(cx, pos, before) == Ok::<(Seq<ParamV>, int), ErrV>((before, pos)),
        cx.tok(pos) == TokV::Ident(a) && cx.at(pos + 1, Key::Comma) ==> g_params(cx, pos, before) == g_params(
            cx,
            pos + 2,
            before.push(ParamV { name: a, ty: None, span: cx.span(pos) }),
        ),
        cx.tok(pos) == TokV::Ident(a) && cx.at(pos + 1, Key::Colon) && cx.at(pos + 2, type_word(t)) && cx.at(
            pos + 3,
            Key::Comma,
        ) ==> g_params(cx, pos, before) == g_params(
            cx,
            pos + 4,
            before.push(ParamV { name: a, ty: Some(t), span: cx.span(pos) }),
        ),
        cx.at(pos, type_word(t)) && cx.tok(pos + 1) == TokV::Ident(a) && cx.at(pos + 2, Key::Comma) ==> g_params(
            cx,
            pos,
            before,
        ) == g_params(cx, pos + 3, before.push(ParamV { name: a, ty: Some(t), span: cx.span(pos) })),
        cx.tok(pos) == TokV::Ident(a) && cx.at(pos + 1, Key::RParen) ==> g_params(cx, pos, before) == Ok::<
            (Seq<ParamV>, int),
            ErrV,
        >((before.push(ParamV { name: a, ty: None, span: cx.span(pos) }), pos + 1)),
{
}

/// `struct Name { field: type, ... };`, `@export name;`, `use name;`, `alias old as new;` and
/// `breakpoint;`.
pub proof fn law_definition_forms(cx: Cx, pos: int, a: Seq<char>, b: Seq<char>, fields: Seq<(Seq<char>, TyName)>, p: int)
    requires
        0 <= pos,
        pos + 5 < cx.toks.len(),
    ensures
        cx.at(pos, Key::Struct) && cx.tok(pos + 1) == TokV::Ident(a) && cx.at(pos + 2, Key::LBrace) && g_fields(
            cx,
            pos + 3,
            Seq::empty(),
        ) == Ok::<(Seq<(Seq<char>, TyName)>, int), ErrV>((fields, p)) && cx.at(p, Key::RBrace) && cx.at(p + 1, Key::Semi)
            && pos + 3 <= p && p + 2 < cx.toks.len() ==> stmt_at(
            cx,
            pos,
            StmtV::StructDef { name: a, fields, span: cx.span(pos) },
            p + 2,
        ),
        cx.at(pos, Key::At) && cx.tok(pos + 1) == TokV::Ident("export"@) && cx.tok(pos + 2) == TokV::Ident(a) && cx.at(
            pos + 3,
            Key::Semi,
        ) ==> stmt_at(cx, pos, StmtV::Export { name: a, span: cx.span(pos) }, pos + 4),
        cx.at(pos, Key::Use) && cx.tok(pos + 1) == TokV::Ident(a) && cx.at(pos + 2, Key::Semi) ==> stmt_at(
            cx,
            pos,
            StmtV::Use { namespace: a, span: cx.span(pos) },
            pos + 3,
        ),
        cx.at(pos, Key::Alias) && cx.tok(pos + 1) == TokV::Ident(a) && cx.at(pos + 2, Key::As) && cx.tok(pos + 3)
            == TokV::Ident(b) && cx.at(pos + 4, Key::Semi) ==> stmt_at(
            cx,
            pos,
            StmtV::Alias { original: a, new_name: b, span: cx.span(pos) },
            pos + 5,
        ),
        cx.at(pos, Key::Breakpoint) && cx.at(pos + 1, Key::Semi) ==> stmt_at(
            cx,
            pos,
            StmtV::Breakpoint { span: cx.span(pos) },
            pos + 2,
        ),
{
}

/// The fields of a struct stand in their order, each with its type.
pub proof fn law_field_forms(cx: Cx, pos: int, before: Seq<(Seq<char>, TyName)>, a: Seq<char>, t: TyName)
    requires
        0 <= pos,
        pos + 4 < cx.toks.len(),
        cx.tok(pos) == TokV::Ident(a),
        cx.at(pos + 1, Key::Colon),
        cx.at(pos + 2, type_word(t)),
    ensures
        cx.at(pos + 3, Key::RBrace) ==> g_fields(cx, pos, before) == Ok::<(Seq<(Seq<char>, TyName)>, int), ErrV>(
            (before.push((a, t)), pos + 3),
        ),
        cx.at(pos + 3, Key::Comma) ==> g_fields(cx, pos, before) == g_fields(cx, pos + 4, before.push((a, t))),
{
}

/// `import "name" from "url";`, with `as other` or without, and `load "path" as name;`, lazily or
/// not.
pub proof fn law_module_forms(cx: Cx, pos: int, a: Seq<char>, b: Seq<char>, n: Seq<char>)
    requires
        0 <= pos,
        pos + 8 < cx.toks.len(),
    ensures
        cx.at(pos, Key::Import) && cx.tok(pos + 1) == TokV::StrLit(a) && cx.at(pos + 2, Key::From) && cx.tok(pos + 3)
            == TokV::StrLit(b) && cx.at(pos + 4, Key::Semi) ==> stmt_at(
            cx,
            pos,
            StmtV::Import { name: a, url: b, alias: None, span: cx.span(pos) },
            pos + 5,
        ),
        cx.at(pos, Key::Import) && cx.tok(pos + 1) == TokV::StrLit(a) && cx.at(pos + 2, Key::From) && cx.tok(pos + 3)
            == TokV::StrLit(b) && cx.at(pos + 4, Key::As) && cx.tok(pos + 5) == TokV::Ident(n) && cx.at(
            pos + 6,
            Key::Semi,
        ) ==> stmt_at(cx, pos, StmtV::Import { name: a, url: b, alias: Some(n), span: cx.span(pos) }, pos + 7),
        cx.at(pos, Key::Load) && cx.tok(pos + 1) == TokV::StrLit(a) && cx.at(pos + 2, Key::As) && cx.tok(pos + 3)
            == TokV::Ident(n) && cx.at(pos + 4, Key::Semi) ==> stmt_at(
            cx,
            pos,
            StmtV::Load { lazy: false, path: a, alias: Some(n), from: None, sigs: Seq::empty(), span: cx.span(pos) },
            pos + 5,
        ),
        cx.at(pos, Key::Load) && cx.at(pos + 1, Key::Lazy) && cx.tok(pos + 2) == TokV::StrLit(a) && cx.at(
            pos + 3,
            Key::As,
        ) && cx.tok(pos + 4) == TokV::Ident(n) && cx.at(pos + 5, Key::Semi) ==> stmt_at(
            cx,
            pos,
            StmtV::Load { lazy: true, path: a, alias: Some(n), from: None, sigs: Seq::empty(), span: cx.span(pos) },
            pos + 6,
        ),
        cx.at(pos, Key::Load) && cx.tok(pos + 1) == TokV::StrLit(a) && cx.at(pos + 2, Key::As) && cx.tok(pos + 3)
            == TokV::Ident(n) && cx.at(pos + 4, Key::From) && cx.tok(pos + 5) == TokV::StrLit(b) && cx.at(
            pos + 6,
            Key::Semi,
        ) ==> stmt_at(
            cx,
            pos,
            StmtV::Load { lazy: false, path: a, alias: Some(n), from: Some(b), sigs: Seq::empty(), span: cx.span(pos) },
            pos + 7,
        ),
{
}

/// `go name(arguments);`.
pub proof fn law_go_form(
    cx: Cx,
    pos: int,
    first: Seq<char>,
    parts: Seq<Seq<char>>,
    p: int,
    args: Seq<ExprV>,
    q: int,
)
    requires
        0 <= pos,
        cx.at(pos, Key::Go),
        cx.tok(pos + 1) == TokV::Ident(first),
        g_dotted(cx, pos + 2, seq![first]) == Ok::<(Seq<Seq<char>>, int), ErrV>((parts, p)),
        pos + 2 <= p,
        cx.at(p, Key::LParen),
        g_list(cx, p + 1, Key::RParen, Seq::empty()) == Ok::<(Seq<ExprV>, int), ErrV>((args, q)),
        p + 1 <= q,
        cx.at(q, Key::RParen),
        cx.at(q + 1, Key::Semi),
        q + 2 < cx.toks.len(),
    ensures
        stmt_at(cx, pos, StmtV::Go { callee: joined(parts), args, span: cx.span(pos) }, q + 2),
{
}

/// The statements of a block and of a program stand in their order, up to the closing brace or the end
/// of the text; a semicolon alone is nothing, and a block ends with its brace only.
pub proof fn law_rows_of_statements(cx: Cx, pos: int, before: Seq<StmtV>, s: StmtV, p: int)
    requires
        0 <= pos < p < cx.toks.len(),
    ensures
        cx.at(pos, Key::RBrace) ==> g_body(cx, pos, before) == Ok::<(Seq<StmtV>, int), ErrV>((before, pos + 1)),
        cx.at(pos, Key::Eof) ==> g_body(cx, pos, before) is Err && g_program(cx, pos, before) == Ok::<Seq<StmtV>, ErrV>(
            before,
        ),
        cx.at(pos, Key::Semi) ==> g_body(cx, pos, before) == g_body(cx, pos + 1, before) && g_program(cx, pos, before)
            == g_program(cx, pos + 1, before),
        stmt_at(cx, pos, s, p) && !cx.at(pos, Key::RBrace) && !cx.at(pos, Key::Eof) && !cx.at(pos, Key::Semi) ==> {
            &&& g_body(cx, pos, before) == g_body(cx, p, before.push(s))
            &&& g_program(cx, pos, before) == g_program(cx, p, before.push(s))
        },
        cx.at(pos, Key::LBrace) ==> g_block(cx, pos) == g_body(cx, pos + 1, Seq::empty()),
        cx.at(pos, Key::LBrace) ==> (g_body(cx, pos + 1, Seq::empty()) matches Ok((x, q)) ==> stmt_at(
            cx,
            pos,
            StmtV::Block { stmts: x, span: cx.span(pos) },
            q,
        )),
{
}

} // verus!
