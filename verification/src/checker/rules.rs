//! The typing rules, as functions from a state of knowledge to the next one.

use vstd::prelude::*;

use super::sigs::{sig_of, Arity, Kind, Ret, Sig, Want};
use super::Ty;
use crate::ast::{BinOp, ExprV, FfiParamV, FfiSigV, FfiTy, ParamV, SegV, StmtV, TyName, UnOp};
use crate::builtins::names::names;
use crate::error::{codes, err_at, ErrV};
use crate::lexer::Span;
use crate::parser::grammar::mark_len;
use crate::text::dec;

verus! {

/// The type of an expression; where it is not known yet, the slot that holds it.
#[derive(Debug, Clone, Copy, PartialEq, Eq, Structural)]
pub struct TyRes {
    pub ty: Ty,
    pub slot: Option<usize>,
}

/// A known type.
pub open spec fn is_ty(ty: Ty) -> TyRes {
    TyRes { ty, slot: None }
}

/// A registered function.
#[verifier::ext_equal]
pub struct FnV {
    pub name: Seq<char>,
    pub params: Seq<Seq<char>>,
    pub param_slots: Seq<usize>,
    pub ret_slot: usize,
    pub ret_annot: Option<Ty>,
    pub body: Seq<StmtV>,
    pub span: Span,
    /// The names of the outermost scope of the body.
    pub top: Map<Seq<char>, usize>,
}

/// What stays the same while a program is checked: the file, its functions and structs,
/// what was read of the headers, and whether leftovers are errors.
pub struct CxV {
    pub file: Seq<char>,
    pub src: Seq<char>,
    pub fns: Map<Seq<char>, FnV>,
    pub structs: Map<Seq<char>, Seq<(Seq<char>, Ty)>>,
    pub headers: Map<Seq<char>, Result<Seq<FfiSigV>, Seq<char>>>,
    pub strict: bool,
}

/// What is known: the types of the slots, whether that grew, whether a `return` was
/// seen, whether names can come from outside, and the declared foreign functions.
#[verifier::ext_equal]
pub struct StV {
    pub slots: Seq<Option<Ty>>,
    pub changed: bool,
    pub has_return: bool,
    pub has_external: bool,
    pub ffi: Map<Seq<char>, FfiSigV>,
}

/// The names in scope, from the outermost scope to the innermost. A function has a
/// scope for each block; at the top level there is one.
#[verifier::ext_equal]
pub struct EnvV {
    pub stack: Seq<Map<Seq<char>, usize>>,
    pub in_fn: bool,
    pub ret_slot: usize,
}

impl CxV {
    /// An error at a place.
    pub open spec fn fail(
        self,
        code: Seq<char>,
        msg: Seq<char>,
        span: Span,
        help: Option<Seq<char>>,
    ) -> ErrV {
        err_at(
            code,
            msg,
            self.file,
            self.src,
            span.line as nat,
            span.col as nat,
            mark_len(span.len),
            help,
        )
    }
}

impl StV {
    /// The state once a slot has a type.
    pub open spec fn lock(self, slot: usize, ty: Ty) -> StV {
        if slot < self.slots.len() {
            StV { slots: self.slots.update(slot as int, Some(ty)), changed: true, ..self }
        } else {
            self
        }
    }

    /// The state with a new slot, which has a type where one is given.
    pub open spec fn add(self, ty: Option<Ty>) -> StV {
        StV {
            slots: self.slots.push(ty),
            changed: self.changed || ty is Some,
            ..self
        }
    }

    /// The number of the next slot.
    pub open spec fn fresh(self) -> usize {
        self.slots.len() as usize
    }

    /// The type that a slot holds.
    pub open spec fn res(self, slot: usize) -> TyRes {
        match self.slots[slot as int] {
            Some(t) if t != Ty::Unknown => TyRes { ty: t, slot: None },
            _ => TyRes { ty: Ty::Unknown, slot: Some(slot) },
        }
    }
}

/// The slot of a name in the first `n` scopes, the innermost first.
pub open spec fn lookup(stack: Seq<Map<Seq<char>, usize>>, name: Seq<char>, n: nat) -> Option<usize>
    decreases n,
{
    if n == 0 || n > stack.len() {
        None
    } else if stack[n - 1].dom().contains(name) {
        Some(stack[n - 1][name])
    } else {
        lookup(stack, name, (n - 1) as nat)
    }
}

impl EnvV {
    /// The slot of a name.
    pub open spec fn get(self, name: Seq<char>) -> Option<usize> {
        lookup(self.stack, name, self.stack.len())
    }

    /// The scopes with a name added to the innermost one.
    pub open spec fn put(self, name: Seq<char>, slot: usize) -> EnvV {
        EnvV {
            stack: self.stack.drop_last().push(self.stack.last().insert(name, slot)),
            ..self
        }
    }

    /// The scopes inside a block.
    pub open spec fn enter(self) -> EnvV {
        if self.in_fn {
            EnvV { stack: self.stack.push(Map::empty()), ..self }
        } else {
            self
        }
    }

    /// The scopes behind a block.
    pub open spec fn leave(self) -> EnvV {
        if self.in_fn {
            EnvV { stack: self.stack.drop_last(), ..self }
        } else {
            self
        }
    }
}

/// Locks a slot to a type; a locked slot keeps its type.
pub open spec fn lock_slot(cx: CxV, st: StV, slot: usize, t: Ty, span: Span, what: Seq<char>) -> Result<
    StV,
    ErrV,
> {
    match st.slots[slot as int] {
        None => if cx.strict {
            Ok(st)
        } else {
            Ok(st.lock(slot, t))
        },
        Some(c) => if c == t {
            Ok(st)
        } else {
            Err(
                cx.fail(
                    codes::TYPE_MISMATCH@,
                    "type mismatch: "@ + what + " is locked to `"@ + c.text() + "`, got `"@
                        + t.text() + "`"@,
                    span,
                    Some(
                        "Hone types are locked after inference; no implicit conversion is allowed"@,
                    ),
                ),
            )
        },
    }
}

/// Locks the slot of an expression of an unknown type, unless leftovers are errors.
pub open spec fn push_ty(cx: CxV, st: StV, res: TyRes, t: Ty, span: Span, what: Seq<char>) -> Result<
    StV,
    ErrV,
> {
    match res.slot {
        Some(slot) => if cx.strict {
            Ok(st)
        } else {
            lock_slot(cx, st, slot, t, span, what)
        },
        None => Ok(st),
    }
}

/// An expression that must have a type.
pub open spec fn must_be(cx: CxV, st: StV, expected: Ty, res: TyRes, span: Span, what: Seq<char>) -> Result<
    StV,
    ErrV,
> {
    if res.ty == Ty::Unknown {
        push_ty(cx, st, res, expected, span, what)
    } else if res.ty == expected {
        Ok(st)
    } else {
        Err(
            cx.fail(
                codes::TYPE_MISMATCH@,
                "type mismatch: expected `"@ + expected.text() + "`, got `"@ + res.ty.text()
                    + "` for "@ + what,
                span,
                Some("Hone has no implicit type conversion"@),
            ),
        )
    }
}

/// An expression that goes into a slot.
pub open spec fn flow(cx: CxV, st: StV, slot: usize, res: TyRes, span: Span, what: Seq<char>) -> Result<
    StV,
    ErrV,
> {
    if res.ty != Ty::Unknown {
        lock_slot(cx, st, slot, res.ty, span, what)
    } else {
        match (res.slot, st.slots[slot as int]) {
            (Some(s), Some(t)) => if s == slot || cx.strict {
                Ok(st)
            } else {
                lock_slot(cx, st, s, t, span, what)
            },
            _ => Ok(st),
        }
    }
}

/// A name that is declared, with its type where one is given: the innermost declaration
/// in scope is meant, and a name without one gets a slot in the innermost scope.
pub open spec fn declare(cx: CxV, st: StV, env: EnvV, name: Seq<char>, ty: Option<Ty>, span: Span) -> Result<
    (StV, EnvV),
    ErrV,
> {
    match env.get(name) {
        Some(slot) => match (st.slots[slot as int], ty) {
            (Some(c), Some(t)) => if c == t {
                Ok((st, env))
            } else {
                Err(
                    cx.fail(
                        codes::TYPE_MISMATCH@,
                        "type mismatch: variable `"@ + name + "` is locked to `"@ + c.text()
                            + "`, cannot assign `"@ + t.text() + "`"@,
                        span,
                        Some(
                            "change the value to `"@ + c.text() + "`, or declare `"@ + name
                                + "` with a different type"@,
                        ),
                    ),
                )
            },
            (None, Some(t)) => Ok((st.lock(slot, t), env)),
            _ => Ok((st, env)),
        },
        None => Ok((st.add(ty), env.put(name, st.fresh()))),
    }
}

/// What can be thrown: a text or an error.
pub open spec fn throwable(cx: CxV, res: TyRes, span: Span) -> Result<(), ErrV> {
    if res.ty == Ty::Str || res.ty == Ty::Error || res.ty == Ty::Unknown {
        Ok(())
    } else {
        Err(
            cx.fail(
                codes::TYPE_MISMATCH@,
                "`throw` accepts a `str` or `error`, got `"@ + res.ty.text() + "`"@,
                span,
                Some("throw a message string, or re-throw an `error` value"@),
            ),
        )
    }
}

/// The type of a field.
pub open spec fn field_ty(cx: CxV, res: TyRes, field: Seq<char>, span: Span) -> Result<TyRes, ErrV> {
    if res.ty == Ty::Unknown {
        Ok(is_ty(Ty::Unknown))
    } else if res.ty != Ty::Error {
        Err(
            cx.fail(
                codes::TYPE_MISMATCH@,
                "field access `."@ + field
                    + "` requires an `error`, `struct`, or `dict` value, got `"@ + res.ty.text()
                    + "`"@,
                span,
                Some(
                    "struct instances and dicts support field access; errors expose code/message/..."@,
                ),
            ),
        )
    } else if field == "code"@ || field == "message"@ || field == "file"@ || field == "context"@ {
        Ok(is_ty(Ty::Str))
    } else if field == "line"@ || field == "col"@ {
        Ok(is_ty(Ty::Int))
    } else {
        Err(
            cx.fail(
                codes::UNDEFINED@,
                "unknown error field `"@ + field + "`"@,
                span,
                Some("error fields: code, message, file, line, col, context"@),
            ),
        )
    }
}

/// The name of an operand in errors.
pub open spec fn operand(op: BinOp) -> Seq<char> {
    "`"@ + op.text() + "` operand"@
}

/// An operand of `&&` or `||`.
pub open spec fn logic_operand(cx: CxV, st: StV, res: TyRes, op: BinOp, span: Span) -> Result<
    StV,
    ErrV,
> {
    if res.ty == Ty::Bool {
        Ok(st)
    } else if res.ty == Ty::Unknown {
        if res.slot is Some {
            push_ty(cx, st, res, Ty::Bool, span, operand(op))
        } else if cx.strict {
            Err(
                cx.fail(
                    codes::TYPE_MISMATCH@,
                    "`"@ + op.text()
                        + "` requires `bool` operands, but the type cannot be determined"@,
                    span,
                    Some("add explicit type annotations"@),
                ),
            )
        } else {
            Ok(st)
        }
    } else {
        Err(
            cx.fail(
                codes::TYPE_MISMATCH@,
                "`"@ + op.text() + "` requires `bool` operands, got `"@ + res.ty.text() + "`"@,
                span,
                Some("use `==`/`!=`/`<`/`>` to build a boolean expression"@),
            ),
        )
    }
}

/// A condition.
pub open spec fn condition(cx: CxV, st: StV, res: TyRes, span: Span) -> Result<StV, ErrV> {
    if res.ty == Ty::Bool {
        Ok(st)
    } else if res.ty == Ty::Unknown {
        if res.slot is Some {
            push_ty(cx, st, res, Ty::Bool, span, "condition"@)
        } else {
            Err(
                cx.fail(
                    codes::COND_NOT_BOOL@,
                    "condition must be `bool`, but its type cannot be determined"@,
                    span,
                    Some("the condition must explicitly evaluate to a `bool`"@),
                ),
            )
        }
    } else {
        Err(
            cx.fail(
                codes::COND_NOT_BOOL@,
                "condition must be `bool`, got `"@ + res.ty.text() + "`"@,
                span,
                Some("use a comparison like `x == 1`, or a boolean variable"@),
            ),
        )
    }
}

/// The operands of `==` and `!=`: one type on both sides.
pub open spec fn equal_operands(cx: CxV, st: StV, l: TyRes, r: TyRes, span: Span, op: BinOp) -> Result<
    StV,
    ErrV,
> {
    if l.ty == Ty::Unknown && r.ty == Ty::Unknown {
        Ok(st)
    } else if l.ty == Ty::Unknown {
        if l.slot is Some {
            push_ty(cx, st, l, r.ty, span, operand(op))
        } else if cx.strict {
            Err(
                cx.fail(
                    codes::TYPE_MISMATCH@,
                    "cannot compare with `"@ + r.ty.text() + "` using `"@ + op.text() + "`"@,
                    span,
                    Some("add explicit type annotations"@),
                ),
            )
        } else {
            Ok(st)
        }
    } else if r.ty == Ty::Unknown {
        if r.slot is Some {
            push_ty(cx, st, r, l.ty, span, operand(op))
        } else if cx.strict {
            Err(
                cx.fail(
                    codes::TYPE_MISMATCH@,
                    "cannot compare `"@ + l.ty.text() + "` with `"@ + op.text() + "`"@,
                    span,
                    Some("add explicit type annotations"@),
                ),
            )
        } else {
            Ok(st)
        }
    } else if l.ty == r.ty {
        Ok(st)
    } else {
        Err(
            cx.fail(
                codes::TYPE_MISMATCH@,
                "cannot compare `"@ + l.ty.text() + "` with `"@ + r.ty.text() + "` using `"@
                    + op.text() + "`"@,
                span,
                Some("Hone has no implicit type conversion; make both sides the same type"@),
            ),
        )
    }
}

/// The other operand of a comparison with a number.
pub open spec fn beside_number(cx: CxV, st: StV, res: TyRes, t: Ty, span: Span, op: BinOp) -> Result<
    StV,
    ErrV,
> {
    if res.slot is Some {
        push_ty(cx, st, res, t, span, operand(op))
    } else if cx.strict {
        Err(
            cx.fail(
                codes::TYPE_MISMATCH@,
                "cannot determine the type of the `"@ + op.text() + "` operand"@,
                span,
                Some("add explicit type annotations"@),
            ),
        )
    } else {
        Ok(st)
    }
}

/// The operands of `<`, `<=`, `>` and `>=`: numbers of one type.
pub open spec fn ordered_operands(cx: CxV, st: StV, l: TyRes, r: TyRes, span: Span, op: BinOp) -> Result<
    StV,
    ErrV,
> {
    if l.ty == Ty::Unknown && r.ty == Ty::Unknown {
        if cx.strict {
            Err(
                cx.fail(
                    codes::TYPE_MISMATCH@,
                    "`"@ + op.text()
                        + "` requires numeric operands, but the types cannot be determined"@,
                    span,
                    Some("add explicit type annotations"@),
                ),
            )
        } else {
            Ok(st)
        }
    } else if l.ty == Ty::Unknown && r.ty.numeric() {
        beside_number(cx, st, l, r.ty, span, op)
    } else if l.ty.numeric() && r.ty == Ty::Unknown {
        beside_number(cx, st, r, l.ty, span, op)
    } else if l.ty.numeric() && r.ty.numeric() && l.ty != r.ty {
        Err(
            cx.fail(
                codes::TYPE_MISMATCH@,
                "cannot compare `"@ + l.ty.text() + "` with `"@ + r.ty.text() + "` using `"@
                    + op.text() + "` (no implicit conversion)"@,
                span,
                Some("convert one side with `to_int` / `to_float` first"@),
            ),
        )
    } else if !l.ty.numeric() || !r.ty.numeric() {
        Err(
            cx.fail(
                codes::TYPE_MISMATCH@,
                "`"@ + op.text() + "` requires numeric operands, got `"@ + (if !l.ty.numeric() {
                    l.ty
                } else {
                    r.ty
                }).text() + "`"@,
                span,
                Some("comparison operators work on `int` / `float`"@),
            ),
        )
    } else {
        Ok(st)
    }
}

/// The error of arithmetic on a type that has none.
pub open spec fn no_arith(cx: CxV, op: BinOp, t: Ty, span: Span, help: Seq<char>) -> ErrV {
    cx.fail(
        codes::TYPE_MISMATCH@,
        "cannot apply `"@ + op.text() + "` to `"@ + t.text() + "`"@,
        span,
        Some(help),
    )
}

/// Advice on what an arithmetic operator works on.
pub open spec fn arith_help(op: BinOp) -> Seq<char> {
    "`"@ + op.text() + "` works on numbers"@ + (if op == BinOp::Add {
        " and `+` also concatenates strings"@
    } else {
        ""@
    })
}

/// Arithmetic: numbers of one type; `+` joins texts too. Gives the type of the result.
pub open spec fn arith_ty(cx: CxV, st: StV, l: TyRes, r: TyRes, span: Span, op: BinOp) -> Result<
    (Ty, StV),
    ErrV,
> {
    if l.ty == Ty::Unknown && r.ty == Ty::Unknown {
        if !cx.strict {
            Ok((Ty::Unknown, st))
        } else if op == BinOp::Add {
            Err(
                cx.fail(
                    codes::AMBIGUOUS_OP@,
                    "ambiguous `+`: could be `int`/`float` addition or `str` concatenation"@,
                    span,
                    Some("add explicit type annotations to the operands"@),
                ),
            )
        } else {
            Err(
                cx.fail(
                    codes::CANNOT_INFER@,
                    "cannot infer the operand types of `"@ + op.text() + "`"@,
                    span,
                    Some("add explicit type annotations"@),
                ),
            )
        }
    } else if l.ty == Ty::Unknown || r.ty == Ty::Unknown {
        let (open, t) = if l.ty == Ty::Unknown { (l, r.ty) } else { (r, l.ty) };
        if t.numeric() || (op == BinOp::Add && t == Ty::Str) {
            match push_ty(cx, st, open, t, span, operand(op)) {
                Ok(st1) => Ok((t, st1)),
                Err(x) => Err(x),
            }
        } else if l.ty == Ty::Unknown {
            Err(no_arith(cx, op, t, span, arith_help(op)))
        } else {
            Err(no_arith(cx, op, t, span, "check the operand type"@))
        }
    } else if l.ty.numeric() && r.ty.numeric() {
        if l.ty == r.ty {
            Ok((l.ty, st))
        } else {
            Err(
                cx.fail(
                    codes::TYPE_MISMATCH@,
                    "cannot apply `"@ + op.text() + "` to `"@ + l.ty.text() + "` and `"@
                        + r.ty.text() + "` (no implicit conversion)"@,
                    span,
                    Some("convert one side with `to_int` / `to_float` first"@),
                ),
            )
        }
    } else if l.ty == Ty::Str && r.ty == Ty::Str {
        if op == BinOp::Add {
            Ok((Ty::Str, st))
        } else {
            Err(
                no_arith(
                    cx,
                    op,
                    Ty::Str,
                    span,
                    "`+` concatenates strings; other arithmetic is numeric-only"@,
                ),
            )
        }
    } else {
        Err(no_arith(cx, op, l.ty, span, "check the operand type"@))
    }
}

/// The type of an infix expression.
pub open spec fn binary_ty(cx: CxV, st: StV, op: BinOp, l: TyRes, r: TyRes, span: Span) -> Result<
    (TyRes, StV),
    ErrV,
> {
    match op {
        BinOp::And | BinOp::Or => match logic_operand(cx, st, l, op, span) {
            Err(x) => Err(x),
            Ok(st1) => match logic_operand(cx, st1, r, op, span) {
                Err(x) => Err(x),
                Ok(st2) => Ok((is_ty(Ty::Bool), st2)),
            },
        },
        BinOp::Eq | BinOp::Ne => match equal_operands(cx, st, l, r, span, op) {
            Err(x) => Err(x),
            Ok(st1) => Ok((is_ty(Ty::Bool), st1)),
        },
        BinOp::Lt | BinOp::Le | BinOp::Gt | BinOp::Ge => match ordered_operands(
            cx,
            st,
            l,
            r,
            span,
            op,
        ) {
            Err(x) => Err(x),
            Ok(st1) => Ok((is_ty(Ty::Bool), st1)),
        },
        _ => match arith_ty(cx, st, l, r, span, op) {
            Err(x) => Err(x),
            Ok((t, st1)) => Ok((is_ty(t), st1)),
        },
    }
}

/// The type of a prefix expression.
pub open spec fn unary_ty(cx: CxV, st: StV, op: UnOp, res: TyRes, span: Span) -> Result<
    (TyRes, StV),
    ErrV,
> {
    match op {
        UnOp::Neg => if res.ty == Ty::Unknown {
            if cx.strict {
                Err(
                    cx.fail(
                        codes::CANNOT_INFER@,
                        "cannot infer the type of the operand of unary `-`"@,
                        span,
                        Some("add an explicit type annotation"@),
                    ),
                )
            } else {
                Ok((res, st))
            }
        } else if res.ty.numeric() {
            Ok((is_ty(res.ty), st))
        } else {
            Err(
                cx.fail(
                    codes::TYPE_MISMATCH@,
                    "unary `-` requires a number, got `"@ + res.ty.text() + "`"@,
                    span,
                    Some("negation works on `int` / `float`"@),
                ),
            )
        },
        UnOp::Not => if res.ty == Ty::Bool {
            Ok((is_ty(Ty::Bool), st))
        } else if res.ty == Ty::Unknown {
            if res.slot is Some {
                match push_ty(cx, st, res, Ty::Bool, span, "`!` operand"@) {
                    Err(x) => Err(x),
                    Ok(st1) => Ok((is_ty(Ty::Bool), st1)),
                }
            } else if cx.strict {
                Err(
                    cx.fail(
                        codes::TYPE_MISMATCH@,
                        "`!` requires a `bool` operand, but the type cannot be determined"@,
                        span,
                        Some("add explicit type annotations"@),
                    ),
                )
            } else {
                Ok((is_ty(Ty::Unknown), st))
            }
        } else {
            Err(
                cx.fail(
                    codes::TYPE_MISMATCH@,
                    "`!` requires a `bool` operand, got `"@ + res.ty.text() + "`"@,
                    span,
                    Some("logical NOT works on `bool` values"@),
                ),
            )
        },
    }
}

/// Texts joined by a comma and a space.
pub open spec fn comma_joined(ts: Seq<Seq<char>>) -> Seq<char>
    decreases ts.len(),
{
    if ts.len() == 0 {
        Seq::empty()
    } else if ts.len() == 1 {
        ts[0]
    } else {
        comma_joined(ts.drop_last()) + ", "@ + ts.last()
    }
}

/// A parameter of a signature as it is written.
pub open spec fn ffi_param_text(p: FfiParamV) -> Seq<char> {
    p.name + ": "@ + p.ty.text()
}

/// A signature as it is written.
pub open spec fn ffi_sig_text(sig: FfiSigV) -> Seq<char> {
    "`fn "@ + sig.name + "("@ + comma_joined(sig.params.map_values(|p: FfiParamV| ffi_param_text(p)))
        + ") -> "@ + sig.ret.text() + "`"@
}

/// The type that a C ABI type asks of an argument; a pointer asks nothing.
pub open spec fn ffi_want(t: FfiTy) -> Option<Ty> {
    match t {
        FfiTy::Int => Some(Ty::Int),
        FfiTy::Float => Some(Ty::Float),
        FfiTy::Bool => Some(Ty::Bool),
        FfiTy::Str => Some(Ty::Str),
        FfiTy::Ptr => None,
        FfiTy::Void => None,
    }
}

/// The type of a C ABI result.
pub open spec fn ffi_ret(t: FfiTy) -> Ty {
    match t {
        FfiTy::Int => Ty::Int,
        FfiTy::Float => Ty::Float,
        FfiTy::Bool => Ty::Bool,
        FfiTy::Str => Ty::Str,
        FfiTy::Ptr => Ty::Unknown,
        FfiTy::Void => Ty::Void,
    }
}

/// Whether an argument may be given for a parameter: an integer may be given for a
/// floating-point number too.
pub open spec fn ffi_takes(p: FfiParamV, arg: TyRes) -> bool {
    match ffi_want(p.ty) {
        Some(t) => arg.ty == Ty::Unknown || arg.ty == t || (t == Ty::Float && arg.ty == Ty::Int),
        None => true,
    }
}

/// The first argument from `i` on that its parameter does not take.
pub open spec fn ffi_misfit(sig: FfiSigV, args: Seq<TyRes>, i: int) -> Option<int>
    decreases sig.params.len() - i,
{
    if i < 0 || i >= sig.params.len() || i >= args.len() {
        None
    } else if ffi_takes(sig.params[i], args[i]) {
        ffi_misfit(sig, args, i + 1)
    } else {
        Some(i)
    }
}

/// A call of a declared foreign function.
pub open spec fn ffi_call_ty(cx: CxV, sig: FfiSigV, args: Seq<TyRes>, span: Span) -> Result<
    TyRes,
    ErrV,
> {
    match sig.unsupported {
        Some(reason) => Err(
            cx.fail(
                codes::NOT_IMPLEMENTED@,
                "`"@ + sig.name + "` cannot be called: "@ + reason,
                span,
                Some(
                    "declare a manual signature for this function, or use `ptr` for the unsupported parts"@,
                ),
            ),
        ),
        None => if sig.params.len() != args.len() {
            Err(
                cx.fail(
                    codes::ARG_COUNT@,
                    "wrong number of arguments: `"@ + sig.name + "` expects "@ + dec(
                        sig.params.len(),
                    ) + ", got "@ + dec(args.len()),
                    span,
                    Some("declared signature: "@ + ffi_sig_text(sig)),
                ),
            )
        } else {
            match ffi_misfit(sig, args, 0) {
                Some(i) => Err(
                    cx.fail(
                        codes::TYPE_MISMATCH@,
                        "`"@ + sig.name + "` parameter `"@ + sig.params[i].name + "` expects `"@
                            + sig.params[i].ty.text() + "`, got `"@ + args[i].ty.text() + "`"@,
                        span,
                        Some("declared signature: "@ + ffi_sig_text(sig)),
                    ),
                ),
                None => Ok(is_ty(ffi_ret(sig.ret))),
            }
        },
    }
}

/// The arguments of a call from `i` on go into the parameters of a function.
pub open spec fn args_flow(cx: CxV, st: StV, f: FnV, args: Seq<TyRes>, span: Span, i: int) -> Result<
    StV,
    ErrV,
>
    decreases args.len() - i,
{
    if i < 0 || i >= args.len() {
        Ok(st)
    } else {
        match flow(
            cx,
            st,
            f.param_slots[i],
            args[i],
            span,
            "parameter `"@ + f.params[i] + "` of `"@ + f.name + "`"@,
        ) {
            Err(x) => Err(x),
            Ok(st1) => args_flow(cx, st1, f, args, span, i + 1),
        }
    }
}

/// A call of a function of the program.
pub open spec fn user_call_ty(cx: CxV, st: StV, f: FnV, args: Seq<TyRes>, span: Span) -> Result<
    (TyRes, StV),
    ErrV,
> {
    if f.param_slots.len() != args.len() {
        Err(
            cx.fail(
                codes::ARG_COUNT@,
                "wrong number of arguments: `"@ + f.name + "` expects "@ + dec(f.param_slots.len())
                    + ", got "@ + dec(args.len()),
                span,
                Some("call `"@ + f.name + "("@ + comma_joined(f.params) + ")`"@),
            ),
        )
    } else {
        match args_flow(cx, st, f, args, span, 0) {
            Err(x) => Err(x),
            Ok(st1) => Ok((st1.res(f.ret_slot), st1)),
        }
    }
}

/// The arguments of a construction from `i` on have the types of the fields.
pub open spec fn fields_take(
    cx: CxV,
    st: StV,
    name: Seq<char>,
    fields: Seq<(Seq<char>, Ty)>,
    args: Seq<TyRes>,
    span: Span,
    i: int,
) -> Result<StV, ErrV>
    decreases args.len() - i,
{
    if i < 0 || i >= args.len() {
        Ok(st)
    } else {
        match must_be(
            cx,
            st,
            fields[i].1,
            args[i],
            span,
            "field `"@ + fields[i].0 + "` of struct `"@ + name + "`"@,
        ) {
            Err(x) => Err(x),
            Ok(st1) => fields_take(cx, st1, name, fields, args, span, i + 1),
        }
    }
}

/// The names of fields.
pub open spec fn field_names(fields: Seq<(Seq<char>, Ty)>) -> Seq<Seq<char>> {
    fields.map_values(|f: (Seq<char>, Ty)| f.0)
}

/// The construction of a struct.
pub open spec fn struct_call_ty(
    cx: CxV,
    st: StV,
    name: Seq<char>,
    fields: Seq<(Seq<char>, Ty)>,
    args: Seq<TyRes>,
    span: Span,
) -> Result<(TyRes, StV), ErrV> {
    if fields.len() != args.len() {
        Err(
            cx.fail(
                codes::ARG_COUNT@,
                "wrong number of arguments: struct `"@ + name + "` expects "@ + dec(fields.len())
                    + " fields, got "@ + dec(args.len()),
                span,
                Some("construct with `"@ + name + "("@ + comma_joined(field_names(fields)) + ")`"@),
            ),
        )
    } else {
        match fields_take(cx, st, name, fields, args, span, 0) {
            Err(x) => Err(x),
            Ok(st1) => Ok((is_ty(Ty::Unknown), st1)),
        }
    }
}

/// Whether a number of arguments is one that a function takes.
pub open spec fn arity_ok(a: Arity, n: nat) -> bool {
    match a {
        Arity::Exact(k) => n == k,
        Arity::Range(lo, hi, _, _) => lo <= n <= hi,
        Arity::AtLeastOne => n >= 1,
    }
}

/// The error of a wrong number of arguments.
pub open spec fn arity_fail(cx: CxV, name: Seq<char>, a: Arity, n: nat, span: Span) -> ErrV {
    match a {
        Arity::Exact(k) => cx.fail(
            codes::ARG_COUNT@,
            "wrong number of arguments: `"@ + name + "` expects "@ + dec(k as nat) + ", got "@ + dec(
                n,
            ),
            span,
            Some("check the function signature"@),
        ),
        Arity::Range(_, _, form, help) => cx.fail(
            codes::ARG_COUNT@,
            "wrong number of arguments: `"@ + name + "` expects "@ + form@ + ", got "@ + dec(n),
            span,
            Some(help@),
        ),
        Arity::AtLeastOne => cx.fail(
            codes::ARG_COUNT@,
            "`"@ + name + "` expects at least 1 argument"@,
            span,
            None,
        ),
    }
}

/// An argument that must be a text (`Kind::Str`) or an integer (`Kind::Int`).
pub open spec fn typed_arg(
    cx: CxV,
    st: StV,
    name: Seq<char>,
    arg: TyRes,
    t: Ty,
    what: Seq<char>,
    help: Seq<char>,
    span: Span,
) -> Result<StV, ErrV> {
    if arg.ty == t {
        Ok(st)
    } else if arg.ty == Ty::Unknown {
        if arg.slot is Some {
            push_ty(cx, st, arg, t, span, what)
        } else if cx.strict {
            Err(
                cx.fail(
                    codes::CANNOT_INFER@,
                    "cannot determine the type of "@ + what + ", expected `"@ + t.text() + "`"@,
                    span,
                    Some("add an explicit type annotation"@),
                ),
            )
        } else {
            Ok(st)
        }
    } else {
        Err(
            cx.fail(
                codes::TYPE_MISMATCH@,
                "`"@ + name + "` expects `"@ + t.text() + "` for "@ + what + ", got `"@
                    + arg.ty.text() + "`"@,
                span,
                Some(help),
            ),
        )
    }
}

/// An argument that must be a number.
pub open spec fn number_arg(cx: CxV, st: StV, name: Seq<char>, arg: TyRes, what: Seq<char>, span: Span) -> Result<
    StV,
    ErrV,
> {
    if arg.ty.numeric() {
        Ok(st)
    } else if arg.ty == Ty::Unknown {
        push_ty(cx, st, arg, Ty::Float, span, what)
    } else {
        Err(
            cx.fail(
                codes::TYPE_MISMATCH@,
                "`"@ + name + "` expects a number for "@ + what + ", got `"@ + arg.ty.text() + "`"@,
                span,
                Some("pass an integer or float value"@),
            ),
        )
    }
}

/// The argument `i` of a built-in function, where it is given and something is asked
/// of it.
pub open spec fn want_arg(
    cx: CxV,
    st: StV,
    name: Seq<char>,
    args: Seq<TyRes>,
    i: int,
    want: Option<Want>,
    span: Span,
) -> Result<StV, ErrV> {
    match want {
        None => Ok(st),
        Some(w) => if i >= args.len() {
            Ok(st)
        } else {
            match w.kind {
                Kind::Str => typed_arg(
                    cx,
                    st,
                    name,
                    args[i],
                    Ty::Str,
                    w.what@,
                    "pass a string value"@,
                    span,
                ),
                Kind::Int => typed_arg(
                    cx,
                    st,
                    name,
                    args[i],
                    Ty::Int,
                    w.what@,
                    "pass an integer value"@,
                    span,
                ),
                Kind::Num => number_arg(cx, st, name, args[i], w.what@, span),
                Kind::Cond => condition(cx, st, args[i], span),
            }
        },
    }
}

/// The arguments from `i` on, all of which must be texts.
pub open spec fn all_text(
    cx: CxV,
    st: StV,
    name: Seq<char>,
    args: Seq<TyRes>,
    i: int,
    what: Seq<char>,
    span: Span,
) -> Result<StV, ErrV>
    decreases args.len() - i,
{
    if i < 0 || i >= args.len() {
        Ok(st)
    } else {
        match typed_arg(cx, st, name, args[i], Ty::Str, what, "pass a string value"@, span) {
            Err(x) => Err(x),
            Ok(st1) => all_text(cx, st1, name, args, i + 1, what, span),
        }
    }
}

/// What the arguments of a built-in function must be.
pub open spec fn args_ok(cx: CxV, st: StV, name: Seq<char>, sig: Sig, args: Seq<TyRes>, span: Span) -> Result<
    StV,
    ErrV,
> {
    match want_arg(cx, st, name, args, 0, sig.w0, span) {
        Err(x) => Err(x),
        Ok(st0) => match want_arg(cx, st0, name, args, 1, sig.w1, span) {
            Err(x) => Err(x),
            Ok(st1) => match want_arg(cx, st1, name, args, 2, sig.w2, span) {
                Err(x) => Err(x),
                Ok(st2) => match sig.all {
                    Some(what) => all_text(cx, st2, name, args, 0, what@, span),
                    None => Ok(st2),
                },
            },
        },
    }
}

/// The type of the larger or smaller of two numbers.
pub open spec fn pair_ty(cx: CxV, st: StV, name: Seq<char>, a: TyRes, b: TyRes, span: Span) -> Result<
    (TyRes, StV),
    ErrV,
> {
    if a.ty.numeric() && b.ty.numeric() {
        if a.ty == b.ty {
            Ok((is_ty(a.ty), st))
        } else {
            Err(
                cx.fail(
                    codes::TYPE_MISMATCH@,
                    "`"@ + name + "` requires two operands of the same type, got `"@ + a.ty.text()
                        + "` and `"@ + b.ty.text() + "`"@,
                    span,
                    Some("Hone has no implicit type conversion"@),
                ),
            )
        }
    } else if a.ty == Ty::Unknown && b.ty.numeric() {
        match push_ty(cx, st, a, b.ty, span, "the first argument"@) {
            Err(x) => Err(x),
            Ok(st1) => Ok((is_ty(b.ty), st1)),
        }
    } else if a.ty.numeric() && b.ty == Ty::Unknown {
        match push_ty(cx, st, b, a.ty, span, "the second argument"@) {
            Err(x) => Err(x),
            Ok(st1) => Ok((is_ty(a.ty), st1)),
        }
    } else if a.ty == Ty::Unknown && b.ty == Ty::Unknown {
        Ok((is_ty(Ty::Unknown), st))
    } else {
        Err(
            cx.fail(
                codes::TYPE_MISMATCH@,
                "`"@ + name + "` expects numbers, got `"@ + a.ty.text() + "`"@,
                span,
                Some("pass two numbers of the same type"@),
            ),
        )
    }
}

/// What a call of a built-in function gives, once its arguments are right.
pub open spec fn builtin_ret(cx: CxV, st: StV, name: Seq<char>, ret: Ret, args: Seq<TyRes>, span: Span) -> Result<
    (TyRes, StV),
    ErrV,
> {
    match ret {
        Ret::Is(t) => Ok((is_ty(t), st)),
        Ret::First => Ok((args[0], st)),
        Ret::ByCount => Ok((is_ty(if args.len() == 1 { Ty::Str } else { Ty::Unknown }), st)),
        Ret::Pair => pair_ty(cx, st, name, args[0], args[1], span),
        _ => if args[0].ty.numeric() || args[0].ty == Ty::Unknown {
            Ok((is_ty(if ret == Ret::Sleep { Ty::Void } else { args[0].ty }), st))
        } else {
            Err(
                cx.fail(
                    codes::TYPE_MISMATCH@,
                    "`"@ + name + "` expects a number, got `"@ + args[0].ty.text() + "`"@,
                    span,
                    Some("pass an `int` or `float`"@),
                ),
            )
        },
    }
}

/// A call of a built-in function.
pub open spec fn builtin_ty(cx: CxV, st: StV, name: Seq<char>, args: Seq<TyRes>, span: Span) -> Result<
    (TyRes, StV),
    ErrV,
> {
    match sig_of(name) {
        None => Err(
            cx.fail(
                codes::UNDEFINED@,
                "undefined function `"@ + name + "`"@,
                span,
                Some("check the spelling"@),
            ),
        ),
        Some(sig) => if !arity_ok(sig.arity, args.len()) {
            Err(arity_fail(cx, name, sig.arity, args.len(), span))
        } else {
            match args_ok(cx, st, name, sig, args, span) {
                Err(x) => Err(x),
                Ok(st1) => builtin_ret(cx, st1, name, sig.ret, args, span),
            }
        },
    }
}

/// A call: of a function of the program, a struct, a built-in function, a declared
/// foreign function, or one that is only known when the program runs.
pub open spec fn call_ty(cx: CxV, st: StV, callee: Seq<char>, args: Seq<TyRes>, span: Span) -> Result<
    (TyRes, StV),
    ErrV,
> {
    if cx.fns.dom().contains(callee) {
        user_call_ty(cx, st, cx.fns[callee], args, span)
    } else if cx.structs.dom().contains(callee) {
        struct_call_ty(cx, st, callee, cx.structs[callee], args, span)
    } else if names().contains(callee) {
        builtin_ty(cx, st, callee, args, span)
    } else if st.ffi.dom().contains(callee) {
        match ffi_call_ty(cx, st.ffi[callee], args, span) {
            Err(x) => Err(x),
            Ok(t) => Ok((t, st)),
        }
    } else if st.has_external || callee.contains('.') {
        Ok((is_ty(Ty::Unknown), st))
    } else {
        Err(
            cx.fail(
                codes::UNDEFINED@,
                "undefined function `"@ + callee + "`"@,
                span,
                Some("define it with `fn`, or check the spelling"@),
            ),
        )
    }
}

/// The type of an expression, and what is known after looking at it.
pub open spec fn expr_ty(cx: CxV, st: StV, env: EnvV, e: ExprV) -> Result<(TyRes, StV), ErrV>
    decreases e, 0int,
{
    match e {
        ExprV::IntLit(..) => Ok((is_ty(Ty::Int), st)),
        ExprV::FloatLit(..) => Ok((is_ty(Ty::Float), st)),
        ExprV::BoolLit(..) => Ok((is_ty(Ty::Bool), st)),
        ExprV::StrLit(..) => Ok((is_ty(Ty::Str), st)),
        ExprV::Ident { name, span } => match env.get(name) {
            Some(slot) => Ok((st.res(slot), st)),
            None => Err(
                cx.fail(
                    codes::UNDEFINED@,
                    "undefined variable `"@ + name + "`"@,
                    span,
                    Some("declare the variable before reading it"@),
                ),
            ),
        },
        ExprV::ListLit(items, _) => match exprs_ty(cx, st, env, items, 0, Seq::empty()) {
            Err(x) => Err(x),
            Ok((_, st1)) => Ok((is_ty(Ty::Unknown), st1)),
        },
        ExprV::DictLit(entries, _) => match entries_ty(cx, st, env, entries, 0) {
            Err(x) => Err(x),
            Ok(st1) => Ok((is_ty(Ty::Unknown), st1)),
        },
        ExprV::FStr(segs, _) => match segs_ty(cx, st, env, segs, 0) {
            Err(x) => Err(x),
            Ok(st1) => Ok((is_ty(Ty::Str), st1)),
        },
        ExprV::Field { obj, field, span } => match expr_ty(cx, st, env, *obj) {
            Err(x) => Err(x),
            Ok((res, st1)) => match field_ty(cx, res, field, span) {
                Err(x) => Err(x),
                Ok(t) => Ok((t, st1)),
            },
        },
        ExprV::Unary { op, expr, span } => match expr_ty(cx, st, env, *expr) {
            Err(x) => Err(x),
            Ok((res, st1)) => unary_ty(cx, st1, op, res, span),
        },
        ExprV::Binary { op, lhs, rhs, span } => match expr_ty(cx, st, env, *lhs) {
            Err(x) => Err(x),
            Ok((l, st1)) => match expr_ty(cx, st1, env, *rhs) {
                Err(x) => Err(x),
                Ok((r, st2)) => binary_ty(cx, st2, op, l, r, span),
            },
        },
        ExprV::Call { callee, args, span } => match exprs_ty(cx, st, env, args, 0, Seq::empty()) {
            Err(x) => Err(x),
            Ok((ts, st1)) => call_ty(cx, st1, callee, ts, span),
        },
        ExprV::Match { value, arms, .. } => match expr_ty(cx, st, env, *value) {
            Err(x) => Err(x),
            Ok((_, st1)) => match arms_ty(cx, st1, env, arms, 0) {
                Err(x) => Err(x),
                Ok(st2) => Ok((is_ty(Ty::Unknown), st2)),
            },
        },
    }
}

/// The types of the expressions from `i` on, behind those in `acc`.
pub open spec fn exprs_ty(cx: CxV, st: StV, env: EnvV, es: Seq<ExprV>, i: int, acc: Seq<TyRes>) -> Result<
    (Seq<TyRes>, StV),
    ErrV,
>
    decreases es, es.len() - i,
{
    if i < 0 || i >= es.len() {
        Ok((acc, st))
    } else {
        match expr_ty(cx, st, env, es[i]) {
            Err(x) => Err(x),
            Ok((t, st1)) => exprs_ty(cx, st1, env, es, i + 1, acc.push(t)),
        }
    }
}

/// The values of the entries from `i` on.
pub open spec fn entries_ty(cx: CxV, st: StV, env: EnvV, es: Seq<(Seq<char>, ExprV)>, i: int) -> Result<
    StV,
    ErrV,
>
    decreases es, es.len() - i,
{
    if i < 0 || i >= es.len() {
        Ok(st)
    } else {
        match expr_ty(cx, st, env, es[i].1) {
            Err(x) => Err(x),
            Ok((_, st1)) => entries_ty(cx, st1, env, es, i + 1),
        }
    }
}

/// The code in the pieces of an interpolated text from `i` on.
pub open spec fn segs_ty(cx: CxV, st: StV, env: EnvV, ss: Seq<SegV>, i: int) -> Result<StV, ErrV>
    decreases ss, ss.len() - i,
{
    if i < 0 || i >= ss.len() {
        Ok(st)
    } else {
        match ss[i] {
            SegV::Lit(_) => segs_ty(cx, st, env, ss, i + 1),
            SegV::Code(e) => match expr_ty(cx, st, env, e) {
                Err(x) => Err(x),
                Ok((_, st1)) => segs_ty(cx, st1, env, ss, i + 1),
            },
        }
    }
}

/// The arms of a match from `i` on.
pub open spec fn arms_ty(cx: CxV, st: StV, env: EnvV, arms: Seq<(Option<ExprV>, ExprV)>, i: int) -> Result<
    StV,
    ErrV,
>
    decreases arms, arms.len() - i,
{
    if i < 0 || i >= arms.len() {
        Ok(st)
    } else {
        let pat = match arms[i].0 {
            None => Ok(st),
            Some(p) => match expr_ty(cx, st, env, p) {
                Err(x) => Err(x),
                Ok((_, st1)) => Ok(st1),
            },
        };
        match pat {
            Err(x) => Err(x),
            Ok(st1) => match expr_ty(cx, st1, env, arms[i].1) {
                Err(x) => Err(x),
                Ok((_, st2)) => arms_ty(cx, st2, env, arms, i + 1),
            },
        }
    }
}

/// The full name of a foreign function.
pub open spec fn ffi_key(alias: Option<Seq<char>>, name: Seq<char>) -> Seq<char> {
    match alias {
        Some(a) => a + "."@ + name,
        None => name,
    }
}

/// The declared foreign functions with the signatures from `i` on added; a later
/// declaration of a name takes the place of an earlier one.
pub open spec fn with_sigs(
    ffi: Map<Seq<char>, FfiSigV>,
    alias: Option<Seq<char>>,
    sigs: Seq<FfiSigV>,
    i: int,
) -> Map<Seq<char>, FfiSigV>
    decreases sigs.len() - i,
{
    if i < 0 || i >= sigs.len() {
        ffi
    } else {
        with_sigs(ffi.insert(ffi_key(alias, sigs[i].name), sigs[i]), alias, sigs, i + 1)
    }
}

/// The place of an error in a header.
pub open spec fn header_span() -> Span {
    Span { line: 1, col: 1, len: 1 }
}

/// The error of a header that was not read.
pub open spec fn header_fail(cx: CxV, path: Seq<char>, why: Seq<char>) -> ErrV {
    cx.fail(
        codes::NOT_FOUND@,
        "cannot read header `"@ + path + "`: "@ + why,
        header_span(),
        Some("check the header path, or remove the `from` clause"@),
    )
}

/// The foreign functions of a `load`: those of its header first, then those of its
/// block.
pub open spec fn load_sigs(
    cx: CxV,
    st: StV,
    alias: Option<Seq<char>>,
    from: Option<Seq<char>>,
    sigs: Seq<FfiSigV>,
) -> Result<StV, ErrV> {
    let known = match from {
        None => Ok(st.ffi),
        Some(path) => if !cx.headers.dom().contains(path) {
            Err(header_fail(cx, path, "it was not looked up"@))
        } else {
            match cx.headers[path] {
                Err(why) => Err(header_fail(cx, path, why)),
                Ok(hs) => Ok(with_sigs(st.ffi, alias, hs, 0)),
            }
        },
    };
    match known {
        Err(x) => Err(x),
        Ok(ffi) => Ok(
            StV { has_external: true, ffi: with_sigs(ffi, alias, sigs, 0), ..st },
        ),
    }
}

/// The place of a variable in errors.
pub open spec fn variable(name: Seq<char>) -> Seq<char> {
    "variable `"@ + name + "`"@
}

/// A statement: what is known and in scope after it.
pub open spec fn stmt_ty(cx: CxV, st: StV, env: EnvV, s: StmtV) -> Result<(StV, EnvV), ErrV>
    decreases s, 0int,
{
    match s {
        StmtV::VarDecl { name, ty, init, span } => {
            let t = Ty::of(ty);
            let after = match init {
                None => Ok(st),
                Some(e) => match expr_ty(cx, st, env, e) {
                    Err(x) => Err(x),
                    Ok((res, st1)) => must_be(cx, st1, t, res, span, variable(name)),
                },
            };
            match after {
                Err(x) => Err(x),
                Ok(st1) => declare(cx, st1, env, name, Some(t), span),
            }
        },
        StmtV::Assign { name, value, span } => match expr_ty(cx, st, env, value) {
            Err(x) => Err(x),
            Ok((res, st1)) => match env.get(name) {
                Some(slot) => match flow(cx, st1, slot, res, span, variable(name)) {
                    Err(x) => Err(x),
                    Ok(st2) => Ok((st2, env)),
                },
                None => Ok(
                    (
                        st1.add(if res.ty == Ty::Unknown { None } else { Some(res.ty) }),
                        env.put(name, st1.fresh()),
                    ),
                ),
            },
        },
        StmtV::Block { stmts, .. } => block_ty(cx, st, env, stmts),
        StmtV::If { cond, then_branch, else_branch, span } => match expr_ty(cx, st, env, cond) {
            Err(x) => Err(x),
            Ok((res, st1)) => match condition(cx, st1, res, span) {
                Err(x) => Err(x),
                Ok(st2) => match block_ty(cx, st2, env, then_branch) {
                    Err(x) => Err(x),
                    Ok((st3, env3)) => match else_branch {
                        None => Ok((st3, env3)),
                        Some(eb) => block_ty(cx, st3, env3, eb),
                    },
                },
            },
        },
        StmtV::While { cond, body, span } => match expr_ty(cx, st, env, cond) {
            Err(x) => Err(x),
            Ok((res, st1)) => match condition(cx, st1, res, span) {
                Err(x) => Err(x),
                Ok(st2) => block_ty(cx, st2, env, body),
            },
        },
        StmtV::ForIn { var, var2, iter, body, span } => match expr_ty(cx, st, env, iter) {
            Err(x) => Err(x),
            Ok((_, st1)) => match declare(cx, st1, env.enter(), var, None, span) {
                Err(x) => Err(x),
                Ok((st2, env2)) => match declare_opt(cx, st2, env2, var2, span) {
                    Err(x) => Err(x),
                    Ok((st3, env3)) => match stmts_ty(cx, st3, env3, body, 0) {
                        Err(x) => Err(x),
                        Ok((st4, env4)) => Ok((st4, env4.leave())),
                    },
                },
            },
        },
        StmtV::Return { value, span } => if !env.in_fn {
            Err(
                cx.fail(
                    codes::SYNTAX@,
                    "`return` is only allowed inside a function"@,
                    span,
                    Some("move the `return` into a `fn` body"@),
                ),
            )
        } else {
            let st0 = StV { has_return: true, ..st };
            let what = "the function's return type"@;
            let after = match value {
                None => lock_slot(cx, st0, env.ret_slot, Ty::Void, span, what),
                Some(e) => match expr_ty(cx, st0, env, e) {
                    Err(x) => Err(x),
                    Ok((res, st1)) => flow(cx, st1, env.ret_slot, res, span, what),
                },
            };
            match after {
                Err(x) => Err(x),
                Ok(st1) => Ok((st1, env)),
            }
        },
        StmtV::ExprStmt { expr, .. } => match expr_ty(cx, st, env, expr) {
            Err(x) => Err(x),
            Ok((_, st1)) => Ok((st1, env)),
        },
        StmtV::DebugPrint { expr, .. } => match expr_ty(cx, st, env, expr) {
            Err(x) => Err(x),
            Ok((_, st1)) => Ok((st1, env)),
        },
        StmtV::Export { name, span } => if !env.in_fn && !cx.fns.dom().contains(name) {
            Err(
                cx.fail(
                    codes::UNDEFINED@,
                    "`@export` refers to undefined function `"@ + name + "`"@,
                    span,
                    Some("define the function with `fn` before exporting it"@),
                ),
            )
        } else {
            Ok((st, env))
        },
        StmtV::Import { .. } => Ok((StV { has_external: true, ..st }, env)),
        StmtV::Alias { .. } => Ok((StV { has_external: true, ..st }, env)),
        StmtV::Load { alias, from, sigs, .. } => match load_sigs(cx, st, alias, from, sigs) {
            Err(x) => Err(x),
            Ok(st1) => Ok((st1, env)),
        },
        StmtV::Go { callee, args, span } => match exprs_ty(cx, st, env, args, 0, Seq::empty()) {
            Err(x) => Err(x),
            Ok((ts, st1)) => match call_ty(cx, st1, callee, ts, span) {
                Err(x) => Err(x),
                Ok((_, st2)) => Ok((st2, env)),
            },
        },
        StmtV::Try { body, catch_var, handler, span } => match block_ty(cx, st, env, body) {
            Err(x) => Err(x),
            Ok((st1, env1)) => match declare(
                cx,
                st1,
                env1.enter(),
                catch_var,
                Some(Ty::Error),
                span,
            ) {
                Err(x) => Err(x),
                Ok((st2, env2)) => match stmts_ty(cx, st2, env2, handler, 0) {
                    Err(x) => Err(x),
                    Ok((st3, env3)) => Ok((st3, env3.leave())),
                },
            },
        },
        StmtV::Throw { value, span } => match expr_ty(cx, st, env, value) {
            Err(x) => Err(x),
            Ok((res, st1)) => match throwable(cx, res, span) {
                Err(x) => Err(x),
                Ok(_) => Ok((st1, env)),
            },
        },
        StmtV::FnDef { .. } => Ok((st, env)),
        StmtV::StructDef { .. } => Ok((st, env)),
        StmtV::Breakpoint { .. } => Ok((st, env)),
        StmtV::Use { .. } => Ok((st, env)),
    }
}

/// The declaration of a second loop variable, where there is one.
pub open spec fn declare_opt(cx: CxV, st: StV, env: EnvV, name: Option<Seq<char>>, span: Span) -> Result<
    (StV, EnvV),
    ErrV,
> {
    match name {
        None => Ok((st, env)),
        Some(n) => declare(cx, st, env, n, None, span),
    }
}

/// The statements of a block, in a scope of their own.
pub open spec fn block_ty(cx: CxV, st: StV, env: EnvV, stmts: Seq<StmtV>) -> Result<
    (StV, EnvV),
    ErrV,
>
    decreases stmts, stmts.len() + 1,
{
    match stmts_ty(cx, st, env.enter(), stmts, 0) {
        Err(x) => Err(x),
        Ok((st1, env1)) => Ok((st1, env1.leave())),
    }
}

/// The statements from `i` on.
pub open spec fn stmts_ty(cx: CxV, st: StV, env: EnvV, stmts: Seq<StmtV>, i: int) -> Result<
    (StV, EnvV),
    ErrV,
>
    decreases stmts, stmts.len() - i,
{
    if i < 0 || i >= stmts.len() {
        Ok((st, env))
    } else {
        match stmt_ty(cx, st, env, stmts[i]) {
            Err(x) => Err(x),
            Ok((st1, env1)) => stmts_ty(cx, st1, env1, stmts, i + 1),
        }
    }
}

/// The body of a function; one without a `return` gives nothing.
pub open spec fn fn_ty(cx: CxV, st: StV, f: FnV) -> Result<StV, ErrV> {
    let env = EnvV { stack: seq![f.top], in_fn: true, ret_slot: f.ret_slot };
    match stmts_ty(cx, StV { has_return: false, ..st }, env, f.body, 0) {
        Err(x) => Err(x),
        Ok((st1, _)) => if st1.has_return {
            Ok(st1)
        } else {
            match (st1.slots[f.ret_slot as int], f.ret_annot) {
                (None, None) => Ok(st1.lock(f.ret_slot, Ty::Void)),
                (Some(_), Some(t)) => Err(
                    cx.fail(
                        codes::TYPE_MISMATCH@,
                        "function `"@ + f.name + "` declares `-> "@ + t.text()
                            + "` but never returns a value"@,
                        f.span,
                        Some("add a `return` statement, or remove the `->` annotation"@),
                    ),
                ),
                _ => Ok(st1),
            }
        },
    }
}

/// The functions named in `order` from `i` on.
pub open spec fn fns_ty(cx: CxV, st: StV, order: Seq<Seq<char>>, i: int) -> Result<StV, ErrV>
    decreases order.len() - i,
{
    if i < 0 || i >= order.len() {
        Ok(st)
    } else {
        match fn_ty(cx, st, cx.fns[order[i]]) {
            Err(x) => Err(x),
            Ok(st1) => fns_ty(cx, st1, order, i + 1),
        }
    }
}

/// One round: all functions, then the statements of the program.
pub open spec fn round_ty(cx: CxV, st: StV, env: EnvV, order: Seq<Seq<char>>, stmts: Seq<StmtV>) -> Result<
    (StV, EnvV),
    ErrV,
> {
    match fns_ty(cx, st, order, 0) {
        Err(x) => Err(x),
        Ok(st1) => stmts_ty(cx, st1, env, stmts, 0),
    }
}

/// Rounds until nothing changes, thirty-three at most; `done` have been made.
pub open spec fn settle(
    cx: CxV,
    st: StV,
    env: EnvV,
    order: Seq<Seq<char>>,
    stmts: Seq<StmtV>,
    done: nat,
) -> Result<(StV, EnvV), ErrV>
    decreases 33 - done,
{
    match round_ty(cx, StV { changed: false, ..st }, env, order, stmts) {
        Err(x) => Err(x),
        Ok((st1, env1)) => if !st1.changed || done >= 32 {
            Ok((st1, env1))
        } else {
            settle(cx, st1, env1, order, stmts, done + 1)
        },
    }
}

/// What registering a program gathers: slots, functions in the order in which they
/// came, and structs.
#[verifier::ext_equal]
pub struct RegV {
    pub slots: Seq<Option<Ty>>,
    pub fns: Map<Seq<char>, FnV>,
    pub order: Seq<Seq<char>>,
    pub structs: Map<Seq<char>, Seq<(Seq<char>, Ty)>>,
}

impl RegV {
    /// What is gathered, with the slots of a state.
    pub open spec fn with(self, st: StV) -> RegV {
        RegV { slots: st.slots, ..self }
    }

    /// The state of knowledge that the slots are.
    pub open spec fn st(self) -> StV {
        StV {
            slots: self.slots,
            changed: false,
            has_return: false,
            has_external: false,
            ffi: Map::empty(),
        }
    }
}

/// A declaration while a program is registered.
pub open spec fn reg_declare(
    cx: CxV,
    rg: RegV,
    env: EnvV,
    name: Seq<char>,
    ty: Option<Ty>,
    span: Span,
) -> Result<(RegV, EnvV), ErrV> {
    match declare(cx, rg.st(), env, name, ty, span) {
        Err(x) => Err(x),
        Ok((st, env1)) => Ok((rg.with(st), env1)),
    }
}

/// The first parameter whose name an earlier one has.
pub open spec fn twice(params: Seq<ParamV>, i: int) -> Option<int>
    decreases params.len() - i,
{
    if i < 0 || i >= params.len() {
        None
    } else if exists|j: int| 0 <= j < i && (#[trigger] params[j]).name == params[i].name {
        Some(i)
    } else {
        twice(params, i + 1)
    }
}

/// The type that is written down, where one is.
pub open spec fn annot(t: Option<TyName>) -> Option<Ty> {
    match t {
        Some(t) => Some(Ty::of(t)),
        None => None,
    }
}

/// The slots of parameters, behind `slots`.
pub open spec fn param_types(params: Seq<ParamV>) -> Seq<Option<Ty>> {
    params.map_values(|p: ParamV| annot(p.ty))
}

/// The scope of parameters, the first of which has slot `first`.
pub open spec fn param_scope(params: Seq<ParamV>, first: nat) -> Map<Seq<char>, usize>
    decreases params.len(),
{
    if params.len() == 0 {
        Map::empty()
    } else {
        param_scope(params.drop_last(), first).insert(
            params.last().name,
            (first + params.len() - 1) as usize,
        )
    }
}

/// Registers a function and the functions inside it.
pub open spec fn reg_fn(
    cx: CxV,
    rg: RegV,
    name: Seq<char>,
    params: Seq<ParamV>,
    ret: Option<TyName>,
    body: Seq<StmtV>,
    span: Span,
) -> Result<RegV, ErrV>
    decreases body, body.len() + 1,
{
    if rg.fns.dom().contains(name) || names().contains(name) {
        Err(
            cx.fail(
                codes::UNDEFINED@,
                "`"@ + name + "` is already defined"@,
                span,
                Some("function names must be unique; builtin names cannot be redefined"@),
            ),
        )
    } else if twice(params, 0) is Some {
        let p = params[twice(params, 0)->0];
        Err(
            cx.fail(
                codes::UNDEFINED@,
                "duplicate parameter name `"@ + p.name + "` in function `"@ + name + "`"@,
                p.span,
                Some("rename one of the parameters"@),
            ),
        )
    } else {
        let first = rg.slots.len();
        let rg1 = RegV { slots: rg.slots + param_types(params), ..rg };
        let env = EnvV { stack: seq![param_scope(params, first)], in_fn: true, ret_slot: 0 };
        match reg_stmts(cx, rg1, env, body, 0) {
            Err(x) => Err(x),
            Ok((rg2, env2)) => {
                let f = FnV {
                    name,
                    params: params.map_values(|p: ParamV| p.name),
                    param_slots: Seq::new(params.len(), |i: int| (first + i) as usize),
                    ret_slot: rg2.slots.len() as usize,
                    ret_annot: annot(ret),
                    body,
                    span,
                    top: env2.stack[0],
                };
                Ok(
                    RegV {
                        slots: rg2.slots.push(annot(ret)),
                        fns: rg2.fns.insert(name, f),
                        order: if rg2.fns.dom().contains(name) {
                            rg2.order
                        } else {
                            rg2.order.push(name)
                        },
                        ..rg2
                    },
                )
            },
        }
    }
}

/// The fields of a struct with their types.
pub open spec fn typed_fields(fields: Seq<(Seq<char>, TyName)>) -> Seq<(Seq<char>, Ty)> {
    fields.map_values(|f: (Seq<char>, TyName)| (f.0, Ty::of(f.1)))
}

/// Registers what a statement defines and declares.
pub open spec fn reg_stmt(cx: CxV, rg: RegV, env: EnvV, s: StmtV) -> Result<(RegV, EnvV), ErrV>
    decreases s, 0int,
{
    match s {
        StmtV::FnDef { name, params, ret, body, span, tmp } => if tmp {
            Ok((rg, env))
        } else {
            match reg_fn(cx, rg, name, params, ret, body, span) {
                Err(x) => Err(x),
                Ok(rg1) => Ok((rg1, env)),
            }
        },
        StmtV::Block { stmts, .. } => reg_block(cx, rg, env, stmts),
        StmtV::If { then_branch, else_branch, .. } => match reg_block(cx, rg, env, then_branch) {
            Err(x) => Err(x),
            Ok((rg1, env1)) => match else_branch {
                None => Ok((rg1, env1)),
                Some(eb) => reg_block(cx, rg1, env1, eb),
            },
        },
        StmtV::While { body, .. } => reg_block(cx, rg, env, body),
        StmtV::ForIn { var, var2, body, span, .. } => match reg_declare(
            cx,
            rg,
            env.enter(),
            var,
            None,
            span,
        ) {
            Err(x) => Err(x),
            Ok((rg1, env1)) => {
                let second = match var2 {
                    None => Ok((rg1, env1)),
                    Some(v) => reg_declare(cx, rg1, env1, v, None, span),
                };
                match second {
                    Err(x) => Err(x),
                    Ok((rg2, env2)) => match reg_stmts(cx, rg2, env2, body, 0) {
                        Err(x) => Err(x),
                        Ok((rg3, env3)) => Ok((rg3, env3.leave())),
                    },
                }
            },
        },
        StmtV::Try { body, catch_var, handler, span } => match reg_block(cx, rg, env, body) {
            Err(x) => Err(x),
            Ok((rg1, env1)) => match reg_declare(
                cx,
                rg1,
                env1.enter(),
                catch_var,
                Some(Ty::Error),
                span,
            ) {
                Err(x) => Err(x),
                Ok((rg2, env2)) => match reg_stmts(cx, rg2, env2, handler, 0) {
                    Err(x) => Err(x),
                    Ok((rg3, env3)) => Ok((rg3, env3.leave())),
                },
            },
        },
        StmtV::VarDecl { name, span, .. } => reg_declare(cx, rg, env, name, None, span),
        StmtV::Assign { name, span, .. } => reg_declare(cx, rg, env, name, None, span),
        StmtV::StructDef { name, fields, span } => if env.in_fn {
            Ok((rg, env))
        } else if rg.structs.dom().contains(name) {
            Err(
                cx.fail(
                    codes::SYNTAX@,
                    "struct `"@ + name + "` is already defined"@,
                    span,
                    Some("struct names must be unique"@),
                ),
            )
        } else {
            Ok((RegV { structs: rg.structs.insert(name, typed_fields(fields)), ..rg }, env))
        },
        _ => Ok((rg, env)),
    }
}

/// Registers the statements of a block, in a scope of their own.
pub open spec fn reg_block(cx: CxV, rg: RegV, env: EnvV, stmts: Seq<StmtV>) -> Result<
    (RegV, EnvV),
    ErrV,
>
    decreases stmts, stmts.len() + 1,
{
    match reg_stmts(cx, rg, env.enter(), stmts, 0) {
        Err(x) => Err(x),
        Ok((rg1, env1)) => Ok((rg1, env1.leave())),
    }
}

/// Registers the statements from `i` on.
pub open spec fn reg_stmts(cx: CxV, rg: RegV, env: EnvV, stmts: Seq<StmtV>, i: int) -> Result<
    (RegV, EnvV),
    ErrV,
>
    decreases stmts, stmts.len() - i,
{
    if i < 0 || i >= stmts.len() {
        Ok((rg, env))
    } else {
        match reg_stmt(cx, rg, env, stmts[i]) {
            Err(x) => Err(x),
            Ok((rg1, env1)) => reg_stmts(cx, rg1, env1, stmts, i + 1),
        }
    }
}

/// What headers say, by path: the signatures, or why they could not be read.
pub type HeadersV = Map<Seq<char>, Result<Seq<FfiSigV>, Seq<char>>>;

/// The verdict on a program: the first error, or none. Functions and declarations are
/// registered, then rounds are made until nothing more becomes known, and a last round
/// reports what is still not known.
pub open spec fn verdict(
    file: Seq<char>,
    src: Seq<char>,
    headers: HeadersV,
    stmts: Seq<StmtV>,
) -> Result<(), ErrV> {
    let none = CxV {
        file,
        src,
        fns: Map::empty(),
        structs: Map::empty(),
        headers,
        strict: false,
    };
    let rg0 = RegV {
        slots: Seq::empty(),
        fns: Map::empty(),
        order: Seq::empty(),
        structs: Map::empty(),
    };
    let env0 = EnvV { stack: seq![Map::empty()], in_fn: false, ret_slot: 0 };
    match reg_stmts(none, rg0, env0, stmts, 0) {
        Err(x) => Err(x),
        Ok((rg, env)) => {
            let cx = CxV { fns: rg.fns, structs: rg.structs, ..none };
            match settle(cx, rg.st(), env, rg.order, stmts, 0) {
                Err(x) => Err(x),
                Ok((st, env1)) => match round_ty(
                    CxV { strict: true, ..cx },
                    st,
                    env1,
                    rg.order,
                    stmts,
                ) {
                    Err(x) => Err(x),
                    Ok(_) => Ok(()),
                },
            }
        },
    }
}

} // verus!
