//! Static type checking and inference.

use vstd::prelude::*;

use crate::ast::{
    arms_v, entries_v, exprs_v, fields_v, params_v, seg_v, segs_v, sigs_v, stmts_v, BinOp, Expr,
    ExprV, FStrSeg, FfiParam, FfiParamV, FfiSig, FfiSigV, FfiTy, Param, ParamV, Program, Stmt,
    TyName, UnOp,
};
use crate::builtins::names::{is_builtin, names};
use crate::error::{codes, opt_str, opt_text, ErrV, ZError};
use crate::lexer::Span;
use crate::table::Table;
use crate::text::{cat2, cat3, cat4, cat5, cat6, cat7, cat9, dec_usize, eq, has_char, strs};

pub mod laws;
pub mod results;
pub mod rules;
pub mod sigs;
pub mod sound;

use rules::{
    all_text, annot, args_flow, arith_ty, arity_fail, arms_ty, beside_number, binary_ty, block_ty,
    builtin_ty, call_ty, comma_joined, condition, declare, entries_ty, equal_operands, expr_ty,
    exprs_ty, ffi_call_ty, ffi_key, ffi_misfit, ffi_param_text, ffi_sig_text, ffi_takes,
    field_names, field_ty, fields_take, flow, fn_ty, fns_ty, is_ty, load_sigs, lock_slot,
    logic_operand, lookup, must_be, no_arith, number_arg, operand, ordered_operands, pair_ty,
    param_scope, param_types, push_ty, reg_block, reg_declare, reg_fn, reg_stmt, reg_stmts,
    round_ty, segs_ty, settle, stmt_ty, stmts_ty, struct_call_ty, throwable, twice, typed_arg,
    typed_fields, unary_ty, user_call_ty, variable, verdict, want_arg, with_sigs, CxV, EnvV, FnV,
    HeadersV, RegV, StV, TyRes,
};
use sigs::{signature, Arity, Kind, Ret, Want};

verus! {

/// A type.
#[derive(Debug, Clone, Copy, PartialEq, Eq, Structural)]
pub enum Ty {
    Int,
    Float,
    Bool,
    Str,
    /// The type of a caught error.
    Error,
    Void,
    Unknown,
}

impl Ty {
    /// The name of the type.
    pub open spec fn text(self) -> Seq<char> {
        match self {
            Ty::Int => "int"@,
            Ty::Float => "float"@,
            Ty::Bool => "bool"@,
            Ty::Str => "str"@,
            Ty::Error => "error"@,
            Ty::Void => "void"@,
            Ty::Unknown => "unknown"@,
        }
    }

    /// The name of the type.
    pub fn name(&self) -> (r: &'static str)
        ensures
            r@ == self.text(),
    {
        match self {
            Ty::Int => "int",
            Ty::Float => "float",
            Ty::Bool => "bool",
            Ty::Str => "str",
            Ty::Error => "error",
            Ty::Void => "void",
            Ty::Unknown => "unknown",
        }
    }

    /// The type that is written down.
    pub open spec fn of(t: TyName) -> Ty {
        match t {
            TyName::Int => Ty::Int,
            TyName::Float => Ty::Float,
            TyName::Bool => Ty::Bool,
            TyName::Str => Ty::Str,
        }
    }

    /// The type that is written down.
    pub fn from_annot(t: TyName) -> (r: Ty)
        ensures
            r == Ty::of(t),
    {
        match t {
            TyName::Int => Ty::Int,
            TyName::Float => Ty::Float,
            TyName::Bool => Ty::Bool,
            TyName::Str => Ty::Str,
        }
    }

    /// Whether values of the type are numbers.
    pub open spec fn numeric(self) -> bool {
        self == Ty::Int || self == Ty::Float
    }

    /// Whether values of the type are numbers.
    pub fn is_numeric(self) -> (r: bool)
        ensures
            r == self.numeric(),
    {
        self == Ty::Int || self == Ty::Float
    }
}

/// What was read of a header: its signatures, or why it could not be read.
pub enum HeaderRead {
    Read(Vec<FfiSig>),
    Failed(String),
}

impl HeaderRead {
    /// What was read.
    pub open spec fn v(self) -> Result<Seq<FfiSigV>, Seq<char>> {
        match self {
            HeaderRead::Read(sigs) => Ok(sigs_v(sigs@)),
            HeaderRead::Failed(why) => Err(why@),
        }
    }
}

/// What was read of headers, by path.
pub open spec fn headers_v(hs: Map<Seq<char>, HeaderRead>) -> HeadersV {
    hs.map_values(|h: HeaderRead| h.v())
}

/// A registered function.
struct FnInfo<'a> {
    name: &'a String,
    params: &'a Vec<Param>,
    param_slots: Vec<usize>,
    ret_slot: usize,
    ret_annot: Option<Ty>,
    body: &'a Vec<Stmt>,
    span: Span,
    top: Table<usize>,
}

spec fn param_names(ps: Seq<Param>) -> Seq<Seq<char>> {
    params_v(ps).map_values(|p: ParamV| p.name)
}

impl<'a> FnInfo<'a> {
    spec fn v(self) -> FnV {
        FnV {
            name: self.name@,
            params: param_names(self.params@),
            param_slots: self.param_slots@,
            ret_slot: self.ret_slot,
            ret_annot: self.ret_annot,
            body: stmts_v(self.body@),
            span: self.span,
            top: self.top@,
        }
    }

    spec fn wf(self, n: nat) -> bool {
        &&& self.param_slots.len() == self.params.len()
        &&& forall|i: int| 0 <= i < self.param_slots.len() ==> #[trigger] self.param_slots@[i] < n
        &&& self.ret_slot < n
        &&& self.top.wf()
        &&& below(self.top@, n)
    }
}

/// Whether the slots of a scope are among the first `n`.
spec fn below(m: Map<Seq<char>, usize>, n: nat) -> bool {
    forall|k: Seq<char>| #[trigger] m.dom().contains(k) ==> m[k] < n
}

/// What stays the same while a program is checked.
struct Ctx<'a> {
    file: &'a str,
    src: &'a str,
    fns: Table<FnInfo<'a>>,
    structs: Table<&'a Vec<(String, TyName)>>,
    headers: &'a Table<HeaderRead>,
    strict: bool,
}

spec fn fns_v<'a>(m: Map<Seq<char>, FnInfo<'a>>) -> Map<Seq<char>, FnV> {
    m.map_values(|f: FnInfo<'a>| f.v())
}

spec fn structs_v<'a>(m: Map<Seq<char>, &'a Vec<(String, TyName)>>) -> Map<
    Seq<char>,
    Seq<(Seq<char>, Ty)>,
> {
    m.map_values(|f: &'a Vec<(String, TyName)>| typed_fields(fields_v(f@)))
}

impl<'a> Ctx<'a> {
    spec fn v(self) -> CxV {
        CxV {
            file: self.file@,
            src: self.src@,
            fns: fns_v(self.fns@),
            structs: structs_v(self.structs@),
            headers: headers_v(self.headers@),
            strict: self.strict,
        }
    }

    spec fn wf(self, n: nat) -> bool {
        &&& self.fns.wf()
        &&& self.structs.wf()
        &&& self.headers.wf()
        &&& forall|k: Seq<char>| #[trigger] self.fns@.dom().contains(k) ==> self.fns@[k].wf(n)
    }

    fn fail(&self, code: &'static str, msg: &str, span: Span, help: Option<&str>) -> (r: ZError)
        ensures
            r@ == self.v().fail(code@, msg@, span, opt_str(help)),
    {
        let len: usize = if span.len == 0 { 1 } else { span.len };
        ZError::new(code, msg, self.file, self.src, span.line, span.col, len, help)
    }
}

/// What is known of the program so far.
struct State<'a> {
    slots: Vec<Option<Ty>>,
    changed: bool,
    has_return: bool,
    has_external: bool,
    ffi: Table<&'a FfiSig>,
}

spec fn ffi_v<'a>(m: Map<Seq<char>, &'a FfiSig>) -> Map<Seq<char>, FfiSigV> {
    m.map_values(|s: &'a FfiSig| s@)
}

impl<'a> State<'a> {
    spec fn v(self) -> StV {
        StV {
            slots: self.slots@,
            changed: self.changed,
            has_return: self.has_return,
            has_external: self.has_external,
            ffi: ffi_v(self.ffi@),
        }
    }
}

/// Whether the slot of a result is among the first `n`.
spec fn res_ok(r: TyRes, n: nat) -> bool {
    r.slot matches Some(s) ==> s < n
}

spec fn args_ok_slots(args: Seq<TyRes>, n: nat) -> bool {
    forall|i: int| 0 <= i < args.len() ==> res_ok(#[trigger] args[i], n)
}

/// The names in scope.
struct Env {
    stack: Vec<Table<usize>>,
    in_fn: bool,
    ret_slot: usize,
}

spec fn tables_v(ts: Seq<Table<usize>>) -> Seq<Map<Seq<char>, usize>> {
    ts.map_values(|t: Table<usize>| t@)
}

impl Env {
    spec fn v(self) -> EnvV {
        EnvV { stack: tables_v(self.stack@), in_fn: self.in_fn, ret_slot: self.ret_slot }
    }

    spec fn wf(self, n: nat) -> bool {
        &&& self.stack.len() > 0
        &&& forall|i: int|
            0 <= i < self.stack.len() ==> (#[trigger] self.stack@[i]).wf() && below(
                self.stack@[i]@,
                n,
            )
    }

    /// Whether the slot of the result is among the first `n`.
    spec fn ret_ok(self, n: nat) -> bool {
        self.in_fn ==> self.ret_slot < n
    }

    /// Whether the scopes of `new` are those of `self`, with more names.
    spec fn kept(self, new: Env) -> bool {
        new.stack.len() == self.stack.len() && new.in_fn == self.in_fn && new.ret_slot
            == self.ret_slot
    }

    fn get(&self, name: &str) -> (r: Option<usize>)
        requires
            forall|i: int| 0 <= i < self.stack.len() ==> (#[trigger] self.stack@[i]).wf(),
        ensures
            r == self.v().get(name@),
            forall|n: nat| #[trigger] self.wf(n) ==> (r matches Some(s) ==> s < n),
    {
        let mut i: usize = self.stack.len();
        let ghost stack = tables_v(self.stack@);
        while i > 0
            invariant
                i <= self.stack.len(),
                stack == tables_v(self.stack@),
                forall|j: int| 0 <= j < self.stack.len() ==> (#[trigger] self.stack@[j]).wf(),
                lookup(stack, name@, i as nat) == lookup(stack, name@, stack.len()),
            decreases i,
        {
            assert(stack[i - 1] == self.stack@[i - 1]@);
            match self.stack[i - 1].get(name) {
                Some(s) => {
                    assert(self.stack@[i - 1]@.dom().contains(name@));
                    return Some(*s);
                },
                None => {},
            }
            i = i - 1;
        }
        None
    }

    fn put(&mut self, name: &str, slot: usize)
        requires
            old(self).stack.len() > 0,
            forall|i: int| 0 <= i < old(self).stack.len() ==> (#[trigger] old(self).stack@[i]).wf(),
        ensures
            final(self).v() == old(self).v().put(name@, slot),
            old(self).kept(*final(self)),
            forall|n: nat| old(self).wf(n) && slot < n ==> #[trigger] final(self).wf(n),
    {
        let ghost before = *self;
        let mut t = self.stack.pop().unwrap();
        t.insert(name, slot);
        self.stack.push(t);
        proof {
            assert(tables_v(self.stack@) =~= tables_v(before.stack@).drop_last().push(
                tables_v(before.stack@).last().insert(name@, slot),
            ));
            assert forall|n: nat| before.wf(n) && slot < n implies #[trigger] self.wf(n) by {
                assert forall|i: int| 0 <= i < self.stack.len() implies (#[trigger] self.stack@[i]).wf()
                    && below(self.stack@[i]@, n) by {
                    if i < self.stack.len() - 1 {
                        assert(self.stack@[i] == before.stack@[i]);
                    } else {
                        assert(below(before.stack@[i]@, n));
                    }
                }
            }
        }
    }

    fn enter(&mut self)
        ensures
            final(self).v() == old(self).v().enter(),
            final(self).in_fn == old(self).in_fn,
            final(self).ret_slot == old(self).ret_slot,
            final(self).stack.len() == old(self).stack.len() + (if old(self).in_fn { 1int } else { 0 }),
            forall|n: nat| old(self).wf(n) ==> #[trigger] final(self).wf(n),
    {
        if self.in_fn {
            let ghost before = *self;
            self.stack.push(Table::new());
            proof {
                assert(tables_v(self.stack@) =~= tables_v(before.stack@).push(Map::empty()));
                assert forall|n: nat| before.wf(n) implies #[trigger] self.wf(n) by {
                    assert forall|i: int| 0 <= i < self.stack.len() implies (
                    #[trigger] self.stack@[i]).wf() && below(self.stack@[i]@, n) by {
                        if i < self.stack.len() - 1 {
                            assert(self.stack@[i] == before.stack@[i]);
                        }
                    }
                }
            }
        }
    }

    fn leave(&mut self)
        requires
            old(self).in_fn ==> old(self).stack.len() > 1,
        ensures
            final(self).v() == old(self).v().leave(),
            final(self).in_fn == old(self).in_fn,
            final(self).ret_slot == old(self).ret_slot,
            final(self).stack.len() == old(self).stack.len() - (if old(self).in_fn { 1int } else { 0 }),
            forall|n: nat| old(self).wf(n) ==> #[trigger] final(self).wf(n),
    {
        if self.in_fn {
            let ghost before = *self;
            let _ = self.stack.pop();
            proof {
                assert(tables_v(self.stack@) =~= tables_v(before.stack@).drop_last());
                assert forall|n: nat| before.wf(n) implies #[trigger] self.wf(n) by {
                    assert forall|i: int| 0 <= i < self.stack.len() implies (
                    #[trigger] self.stack@[i]).wf() && below(self.stack@[i]@, n) by {
                        assert(self.stack@[i] == before.stack@[i]);
                    }
                }
            }
        }
    }
}

/// Scopes stay right when slots are added.
proof fn lemma_more_slots(env: Env, n: nat, m: nat)
    requires
        env.wf(n),
        n <= m,
    ensures
        env.wf(m),
{
    assert forall|i: int| 0 <= i < env.stack.len() implies (#[trigger] env.stack@[i]).wf() && below(
        env.stack@[i]@,
        m,
    ) by {
        assert(below(env.stack@[i]@, n));
    }
}

/// The context stays right when slots are added.
proof fn lemma_more_cx<'a>(cx: Ctx<'a>, n: nat, m: nat)
    requires
        cx.wf(n),
        n <= m,
    ensures
        cx.wf(m),
{
    assert forall|k: Seq<char>| #[trigger] cx.fns@.dom().contains(k) implies cx.fns@[k].wf(m) by {
        let f = cx.fns@[k];
        assert(f.wf(n));
        assert(below(f.top@, m));
    }
}

spec fn st_r<'a>(r: Result<(), ZError>, st: State<'a>) -> Result<StV, ErrV> {
    match r {
        Ok(_) => Ok(st.v()),
        Err(e) => Err(e@),
    }
}

spec fn ty_r<'a>(r: Result<TyRes, ZError>, st: State<'a>) -> Result<(TyRes, StV), ErrV> {
    match r {
        Ok(t) => Ok((t, st.v())),
        Err(e) => Err(e@),
    }
}

spec fn env_r<'a>(r: Result<(), ZError>, st: State<'a>, env: Env) -> Result<(StV, EnvV), ErrV> {
    match r {
        Ok(_) => Ok((st.v(), env.v())),
        Err(e) => Err(e@),
    }
}

fn known(ty: Ty) -> (r: TyRes)
    ensures
        r == is_ty(ty),
{
    TyRes { ty, slot: None }
}

fn operand_text(op: BinOp) -> (r: String)
    ensures
        r@ == operand(op),
{
    cat3("`", op.symbol(), "` operand")
}

fn variable_text(name: &str) -> (r: String)
    ensures
        r@ == variable(name@),
{
    cat3("variable `", name, "`")
}

impl<'a> State<'a> {
    fn lock(&mut self, slot: usize, t: Ty)
        requires
            slot < old(self).slots.len(),
        ensures
            final(self).v() == old(self).v().lock(slot, t),
            final(self).slots.len() == old(self).slots.len(),
            final(self).ffi == old(self).ffi,
    {
        self.slots.set(slot, Some(t));
        self.changed = true;
    }

    fn add_slot(&mut self, t: Option<Ty>) -> (slot: usize)
        ensures
            slot == old(self).v().fresh(),
            slot == old(self).slots.len(),
            final(self).v() == old(self).v().add(t),
            final(self).slots.len() == old(self).slots.len() + 1,
            final(self).ffi == old(self).ffi,
    {
        let slot: usize = self.slots.len();
        if t.is_some() {
            self.changed = true;
        }
        self.slots.push(t);
        slot
    }

    fn res_from_slot(&self, slot: usize) -> (r: TyRes)
        requires
            slot < self.slots.len(),
        ensures
            r == self.v().res(slot),
            res_ok(r, self.slots@.len()),
    {
        match self.slots[slot] {
            Some(t) => {
                if t == Ty::Unknown {
                    TyRes { ty: Ty::Unknown, slot: Some(slot) }
                } else {
                    TyRes { ty: t, slot: None }
                }
            },
            None => TyRes { ty: Ty::Unknown, slot: Some(slot) },
        }
    }

    /// Locks a slot to a type.
    fn unify_slot_ty(&mut self, cx: &Ctx<'a>, slot: usize, t: Ty, span: Span, what: &str) -> (r:
        Result<(), ZError>)
        requires
            slot < old(self).slots.len(),
        ensures
            st_r(r, *final(self)) == lock_slot(cx.v(), old(self).v(), slot, t, span, what@),
            final(self).slots.len() == old(self).slots.len(),
            final(self).ffi == old(self).ffi,
    {
        match self.slots[slot] {
            None => {
                if !cx.strict {
                    self.lock(slot, t);
                }
                Ok(())
            },
            Some(c) => {
                if c == t {
                    Ok(())
                } else {
                    let m = cat7(
                        "type mismatch: ",
                        what,
                        " is locked to `",
                        c.name(),
                        "`, got `",
                        t.name(),
                        "`",
                    );
                    Err(
                        cx.fail(
                            codes::TYPE_MISMATCH,
                            m.as_str(),
                            span,
                            Some(
                                "Hone types are locked after inference; no implicit conversion is allowed",
                            ),
                        ),
                    )
                }
            },
        }
    }

    /// Locks the slot of an expression of an unknown type, unless leftovers are errors.
    fn push(&mut self, cx: &Ctx<'a>, res: TyRes, t: Ty, span: Span, what: &str) -> (r: Result<
        (),
        ZError,
    >)
        requires
            res_ok(res, old(self).slots@.len()),
        ensures
            st_r(r, *final(self)) == push_ty(cx.v(), old(self).v(), res, t, span, what@),
            final(self).slots.len() == old(self).slots.len(),
            final(self).ffi == old(self).ffi,
    {
        match res.slot {
            Some(slot) => {
                if cx.strict {
                    Ok(())
                } else {
                    self.unify_slot_ty(cx, slot, t, span, what)
                }
            },
            None => Ok(()),
        }
    }

    /// Checks that an expression has a type.
    fn unify_with(&mut self, cx: &Ctx<'a>, expected: Ty, res: TyRes, span: Span, what: &str) -> (r:
        Result<(), ZError>)
        requires
            res_ok(res, old(self).slots@.len()),
        ensures
            st_r(r, *final(self)) == must_be(cx.v(), old(self).v(), expected, res, span, what@),
            final(self).slots.len() == old(self).slots.len(),
            final(self).ffi == old(self).ffi,
    {
        if res.ty == Ty::Unknown {
            self.push(cx, res, expected, span, what)
        } else if res.ty == expected {
            Ok(())
        } else {
            let m = cat6(
                "type mismatch: expected `",
                expected.name(),
                "`, got `",
                res.ty.name(),
                "` for ",
                what,
            );
            Err(
                cx.fail(
                    codes::TYPE_MISMATCH,
                    m.as_str(),
                    span,
                    Some("Hone has no implicit type conversion"),
                ),
            )
        }
    }

    /// Lets an expression go into a slot.
    fn unify_slot(&mut self, cx: &Ctx<'a>, slot: usize, res: TyRes, span: Span, what: &str) -> (r:
        Result<(), ZError>)
        requires
            slot < old(self).slots.len(),
            res_ok(res, old(self).slots@.len()),
        ensures
            st_r(r, *final(self)) == flow(cx.v(), old(self).v(), slot, res, span, what@),
            final(self).slots.len() == old(self).slots.len(),
            final(self).ffi == old(self).ffi,
    {
        if res.ty != Ty::Unknown {
            return self.unify_slot_ty(cx, slot, res.ty, span, what);
        }
        if let Some(s) = res.slot {
            if let Some(t) = self.slots[slot] {
                if s != slot && !cx.strict {
                    return self.unify_slot_ty(cx, s, t, span, what);
                }
            }
        }
        Ok(())
    }

    /// Declares a name, with its type where one is given.
    fn bind(
        &mut self,
        cx: &Ctx<'a>,
        env: &mut Env,
        name: &str,
        ty: Option<Ty>,
        span: Span,
    ) -> (r: Result<(), ZError>)
        requires
            old(env).wf(old(self).slots@.len()),
        ensures
            env_r(r, *final(self), *final(env)) == declare(
                cx.v(),
                old(self).v(),
                old(env).v(),
                name@,
                ty,
                span,
            ),
            final(env).wf(final(self).slots@.len()),
            old(env).kept(*final(env)),
            final(self).slots.len() >= old(self).slots.len(),
            final(self).ffi == old(self).ffi,
    {
        match env.get(name) {
            Some(slot) => {
                let cur = self.slots[slot];
                match ty {
                    Some(t) => match cur {
                        Some(c) => {
                            if c == t {
                                Ok(())
                            } else {
                                let m = cat7(
                                    "type mismatch: variable `",
                                    name,
                                    "` is locked to `",
                                    c.name(),
                                    "`, cannot assign `",
                                    t.name(),
                                    "`",
                                );
                                let h = cat5(
                                    "change the value to `",
                                    c.name(),
                                    "`, or declare `",
                                    name,
                                    "` with a different type",
                                );
                                Err(
                                    cx.fail(
                                        codes::TYPE_MISMATCH,
                                        m.as_str(),
                                        span,
                                        Some(h.as_str()),
                                    ),
                                )
                            }
                        },
                        None => {
                            self.lock(slot, t);
                            Ok(())
                        },
                    },
                    None => Ok(()),
                }
            },
            None => {
                let ghost n = self.slots@.len();
                let slot: usize = self.add_slot(ty);
                proof {
                    lemma_more_slots(*env, n, n + 1);
                }
                env.put(name, slot);
                Ok(())
            },
        }
    }

    fn check_throw_value(&self, cx: &Ctx<'a>, res: TyRes, span: Span) -> (r: Result<(), ZError>)
        ensures
            match r {
                Ok(_) => throwable(cx.v(), res, span) is Ok,
                Err(e) => throwable(cx.v(), res, span) == Err::<(), ErrV>(e@),
            },
    {
        if res.ty == Ty::Str || res.ty == Ty::Error || res.ty == Ty::Unknown {
            Ok(())
        } else {
            let m = cat3("`throw` accepts a `str` or `error`, got `", res.ty.name(), "`");
            Err(
                cx.fail(
                    codes::TYPE_MISMATCH,
                    m.as_str(),
                    span,
                    Some("throw a message string, or re-throw an `error` value"),
                ),
            )
        }
    }

    fn check_field(&self, cx: &Ctx<'a>, res: TyRes, field: &str, span: Span) -> (r: Result<
        TyRes,
        ZError,
    >)
        ensures
            match r {
                Ok(t) => field_ty(cx.v(), res, field@, span) == Ok::<TyRes, ErrV>(t) && t.slot is None,
                Err(e) => field_ty(cx.v(), res, field@, span) == Err::<TyRes, ErrV>(e@),
            },
    {
        if res.ty == Ty::Unknown {
            return Ok(known(Ty::Unknown));
        }
        if res.ty != Ty::Error {
            let m = cat5(
                "field access `.",
                field,
                "` requires an `error`, `struct`, or `dict` value, got `",
                res.ty.name(),
                "`",
            );
            return Err(
                cx.fail(
                    codes::TYPE_MISMATCH,
                    m.as_str(),
                    span,
                    Some(
                        "struct instances and dicts support field access; errors expose code/message/...",
                    ),
                ),
            );
        }
        if eq(field, "code") || eq(field, "message") || eq(field, "file") || eq(field, "context") {
            Ok(known(Ty::Str))
        } else if eq(field, "line") || eq(field, "col") {
            Ok(known(Ty::Int))
        } else {
            let m = cat3("unknown error field `", field, "`");
            Err(
                cx.fail(
                    codes::UNDEFINED,
                    m.as_str(),
                    span,
                    Some("error fields: code, message, file, line, col, context"),
                ),
            )
        }
    }

    fn require_operand_bool(&mut self, cx: &Ctx<'a>, res: TyRes, op: BinOp, span: Span) -> (r: Result<
        (),
        ZError,
    >)
        requires
            res_ok(res, old(self).slots@.len()),
        ensures
            st_r(r, *final(self)) == logic_operand(cx.v(), old(self).v(), res, op, span),
            final(self).slots.len() == old(self).slots.len(),
            final(self).ffi == old(self).ffi,
    {
        if res.ty == Ty::Bool {
            Ok(())
        } else if res.ty == Ty::Unknown {
            if res.slot.is_some() {
                let what = operand_text(op);
                self.push(cx, res, Ty::Bool, span, what.as_str())
            } else if cx.strict {
                let m = cat3(
                    "`",
                    op.symbol(),
                    "` requires `bool` operands, but the type cannot be determined",
                );
                Err(
                    cx.fail(
                        codes::TYPE_MISMATCH,
                        m.as_str(),
                        span,
                        Some("add explicit type annotations"),
                    ),
                )
            } else {
                Ok(())
            }
        } else {
            let m = cat5(
                "`",
                op.symbol(),
                "` requires `bool` operands, got `",
                res.ty.name(),
                "`",
            );
            Err(
                cx.fail(
                    codes::TYPE_MISMATCH,
                    m.as_str(),
                    span,
                    Some("use `==`/`!=`/`<`/`>` to build a boolean expression"),
                ),
            )
        }
    }

    fn require_bool(&mut self, cx: &Ctx<'a>, res: TyRes, span: Span) -> (r: Result<(), ZError>)
        requires
            res_ok(res, old(self).slots@.len()),
        ensures
            st_r(r, *final(self)) == condition(cx.v(), old(self).v(), res, span),
            final(self).slots.len() == old(self).slots.len(),
            final(self).ffi == old(self).ffi,
    {
        if res.ty == Ty::Bool {
            Ok(())
        } else if res.ty == Ty::Unknown {
            if res.slot.is_some() {
                self.push(cx, res, Ty::Bool, span, "condition")
            } else {
                Err(
                    cx.fail(
                        codes::COND_NOT_BOOL,
                        "condition must be `bool`, but its type cannot be determined",
                        span,
                        Some("the condition must explicitly evaluate to a `bool`"),
                    ),
                )
            }
        } else {
            let m = cat3("condition must be `bool`, got `", res.ty.name(), "`");
            Err(
                cx.fail(
                    codes::COND_NOT_BOOL,
                    m.as_str(),
                    span,
                    Some("use a comparison like `x == 1`, or a boolean variable"),
                ),
            )
        }
    }

    fn unify_pair(&mut self, cx: &Ctx<'a>, l: TyRes, r: TyRes, span: Span, op: BinOp) -> (o: Result<
        (),
        ZError,
    >)
        requires
            res_ok(l, old(self).slots@.len()),
            res_ok(r, old(self).slots@.len()),
        ensures
            st_r(o, *final(self)) == equal_operands(cx.v(), old(self).v(), l, r, span, op),
            final(self).slots.len() == old(self).slots.len(),
            final(self).ffi == old(self).ffi,
    {
        let sym = op.symbol();
        if l.ty == Ty::Unknown && r.ty == Ty::Unknown {
            Ok(())
        } else if l.ty == Ty::Unknown {
            if l.slot.is_some() {
                let what = operand_text(op);
                self.push(cx, l, r.ty, span, what.as_str())
            } else if cx.strict {
                let m = cat5("cannot compare with `", r.ty.name(), "` using `", sym, "`");
                Err(
                    cx.fail(
                        codes::TYPE_MISMATCH,
                        m.as_str(),
                        span,
                        Some("add explicit type annotations"),
                    ),
                )
            } else {
                Ok(())
            }
        } else if r.ty == Ty::Unknown {
            if r.slot.is_some() {
                let what = operand_text(op);
                self.push(cx, r, l.ty, span, what.as_str())
            } else if cx.strict {
                let m = cat5("cannot compare `", l.ty.name(), "` with `", sym, "`");
                Err(
                    cx.fail(
                        codes::TYPE_MISMATCH,
                        m.as_str(),
                        span,
                        Some("add explicit type annotations"),
                    ),
                )
            } else {
                Ok(())
            }
        } else if l.ty == r.ty {
            Ok(())
        } else {
            let m = cat7(
                "cannot compare `",
                l.ty.name(),
                "` with `",
                r.ty.name(),
                "` using `",
                sym,
                "`",
            );
            Err(
                cx.fail(
                    codes::TYPE_MISMATCH,
                    m.as_str(),
                    span,
                    Some("Hone has no implicit type conversion; make both sides the same type"),
                ),
            )
        }
    }

    fn beside(&mut self, cx: &Ctx<'a>, res: TyRes, t: Ty, span: Span, op: BinOp) -> (o: Result<
        (),
        ZError,
    >)
        requires
            res_ok(res, old(self).slots@.len()),
        ensures
            st_r(o, *final(self)) == beside_number(cx.v(), old(self).v(), res, t, span, op),
            final(self).slots.len() == old(self).slots.len(),
            final(self).ffi == old(self).ffi,
    {
        if res.slot.is_some() {
            let what = operand_text(op);
            self.push(cx, res, t, span, what.as_str())
        } else if cx.strict {
            let m = cat3("cannot determine the type of the `", op.symbol(), "` operand");
            Err(
                cx.fail(
                    codes::TYPE_MISMATCH,
                    m.as_str(),
                    span,
                    Some("add explicit type annotations"),
                ),
            )
        } else {
            Ok(())
        }
    }

    fn unify_numeric(&mut self, cx: &Ctx<'a>, l: TyRes, r: TyRes, span: Span, op: BinOp) -> (o: Result<
        (),
        ZError,
    >)
        requires
            res_ok(l, old(self).slots@.len()),
            res_ok(r, old(self).slots@.len()),
        ensures
            st_r(o, *final(self)) == ordered_operands(cx.v(), old(self).v(), l, r, span, op),
            final(self).slots.len() == old(self).slots.len(),
            final(self).ffi == old(self).ffi,
    {
        let sym = op.symbol();
        if l.ty == Ty::Unknown && r.ty == Ty::Unknown {
            if cx.strict {
                let m = cat3(
                    "`",
                    sym,
                    "` requires numeric operands, but the types cannot be determined",
                );
                Err(
                    cx.fail(
                        codes::TYPE_MISMATCH,
                        m.as_str(),
                        span,
                        Some("add explicit type annotations"),
                    ),
                )
            } else {
                Ok(())
            }
        } else if l.ty == Ty::Unknown && r.ty.is_numeric() {
            self.beside(cx, l, r.ty, span, op)
        } else if l.ty.is_numeric() && r.ty == Ty::Unknown {
            self.beside(cx, r, l.ty, span, op)
        } else if l.ty.is_numeric() && r.ty.is_numeric() && l.ty != r.ty {
            let m = cat7(
                "cannot compare `",
                l.ty.name(),
                "` with `",
                r.ty.name(),
                "` using `",
                sym,
                "` (no implicit conversion)",
            );
            Err(
                cx.fail(
                    codes::TYPE_MISMATCH,
                    m.as_str(),
                    span,
                    Some("convert one side with `to_int` / `to_float` first"),
                ),
            )
        } else if !l.ty.is_numeric() || !r.ty.is_numeric() {
            let t = if !l.ty.is_numeric() { l.ty } else { r.ty };
            let m = cat5("`", sym, "` requires numeric operands, got `", t.name(), "`");
            Err(
                cx.fail(
                    codes::TYPE_MISMATCH,
                    m.as_str(),
                    span,
                    Some("comparison operators work on `int` / `float`"),
                ),
            )
        } else {
            Ok(())
        }
    }

    fn no_arith_err(&self, cx: &Ctx<'a>, op: BinOp, t: Ty, span: Span, help: &str) -> (r: ZError)
        ensures
            r@ == no_arith(cx.v(), op, t, span, help@),
    {
        let m = cat5("cannot apply `", op.symbol(), "` to `", t.name(), "`");
        cx.fail(codes::TYPE_MISMATCH, m.as_str(), span, Some(help))
    }

    fn unify_arith(&mut self, cx: &Ctx<'a>, l: TyRes, r: TyRes, span: Span, op: BinOp) -> (o: Result<
        Ty,
        ZError,
    >)
        requires
            res_ok(l, old(self).slots@.len()),
            res_ok(r, old(self).slots@.len()),
        ensures
            match o {
                Ok(t) => arith_ty(cx.v(), old(self).v(), l, r, span, op) == Ok::<(Ty, StV), ErrV>(
                    (t, final(self).v()),
                ),
                Err(e) => arith_ty(cx.v(), old(self).v(), l, r, span, op) == Err::<(Ty, StV), ErrV>(
                    e@,
                ),
            },
            final(self).slots.len() == old(self).slots.len(),
            final(self).ffi == old(self).ffi,
    {
        let sym = op.symbol();
        if l.ty == Ty::Unknown && r.ty == Ty::Unknown {
            if !cx.strict {
                Ok(Ty::Unknown)
            } else if op == BinOp::Add {
                Err(
                    cx.fail(
                        codes::AMBIGUOUS_OP,
                        "ambiguous `+`: could be `int`/`float` addition or `str` concatenation",
                        span,
                        Some("add explicit type annotations to the operands"),
                    ),
                )
            } else {
                let m = cat3("cannot infer the operand types of `", sym, "`");
                Err(
                    cx.fail(
                        codes::CANNOT_INFER,
                        m.as_str(),
                        span,
                        Some("add explicit type annotations"),
                    ),
                )
            }
        } else if l.ty == Ty::Unknown || r.ty == Ty::Unknown {
            let (open, t) = if l.ty == Ty::Unknown {
                (l, r.ty)
            } else {
                (r, l.ty)
            };
            if t.is_numeric() || (op == BinOp::Add && t == Ty::Str) {
                let what = operand_text(op);
                match self.push(cx, open, t, span, what.as_str()) {
                    Ok(_) => Ok(t),
                    Err(e) => Err(e),
                }
            } else if l.ty == Ty::Unknown {
                let h = cat4(
                    "`",
                    sym,
                    "` works on numbers",
                    if op == BinOp::Add {
                        " and `+` also concatenates strings"
                    } else {
                        ""
                    },
                );
                Err(self.no_arith_err(cx, op, t, span, h.as_str()))
            } else {
                Err(self.no_arith_err(cx, op, t, span, "check the operand type"))
            }
        } else if l.ty.is_numeric() && r.ty.is_numeric() {
            if l.ty == r.ty {
                Ok(l.ty)
            } else {
                let m = cat7(
                    "cannot apply `",
                    sym,
                    "` to `",
                    l.ty.name(),
                    "` and `",
                    r.ty.name(),
                    "` (no implicit conversion)",
                );
                Err(
                    cx.fail(
                        codes::TYPE_MISMATCH,
                        m.as_str(),
                        span,
                        Some("convert one side with `to_int` / `to_float` first"),
                    ),
                )
            }
        } else if l.ty == Ty::Str && r.ty == Ty::Str {
            if op == BinOp::Add {
                Ok(Ty::Str)
            } else {
                Err(
                    self.no_arith_err(
                        cx,
                        op,
                        Ty::Str,
                        span,
                        "`+` concatenates strings; other arithmetic is numeric-only",
                    ),
                )
            }
        } else {
            Err(self.no_arith_err(cx, op, l.ty, span, "check the operand type"))
        }
    }

    fn check_binary(&mut self, cx: &Ctx<'a>, op: BinOp, l: TyRes, r: TyRes, span: Span) -> (o: Result<
        TyRes,
        ZError,
    >)
        requires
            res_ok(l, old(self).slots@.len()),
            res_ok(r, old(self).slots@.len()),
        ensures
            ty_r(o, *final(self)) == binary_ty(cx.v(), old(self).v(), op, l, r, span),
            final(self).slots.len() == old(self).slots.len(),
            final(self).ffi == old(self).ffi,
            o matches Ok(t) ==> t.slot is None,
    {
        match op {
            BinOp::And | BinOp::Or => {
                self.require_operand_bool(cx, l, op, span)?;
                self.require_operand_bool(cx, r, op, span)?;
                Ok(known(Ty::Bool))
            },
            BinOp::Eq | BinOp::Ne => {
                self.unify_pair(cx, l, r, span, op)?;
                Ok(known(Ty::Bool))
            },
            BinOp::Lt | BinOp::Le | BinOp::Gt | BinOp::Ge => {
                self.unify_numeric(cx, l, r, span, op)?;
                Ok(known(Ty::Bool))
            },
            _ => {
                let t = self.unify_arith(cx, l, r, span, op)?;
                Ok(known(t))
            },
        }
    }

    fn check_unary(&mut self, cx: &Ctx<'a>, op: UnOp, res: TyRes, span: Span) -> (o: Result<
        TyRes,
        ZError,
    >)
        requires
            res_ok(res, old(self).slots@.len()),
        ensures
            ty_r(o, *final(self)) == unary_ty(cx.v(), old(self).v(), op, res, span),
            final(self).slots.len() == old(self).slots.len(),
            final(self).ffi == old(self).ffi,
            o matches Ok(t) ==> res_ok(t, final(self).slots@.len()),
    {
        match op {
            UnOp::Neg => {
                if res.ty == Ty::Unknown {
                    if cx.strict {
                        Err(
                            cx.fail(
                                codes::CANNOT_INFER,
                                "cannot infer the type of the operand of unary `-`",
                                span,
                                Some("add an explicit type annotation"),
                            ),
                        )
                    } else {
                        Ok(res)
                    }
                } else if res.ty.is_numeric() {
                    Ok(known(res.ty))
                } else {
                    let m = cat3("unary `-` requires a number, got `", res.ty.name(), "`");
                    Err(
                        cx.fail(
                            codes::TYPE_MISMATCH,
                            m.as_str(),
                            span,
                            Some("negation works on `int` / `float`"),
                        ),
                    )
                }
            },
            UnOp::Not => {
                if res.ty == Ty::Bool {
                    Ok(known(Ty::Bool))
                } else if res.ty == Ty::Unknown {
                    if res.slot.is_some() {
                        self.push(cx, res, Ty::Bool, span, "`!` operand")?;
                        Ok(known(Ty::Bool))
                    } else if cx.strict {
                        Err(
                            cx.fail(
                                codes::TYPE_MISMATCH,
                                "`!` requires a `bool` operand, but the type cannot be determined",
                                span,
                                Some("add explicit type annotations"),
                            ),
                        )
                    } else {
                        Ok(known(Ty::Unknown))
                    }
                } else {
                    let m = cat3("`!` requires a `bool` operand, got `", res.ty.name(), "`");
                    Err(
                        cx.fail(
                            codes::TYPE_MISMATCH,
                            m.as_str(),
                            span,
                            Some("logical NOT works on `bool` values"),
                        ),
                    )
                }
            },
        }
    }
}

/// Texts joined by a comma and a space.
fn join_commas(ts: &Vec<String>) -> (r: String)
    ensures
        r@ == comma_joined(strs(ts@)),
{
    let ghost ss = strs(ts@);
    let mut out = String::new();
    let mut i: usize = 0;
    assert(ss.take(0) =~= Seq::empty());
    while i < ts.len()
        invariant
            i <= ts.len(),
            ss == strs(ts@),
            out@ == comma_joined(ss.take(i as int)),
        decreases ts.len() - i,
    {
        proof {
            assert(ss.take(i + 1).drop_last() =~= ss.take(i as int));
            assert(ss.take(i + 1).last() == ts@[i as int]@);
        }
        if i == 0 {
            out = ts[i].clone();
        } else {
            out.append(", ");
            out.append(ts[i].as_str());
        }
        i = i + 1;
    }
    assert(ss.take(i as int) =~= ss);
    out
}

/// A signature as it is written.
fn show_sig(sig: &FfiSig) -> (r: String)
    ensures
        r@ == ffi_sig_text(sig@),
{
    let mut ps: Vec<String> = Vec::new();
    let ghost want = sig@.params.map_values(|p: FfiParamV| ffi_param_text(p));
    let mut i: usize = 0;
    while i < sig.params.len()
        invariant
            i <= sig.params.len(),
            want == sig@.params.map_values(|p: FfiParamV| ffi_param_text(p)),
            strs(ps@) =~= want.take(i as int),
        decreases sig.params.len() - i,
    {
        let p = &sig.params[i];
        let t = cat3(p.name.as_str(), ": ", p.ty.name());
        proof {
            assert(sig@.params[i as int] == sig.params@[i as int]@);
            assert(want[i as int] == t@);
            assert(strs(ps@.push(t)) =~= strs(ps@).push(t@));
        }
        ps.push(t);
        i = i + 1;
    }
    assert(want.take(i as int) =~= want);
    let joined = join_commas(&ps);
    cat7("`fn ", sig.name.as_str(), "(", joined.as_str(), ") -> ", sig.ret.name(), "`")
}

fn ffi_takes_arg(p: &FfiParam, arg: TyRes) -> (r: bool)
    ensures
        r == ffi_takes(p@, arg),
{
    match p.ty {
        FfiTy::Int => arg.ty == Ty::Unknown || arg.ty == Ty::Int,
        FfiTy::Float => arg.ty == Ty::Unknown || arg.ty == Ty::Float || arg.ty == Ty::Int,
        FfiTy::Bool => arg.ty == Ty::Unknown || arg.ty == Ty::Bool,
        FfiTy::Str => arg.ty == Ty::Unknown || arg.ty == Ty::Str,
        FfiTy::Ptr => true,
        FfiTy::Void => true,
    }
}

impl<'a> State<'a> {
    /// Checks a call of a declared foreign function.
    fn check_ffi_call(&self, cx: &Ctx<'a>, sig: &FfiSig, args: &Vec<TyRes>, span: Span) -> (o: Result<
        TyRes,
        ZError,
    >)
        ensures
            match o {
                Ok(t) => ffi_call_ty(cx.v(), sig@, args@, span) == Ok::<TyRes, ErrV>(t)
                    && t.slot is None,
                Err(e) => ffi_call_ty(cx.v(), sig@, args@, span) == Err::<TyRes, ErrV>(e@),
            },
    {
        assert(sig@.params.len() == sig.params@.len());
        if let Some(reason) = sig.unsupported {
            let m = cat4("`", sig.name.as_str(), "` cannot be called: ", reason);
            return Err(
                cx.fail(
                    codes::NOT_IMPLEMENTED,
                    m.as_str(),
                    span,
                    Some(
                        "declare a manual signature for this function, or use `ptr` for the unsupported parts",
                    ),
                ),
            );
        }
        if sig.params.len() != args.len() {
            let m = cat6(
                "wrong number of arguments: `",
                sig.name.as_str(),
                "` expects ",
                dec_usize(sig.params.len()).as_str(),
                ", got ",
                dec_usize(args.len()).as_str(),
            );
            let h = cat2("declared signature: ", show_sig(sig).as_str());
            return Err(cx.fail(codes::ARG_COUNT, m.as_str(), span, Some(h.as_str())));
        }
        let mut i: usize = 0;
        while i < args.len()
            invariant
                i <= args.len(),
                sig.params.len() == args.len(),
                sig@.params.len() == sig.params@.len(),
                sig.unsupported is None,
                ffi_misfit(sig@, args@, i as int) == ffi_misfit(sig@, args@, 0),
            decreases args.len() - i,
        {
            let p = &sig.params[i];
            assert(sig@.params[i as int] == p@);
            if !ffi_takes_arg(p, args[i]) {
                let m = cat9(
                    "`",
                    sig.name.as_str(),
                    "` parameter `",
                    p.name.as_str(),
                    "` expects `",
                    p.ty.name(),
                    "`, got `",
                    args[i].ty.name(),
                    "`",
                );
                let h = cat2("declared signature: ", show_sig(sig).as_str());
                return Err(cx.fail(codes::TYPE_MISMATCH, m.as_str(), span, Some(h.as_str())));
            }
            i = i + 1;
        }
        let t = match sig.ret {
            FfiTy::Int => Ty::Int,
            FfiTy::Float => Ty::Float,
            FfiTy::Bool => Ty::Bool,
            FfiTy::Str => Ty::Str,
            FfiTy::Ptr => Ty::Unknown,
            FfiTy::Void => Ty::Void,
        };
        Ok(known(t))
    }

    /// Checks a call of a function of the program.
    fn check_user_call(&mut self, cx: &Ctx<'a>, f: &FnInfo<'a>, args: &Vec<TyRes>, span: Span) -> (o:
        Result<TyRes, ZError>)
        requires
            f.wf(old(self).slots@.len()),
            args_ok_slots(args@, old(self).slots@.len()),
        ensures
            ty_r(o, *final(self)) == user_call_ty(cx.v(), old(self).v(), f.v(), args@, span),
            final(self).slots.len() == old(self).slots.len(),
            final(self).ffi == old(self).ffi,
            o matches Ok(t) ==> res_ok(t, final(self).slots@.len()),
    {
        let ghost fv = f.v();
        if f.param_slots.len() != args.len() {
            let mut ps: Vec<String> = Vec::new();
            let mut k: usize = 0;
            while k < f.params.len()
                invariant
                    k <= f.params.len(),
                    fv == f.v(),
                    strs(ps@) =~= fv.params.take(k as int),
                decreases f.params.len() - k,
            {
                let n = f.params[k].name.clone();
                proof {
                    assert(fv.params[k as int] == n@);
                    assert(strs(ps@.push(n)) =~= strs(ps@).push(n@));
                }
                ps.push(n);
                k = k + 1;
            }
            assert(fv.params.take(k as int) =~= fv.params);
            let m = cat6(
                "wrong number of arguments: `",
                f.name.as_str(),
                "` expects ",
                dec_usize(f.param_slots.len()).as_str(),
                ", got ",
                dec_usize(args.len()).as_str(),
            );
            let h = cat5("call `", f.name.as_str(), "(", join_commas(&ps).as_str(), ")`");
            return Err(cx.fail(codes::ARG_COUNT, m.as_str(), span, Some(h.as_str())));
        }
        let ghost goal = args_flow(cx.v(), self.v(), fv, args@, span, 0);
        let mut i: usize = 0;
        while i < args.len()
            invariant
                i <= args.len(),
                f.wf(self.slots@.len()),
                fv == f.v(),
                f.param_slots.len() == args.len(),
                args_ok_slots(args@, self.slots@.len()),
                self.slots.len() == old(self).slots.len(),
                self.ffi == old(self).ffi,
                args_flow(cx.v(), self.v(), fv, args@, span, i as int) == goal,
                goal == args_flow(cx.v(), old(self).v(), fv, args@, span, 0),
            decreases args.len() - i,
        {
            let what = cat5(
                "parameter `",
                f.params[i].name.as_str(),
                "` of `",
                f.name.as_str(),
                "`",
            );
            assert(fv.params[i as int] == f.params@[i as int].name@);
            self.unify_slot(cx, f.param_slots[i], args[i], span, what.as_str())?;
            i = i + 1;
        }
        Ok(self.res_from_slot(f.ret_slot))
    }

    /// Checks the construction of a struct.
    fn check_struct_call(
        &mut self,
        cx: &Ctx<'a>,
        name: &str,
        fields: &Vec<(String, TyName)>,
        args: &Vec<TyRes>,
        span: Span,
    ) -> (o: Result<TyRes, ZError>)
        requires
            args_ok_slots(args@, old(self).slots@.len()),
        ensures
            ty_r(o, *final(self)) == struct_call_ty(
                cx.v(),
                old(self).v(),
                name@,
                typed_fields(fields_v(fields@)),
                args@,
                span,
            ),
            final(self).slots.len() == old(self).slots.len(),
            final(self).ffi == old(self).ffi,
            o matches Ok(t) ==> t.slot is None,
    {
        let ghost fs = typed_fields(fields_v(fields@));
        if fields.len() != args.len() {
            let mut ps: Vec<String> = Vec::new();
            let mut k: usize = 0;
            while k < fields.len()
                invariant
                    k <= fields.len(),
                    fs == typed_fields(fields_v(fields@)),
                    strs(ps@) =~= field_names(fs).take(k as int),
                decreases fields.len() - k,
            {
                let n = fields[k].0.clone();
                proof {
                    assert(field_names(fs)[k as int] == n@);
                    assert(strs(ps@.push(n)) =~= strs(ps@).push(n@));
                }
                ps.push(n);
                k = k + 1;
            }
            assert(field_names(fs).take(k as int) =~= field_names(fs));
            let m = cat6(
                "wrong number of arguments: struct `",
                name,
                "` expects ",
                dec_usize(fields.len()).as_str(),
                " fields, got ",
                dec_usize(args.len()).as_str(),
            );
            let h = cat5("construct with `", name, "(", join_commas(&ps).as_str(), ")`");
            return Err(cx.fail(codes::ARG_COUNT, m.as_str(), span, Some(h.as_str())));
        }
        let ghost goal = fields_take(cx.v(), self.v(), name@, fs, args@, span, 0);
        let mut i: usize = 0;
        while i < args.len()
            invariant
                i <= args.len(),
                fs == typed_fields(fields_v(fields@)),
                fields.len() == args.len(),
                args_ok_slots(args@, self.slots@.len()),
                self.slots.len() == old(self).slots.len(),
                self.ffi == old(self).ffi,
                fields_take(cx.v(), self.v(), name@, fs, args@, span, i as int) == goal,
                goal == fields_take(cx.v(), old(self).v(), name@, fs, args@, span, 0),
            decreases args.len() - i,
        {
            let what = cat5("field `", fields[i].0.as_str(), "` of struct `", name, "`");
            assert(fs[i as int] == (fields@[i as int].0@, Ty::of(fields@[i as int].1)));
            self.unify_with(cx, Ty::from_annot(fields[i].1), args[i], span, what.as_str())?;
            i = i + 1;
        }
        Ok(known(Ty::Unknown))
    }

    fn expect_typed(
        &mut self,
        cx: &Ctx<'a>,
        name: &str,
        arg: TyRes,
        t: Ty,
        what: &str,
        help: &str,
        span: Span,
    ) -> (o: Result<(), ZError>)
        requires
            res_ok(arg, old(self).slots@.len()),
        ensures
            st_r(o, *final(self)) == typed_arg(
                cx.v(),
                old(self).v(),
                name@,
                arg,
                t,
                what@,
                help@,
                span,
            ),
            final(self).slots.len() == old(self).slots.len(),
            final(self).ffi == old(self).ffi,
    {
        if arg.ty == t {
            Ok(())
        } else if arg.ty == Ty::Unknown {
            if arg.slot.is_some() {
                self.push(cx, arg, t, span, what)
            } else if cx.strict {
                let m = cat5("cannot determine the type of ", what, ", expected `", t.name(), "`");
                Err(
                    cx.fail(
                        codes::CANNOT_INFER,
                        m.as_str(),
                        span,
                        Some("add an explicit type annotation"),
                    ),
                )
            } else {
                Ok(())
            }
        } else {
            let m = cat9(
                "`",
                name,
                "` expects `",
                t.name(),
                "` for ",
                what,
                ", got `",
                arg.ty.name(),
                "`",
            );
            Err(cx.fail(codes::TYPE_MISMATCH, m.as_str(), span, Some(help)))
        }
    }

    fn expect_numeric(&mut self, cx: &Ctx<'a>, name: &str, arg: TyRes, what: &str, span: Span) -> (o:
        Result<(), ZError>)
        requires
            res_ok(arg, old(self).slots@.len()),
        ensures
            st_r(o, *final(self)) == number_arg(cx.v(), old(self).v(), name@, arg, what@, span),
            final(self).slots.len() == old(self).slots.len(),
            final(self).ffi == old(self).ffi,
    {
        if arg.ty.is_numeric() {
            Ok(())
        } else if arg.ty == Ty::Unknown {
            self.push(cx, arg, Ty::Float, span, what)
        } else {
            let m = cat7("`", name, "` expects a number for ", what, ", got `", arg.ty.name(), "`");
            Err(
                cx.fail(
                    codes::TYPE_MISMATCH,
                    m.as_str(),
                    span,
                    Some("pass an integer or float value"),
                ),
            )
        }
    }

    fn expect_want(
        &mut self,
        cx: &Ctx<'a>,
        name: &str,
        args: &Vec<TyRes>,
        i: usize,
        want: Option<Want>,
        span: Span,
    ) -> (o: Result<(), ZError>)
        requires
            args_ok_slots(args@, old(self).slots@.len()),
        ensures
            st_r(o, *final(self)) == want_arg(
                cx.v(),
                old(self).v(),
                name@,
                args@,
                i as int,
                want,
                span,
            ),
            final(self).slots.len() == old(self).slots.len(),
            final(self).ffi == old(self).ffi,
    {
        match want {
            None => Ok(()),
            Some(w) => {
                if i >= args.len() {
                    return Ok(());
                }
                let arg = args[i];
                match w.kind {
                    Kind::Str => self.expect_typed(
                        cx,
                        name,
                        arg,
                        Ty::Str,
                        w.what,
                        "pass a string value",
                        span,
                    ),
                    Kind::Int => self.expect_typed(
                        cx,
                        name,
                        arg,
                        Ty::Int,
                        w.what,
                        "pass an integer value",
                        span,
                    ),
                    Kind::Num => self.expect_numeric(cx, name, arg, w.what, span),
                    Kind::Cond => self.require_bool(cx, arg, span),
                }
            },
        }
    }

    fn expect_all(&mut self, cx: &Ctx<'a>, name: &str, args: &Vec<TyRes>, what: &str, span: Span) -> (o:
        Result<(), ZError>)
        requires
            args_ok_slots(args@, old(self).slots@.len()),
        ensures
            st_r(o, *final(self)) == all_text(cx.v(), old(self).v(), name@, args@, 0, what@, span),
            final(self).slots.len() == old(self).slots.len(),
            final(self).ffi == old(self).ffi,
    {
        let ghost goal = all_text(cx.v(), self.v(), name@, args@, 0, what@, span);
        let mut i: usize = 0;
        while i < args.len()
            invariant
                i <= args.len(),
                args_ok_slots(args@, self.slots@.len()),
                self.slots.len() == old(self).slots.len(),
                self.ffi == old(self).ffi,
                all_text(cx.v(), self.v(), name@, args@, i as int, what@, span) == goal,
                goal == all_text(cx.v(), old(self).v(), name@, args@, 0, what@, span),
            decreases args.len() - i,
        {
            self.expect_typed(cx, name, args[i], Ty::Str, what, "pass a string value", span)?;
            i = i + 1;
        }
        Ok(())
    }

    fn arity_error(&self, cx: &Ctx<'a>, name: &str, a: Arity, n: usize, span: Span) -> (r: ZError)
        ensures
            r@ == arity_fail(cx.v(), name@, a, n as nat, span),
    {
        match a {
            Arity::Exact(k) => {
                let m = cat6(
                    "wrong number of arguments: `",
                    name,
                    "` expects ",
                    dec_usize(k).as_str(),
                    ", got ",
                    dec_usize(n).as_str(),
                );
                cx.fail(codes::ARG_COUNT, m.as_str(), span, Some("check the function signature"))
            },
            Arity::Range(_, _, form, help) => {
                let m = cat6(
                    "wrong number of arguments: `",
                    name,
                    "` expects ",
                    form,
                    ", got ",
                    dec_usize(n).as_str(),
                );
                cx.fail(codes::ARG_COUNT, m.as_str(), span, Some(help))
            },
            Arity::AtLeastOne => {
                let m = cat3("`", name, "` expects at least 1 argument");
                cx.fail(codes::ARG_COUNT, m.as_str(), span, None)
            },
        }
    }

    fn pair_result(&mut self, cx: &Ctx<'a>, name: &str, a: TyRes, b: TyRes, span: Span) -> (o: Result<
        TyRes,
        ZError,
    >)
        requires
            res_ok(a, old(self).slots@.len()),
            res_ok(b, old(self).slots@.len()),
        ensures
            ty_r(o, *final(self)) == pair_ty(cx.v(), old(self).v(), name@, a, b, span),
            final(self).slots.len() == old(self).slots.len(),
            final(self).ffi == old(self).ffi,
            o matches Ok(t) ==> t.slot is None,
    {
        if a.ty.is_numeric() && b.ty.is_numeric() {
            if a.ty == b.ty {
                Ok(known(a.ty))
            } else {
                let m = cat7(
                    "`",
                    name,
                    "` requires two operands of the same type, got `",
                    a.ty.name(),
                    "` and `",
                    b.ty.name(),
                    "`",
                );
                Err(
                    cx.fail(
                        codes::TYPE_MISMATCH,
                        m.as_str(),
                        span,
                        Some("Hone has no implicit type conversion"),
                    ),
                )
            }
        } else if a.ty == Ty::Unknown && b.ty.is_numeric() {
            self.push(cx, a, b.ty, span, "the first argument")?;
            Ok(known(b.ty))
        } else if a.ty.is_numeric() && b.ty == Ty::Unknown {
            self.push(cx, b, a.ty, span, "the second argument")?;
            Ok(known(a.ty))
        } else if a.ty == Ty::Unknown && b.ty == Ty::Unknown {
            Ok(known(Ty::Unknown))
        } else {
            let m = cat5("`", name, "` expects numbers, got `", a.ty.name(), "`");
            Err(
                cx.fail(
                    codes::TYPE_MISMATCH,
                    m.as_str(),
                    span,
                    Some("pass two numbers of the same type"),
                ),
            )
        }
    }

    /// Checks a call of a built-in function against its signature.
    fn builtin_result(&mut self, cx: &Ctx<'a>, name: &str, args: &Vec<TyRes>, span: Span) -> (o: Result<
        TyRes,
        ZError,
    >)
        requires
            args_ok_slots(args@, old(self).slots@.len()),
        ensures
            ty_r(o, *final(self)) == builtin_ty(cx.v(), old(self).v(), name@, args@, span),
            sigs::sig_of(name@) matches Some(sig) && !rules::arity_ok(sig.arity, args@.len()) ==> final(self).v() == old(self).v(),
            sigs::sig_of(name@) is None ==> final(self).v() == old(self).v(),
            final(self).slots.len() == old(self).slots.len(),
            final(self).ffi == old(self).ffi,
            o matches Ok(t) ==> res_ok(t, final(self).slots@.len()),
    {
        let sig = match signature(name) {
            Some(sig) => sig,
            None => {
                let m = cat3("undefined function `", name, "`");
                return Err(
                    cx.fail(codes::UNDEFINED, m.as_str(), span, Some("check the spelling")),
                );
            },
        };
        let n: usize = args.len();
        let fits = match sig.arity {
            Arity::Exact(k) => n == k,
            Arity::Range(lo, hi, _, _) => lo <= n && n <= hi,
            Arity::AtLeastOne => n >= 1,
        };
        if !fits {
            return Err(self.arity_error(cx, name, sig.arity, n, span));
        }
        proof {
            sigs::lemma_arity(name@);
        }
        self.expect_want(cx, name, args, 0, sig.w0, span)?;
        self.expect_want(cx, name, args, 1, sig.w1, span)?;
        self.expect_want(cx, name, args, 2, sig.w2, span)?;
        if let Some(what) = sig.all {
            self.expect_all(cx, name, args, what, span)?;
        }
        let sleep = match sig.ret {
            Ret::Is(t) => {
                return Ok(known(t));
            },
            Ret::First => {
                return Ok(args[0]);
            },
            Ret::ByCount => {
                return Ok(known(if n == 1 { Ty::Str } else { Ty::Unknown }));
            },
            Ret::Pair => {
                return self.pair_result(cx, name, args[0], args[1], span);
            },
            Ret::Sleep => true,
            Ret::Abs => false,
        };
        let t = args[0].ty;
        if t.is_numeric() || t == Ty::Unknown {
            Ok(known(if sleep { Ty::Void } else { t }))
        } else {
            let m = cat5("`", name, "` expects a number, got `", t.name(), "`");
            Err(
                cx.fail(
                    codes::TYPE_MISMATCH,
                    m.as_str(),
                    span,
                    Some("pass an `int` or `float`"),
                ),
            )
        }
    }

    /// Finds what a call calls, and checks it.
    fn resolve_call(&mut self, cx: &Ctx<'a>, callee: &str, args: &Vec<TyRes>, span: Span) -> (o: Result<
        TyRes,
        ZError,
    >)
        requires
            cx.wf(old(self).slots@.len()),
            old(self).ffi.wf(),
            args_ok_slots(args@, old(self).slots@.len()),
        ensures
            ty_r(o, *final(self)) == call_ty(cx.v(), old(self).v(), callee@, args@, span),
            final(self).slots.len() == old(self).slots.len(),
            final(self).ffi == old(self).ffi,
            o matches Ok(t) ==> res_ok(t, final(self).slots@.len()),
    {
        if let Some(f) = cx.fns.get(callee) {
            assert(cx.fns@[callee@].wf(self.slots@.len()));
            return self.check_user_call(cx, f, args, span);
        }
        if let Some(fields) = cx.structs.get(callee) {
            return self.check_struct_call(cx, callee, *fields, args, span);
        }
        if is_builtin(callee) {
            return self.builtin_result(cx, callee, args, span);
        }
        if let Some(sig) = self.ffi.get(callee) {
            return self.check_ffi_call(cx, *sig, args, span);
        }
        if self.has_external || has_char(callee, '.') {
            return Ok(known(Ty::Unknown));
        }
        let m = cat3("undefined function `", callee, "`");
        Err(
            cx.fail(
                codes::UNDEFINED,
                m.as_str(),
                span,
                Some("define it with `fn`, or check the spelling"),
            ),
        )
    }

    /// Checks an expression.
    fn check_expr(&mut self, cx: &Ctx<'a>, env: &Env, e: &Expr) -> (o: Result<TyRes, ZError>)
        requires
            cx.wf(old(self).slots@.len()),
            env.wf(old(self).slots@.len()),
            old(self).ffi.wf(),
        ensures
            ty_r(o, *final(self)) == expr_ty(cx.v(), old(self).v(), env.v(), e@),
            final(self).slots.len() == old(self).slots.len(),
            final(self).ffi == old(self).ffi,
            o matches Ok(t) ==> res_ok(t, final(self).slots@.len()),
        decreases e,
    {
        match e {
            Expr::IntLit(_, _) => Ok(known(Ty::Int)),
            Expr::FloatLit(_, _) => Ok(known(Ty::Float)),
            Expr::BoolLit(_, _) => Ok(known(Ty::Bool)),
            Expr::StrLit(_, _) => Ok(known(Ty::Str)),
            Expr::Ident { name, span } => match env.get(name.as_str()) {
                Some(slot) => Ok(self.res_from_slot(slot)),
                None => {
                    let m = cat3("undefined variable `", name.as_str(), "`");
                    Err(
                        cx.fail(
                            codes::UNDEFINED,
                            m.as_str(),
                            *span,
                            Some("declare the variable before reading it"),
                        ),
                    )
                },
            },
            Expr::ListLit(items, _) => {
                let _ = self.check_exprs(cx, env, items)?;
                Ok(known(Ty::Unknown))
            },
            Expr::DictLit(entries, _) => {
                let ghost es = entries_v(entries@);
                let ghost goal = entries_ty(cx.v(), self.v(), env.v(), es, 0);
                let mut i: usize = 0;
                while i < entries.len()
                    invariant
                        i <= entries.len(),
                        es == entries_v(entries@),
                        e@ matches ExprV::DictLit(es2, _) && es2 == es,
                        decreases_to!(e => entries),
                        cx.wf(self.slots@.len()),
                        env.wf(self.slots@.len()),
                        self.ffi.wf(),
                        self.slots.len() == old(self).slots.len(),
                        self.ffi == old(self).ffi,
                        entries_ty(cx.v(), self.v(), env.v(), es, i as int) == goal,
                        goal == entries_ty(cx.v(), old(self).v(), env.v(), es, 0),
                    decreases entries.len() - i,
                {
                    assert(es[i as int].1 == entries@[i as int].1@);
                    assert(decreases_to!(entries@ => entries@[i as int]));
                    let _ = self.check_expr(cx, env, &entries[i].1)?;
                    i = i + 1;
                }
                Ok(known(Ty::Unknown))
            },
            Expr::FStr(segs, _) => {
                let ghost ss = segs_v(segs@);
                let ghost goal = segs_ty(cx.v(), self.v(), env.v(), ss, 0);
                let mut i: usize = 0;
                while i < segs.len()
                    invariant
                        i <= segs.len(),
                        ss == segs_v(segs@),
                        e@ matches ExprV::FStr(ss2, _) && ss2 == ss,
                        decreases_to!(e => segs),
                        cx.wf(self.slots@.len()),
                        env.wf(self.slots@.len()),
                        self.ffi.wf(),
                        self.slots.len() == old(self).slots.len(),
                        self.ffi == old(self).ffi,
                        segs_ty(cx.v(), self.v(), env.v(), ss, i as int) == goal,
                        goal == segs_ty(cx.v(), old(self).v(), env.v(), ss, 0),
                    decreases segs.len() - i,
                {
                    assert(ss[i as int] == seg_v(segs@[i as int]));
                    assert(decreases_to!(segs@ => segs@[i as int]));
                    match &segs[i] {
                        FStrSeg::Lit(_) => {},
                        FStrSeg::Code(c) => {
                            let _ = self.check_expr(cx, env, c)?;
                        },
                    }
                    i = i + 1;
                }
                Ok(known(Ty::Str))
            },
            Expr::Field { obj, field, span } => {
                let res = self.check_expr(cx, env, obj)?;
                self.check_field(cx, res, field.as_str(), *span)
            },
            Expr::Unary { op, expr, span } => {
                let res = self.check_expr(cx, env, expr)?;
                self.check_unary(cx, *op, res, *span)
            },
            Expr::Binary { op, lhs, rhs, span } => {
                let l = self.check_expr(cx, env, lhs)?;
                let r = self.check_expr(cx, env, rhs)?;
                self.check_binary(cx, *op, l, r, *span)
            },
            Expr::Call { callee, args, span } => {
                let ts = self.check_exprs(cx, env, args)?;
                self.resolve_call(cx, callee.as_str(), &ts, *span)
            },
            Expr::Match { value, arms, .. } => {
                let ghost st0 = self.v();
                let _ = self.check_expr(cx, env, value)?;
                let ghost av = arms_v(arms@);
                let ghost st1 = self.v();
                let ghost goal = arms_ty(cx.v(), st1, env.v(), av, 0);
                let mut i: usize = 0;
                while i < arms.len()
                    invariant
                        i <= arms.len(),
                        av == arms_v(arms@),
                        expr_ty(cx.v(), old(self).v(), env.v(), e@) == (match goal {
                            Err(x) => Err(x),
                            Ok(st2) => Ok((is_ty(Ty::Unknown), st2)),
                        }),
                        decreases_to!(e => arms),
                        cx.wf(self.slots@.len()),
                        env.wf(self.slots@.len()),
                        self.ffi.wf(),
                        self.slots.len() == old(self).slots.len(),
                        self.ffi == old(self).ffi,
                        arms_ty(cx.v(), self.v(), env.v(), av, i as int) == goal,
                    decreases arms.len() - i,
                {
                    assert(av[i as int] == (
                        crate::ast::opt_expr_v(arms@[i as int].0),
                        arms@[i as int].1@,
                    ));
                    assert(decreases_to!(arms@ => arms@[i as int]));
                    match &arms[i].0 {
                        Some(p) => {
                            let _ = self.check_expr(cx, env, p)?;
                        },
                        None => {},
                    }
                    let _ = self.check_expr(cx, env, &arms[i].1)?;
                    i = i + 1;
                }
                Ok(known(Ty::Unknown))
            },
        }
    }

    /// Checks expressions, one after the other.
    fn check_exprs(&mut self, cx: &Ctx<'a>, env: &Env, es: &Vec<Expr>) -> (o: Result<Vec<TyRes>, ZError>)
        requires
            cx.wf(old(self).slots@.len()),
            env.wf(old(self).slots@.len()),
            old(self).ffi.wf(),
        ensures
            match o {
                Ok(ts) => exprs_ty(
                    cx.v(),
                    old(self).v(),
                    env.v(),
                    exprs_v(es@),
                    0,
                    Seq::empty(),
                ) == Ok::<(Seq<TyRes>, StV), ErrV>((ts@, final(self).v())) && args_ok_slots(
                    ts@,
                    final(self).slots@.len(),
                ),
                Err(x) => exprs_ty(
                    cx.v(),
                    old(self).v(),
                    env.v(),
                    exprs_v(es@),
                    0,
                    Seq::empty(),
                ) == Err::<(Seq<TyRes>, StV), ErrV>(x@),
            },
            final(self).slots.len() == old(self).slots.len(),
            final(self).ffi == old(self).ffi,
        decreases es,
    {
        let ghost ev = exprs_v(es@);
        let ghost goal = exprs_ty(cx.v(), self.v(), env.v(), ev, 0, Seq::empty());
        let mut ts: Vec<TyRes> = Vec::new();
        let mut i: usize = 0;
        while i < es.len()
            invariant
                i <= es.len(),
                ev == exprs_v(es@),
                cx.wf(self.slots@.len()),
                env.wf(self.slots@.len()),
                self.ffi.wf(),
                args_ok_slots(ts@, self.slots@.len()),
                self.slots.len() == old(self).slots.len(),
                self.ffi == old(self).ffi,
                exprs_ty(cx.v(), self.v(), env.v(), ev, i as int, ts@) == goal,
                goal == exprs_ty(cx.v(), old(self).v(), env.v(), ev, 0, Seq::empty()),
            decreases es.len() - i,
        {
            assert(ev[i as int] == es@[i as int]@);
            assert(decreases_to!(es@ => es@[i as int]));
            let t = self.check_expr(cx, env, &es[i])?;
            ts.push(t);
            i = i + 1;
        }
        Ok(ts)
    }
}

/// The full name of a foreign function.
fn ffi_name(alias: &Option<String>, name: &str) -> (r: String)
    ensures
        r@ == ffi_key(opt_text(*alias), name@),
{
    match alias {
        Some(a) => cat3(a.as_str(), ".", name),
        None => name.to_owned(),
    }
}

impl<'a> State<'a> {
    /// Adds signatures to the declared foreign functions.
    fn add_sigs(&mut self, alias: &Option<String>, sigs: &'a Vec<FfiSig>)
        requires
            old(self).ffi.wf(),
        ensures
            final(self).ffi.wf(),
            final(self).slots == old(self).slots,
            final(self).v() == (StV {
                ffi: with_sigs(old(self).v().ffi, opt_text(*alias), sigs_v(sigs@), 0),
                ..old(self).v()
            }),
    {
        let ghost av = opt_text(*alias);
        let ghost sv = sigs_v(sigs@);
        let ghost goal = with_sigs(self.v().ffi, av, sv, 0);
        let mut i: usize = 0;
        while i < sigs.len()
            invariant
                i <= sigs.len(),
                av == opt_text(*alias),
                sv == sigs_v(sigs@),
                self.ffi.wf(),
                self.slots == old(self).slots,
                self.changed == old(self).changed,
                self.has_return == old(self).has_return,
                self.has_external == old(self).has_external,
                with_sigs(ffi_v(self.ffi@), av, sv, i as int) == goal,
            decreases sigs.len() - i,
        {
            let key = ffi_name(alias, sigs[i].name.as_str());
            let ghost before = self.ffi@;
            assert(sv[i as int] == sigs@[i as int]@);
            self.ffi.insert(key.as_str(), &sigs[i]);
            proof {
                assert(ffi_v(before.insert(key@, &sigs@[i as int])) =~= ffi_v(before).insert(
                    key@,
                    sigs@[i as int]@,
                ));
            }
            i = i + 1;
        }
    }

    /// Declares the foreign functions of a `load`: those of its header, then those of
    /// its block.
    fn register_ffi_sigs(
        &mut self,
        cx: &Ctx<'a>,
        alias: &Option<String>,
        from: &Option<String>,
        sigs: &'a Vec<FfiSig>,
    ) -> (o: Result<(), ZError>)
        requires
            old(self).ffi.wf(),
            cx.headers.wf(),
        ensures
            st_r(o, *final(self)) == load_sigs(
                cx.v(),
                old(self).v(),
                opt_text(*alias),
                opt_text(*from),
                sigs_v(sigs@),
            ),
            final(self).ffi.wf(),
            final(self).slots == old(self).slots,
    {
        if let Some(path) = from {
            let hs: &'a Table<HeaderRead> = cx.headers;
            let why = match hs.get(path.as_str()) {
                None => Some("it was not looked up".to_owned()),
                Some(h) => {
                    assert(cx.v().headers[path@] == hs@[path@].v());
                    match h {
                        HeaderRead::Failed(why) => Some(why.clone()),
                        HeaderRead::Read(found) => {
                            self.add_sigs(alias, found);
                            None
                        },
                    }
                },
            };
            if let Some(why) = why {
                let m = cat4("cannot read header `", path.as_str(), "`: ", why.as_str());
                return Err(
                    cx.fail(
                        codes::NOT_FOUND,
                        m.as_str(),
                        Span { line: 1, col: 1, len: 1 },
                        Some("check the header path, or remove the `from` clause"),
                    ),
                );
            }
        }
        self.has_external = true;
        self.add_sigs(alias, sigs);
        Ok(())
    }

    /// Checks the statements of a block in a scope of their own.
    fn check_block(&mut self, cx: &Ctx<'a>, env: &mut Env, stmts: &'a Vec<Stmt>) -> (o: Result<
        (),
        ZError,
    >)
        requires
            cx.wf(old(self).slots@.len()),
            old(env).wf(old(self).slots@.len()),
            old(env).ret_ok(old(self).slots@.len()),
            old(self).ffi.wf(),
        ensures
            env_r(o, *final(self), *final(env)) == block_ty(
                cx.v(),
                old(self).v(),
                old(env).v(),
                stmts_v(stmts@),
            ),
            o is Ok ==> old(self).slots.len() <= final(self).slots.len() && final(self).ffi.wf()
                && final(env).wf(final(self).slots@.len()) && old(env).kept(*final(env)),
        decreases stmts, 1int,
    {
        env.enter();
        self.check_stmts(cx, env, stmts)?;
        env.leave();
        Ok(())
    }

    /// Checks statements, one after the other.
    fn check_stmts(&mut self, cx: &Ctx<'a>, env: &mut Env, stmts: &'a Vec<Stmt>) -> (o: Result<
        (),
        ZError,
    >)
        requires
            cx.wf(old(self).slots@.len()),
            old(env).wf(old(self).slots@.len()),
            old(env).ret_ok(old(self).slots@.len()),
            old(self).ffi.wf(),
        ensures
            env_r(o, *final(self), *final(env)) == stmts_ty(
                cx.v(),
                old(self).v(),
                old(env).v(),
                stmts_v(stmts@),
                0,
            ),
            o is Ok ==> old(self).slots.len() <= final(self).slots.len() && final(self).ffi.wf()
                && final(env).wf(final(self).slots@.len()) && old(env).kept(*final(env)),
        decreases stmts, 0int,
    {
        let ghost sv = stmts_v(stmts@);
        let ghost goal = stmts_ty(cx.v(), self.v(), env.v(), sv, 0);
        let mut i: usize = 0;
        while i < stmts.len()
            invariant
                i <= stmts.len(),
                sv == stmts_v(stmts@),
                cx.wf(self.slots@.len()),
                env.wf(self.slots@.len()),
                env.ret_ok(self.slots@.len()),
                self.ffi.wf(),
                old(self).slots.len() <= self.slots.len(),
                old(env).kept(*env),
                stmts_ty(cx.v(), self.v(), env.v(), sv, i as int) == goal,
                goal == stmts_ty(cx.v(), old(self).v(), old(env).v(), sv, 0),
            decreases stmts.len() - i,
        {
            assert(sv[i as int] == stmts@[i as int]@);
            assert(decreases_to!(stmts@ => stmts@[i as int]));
            let ghost n = self.slots@.len();
            self.check_stmt(cx, env, &stmts[i])?;
            proof {
                lemma_more_cx(*cx, n, self.slots@.len());
            }
            i = i + 1;
        }
        Ok(())
    }

    /// Checks a declaration or an assignment.
    fn check_binding(&mut self, cx: &Ctx<'a>, env: &mut Env, stmt: &'a Stmt) -> (o: Result<(), ZError>)
        requires
            stmt is VarDecl || stmt is Assign,
            cx.wf(old(self).slots@.len()),
            old(env).wf(old(self).slots@.len()),
            old(env).ret_ok(old(self).slots@.len()),
            old(self).ffi.wf(),
        ensures
            env_r(o, *final(self), *final(env)) == stmt_ty(
                cx.v(),
                old(self).v(),
                old(env).v(),
                stmt@,
            ),
            o is Ok ==> old(self).slots.len() <= final(self).slots.len() && final(self).ffi.wf()
                && final(env).wf(final(self).slots@.len()) && old(env).kept(*final(env)),
        decreases stmt, 0int,
    {
        match stmt {
            Stmt::VarDecl { name, ty, init, span } => {
                let annot = Ty::from_annot(*ty);
                if let Some(e) = init {
                    let res = self.check_expr(cx, env, e)?;
                    let what = variable_text(name.as_str());
                    self.unify_with(cx, annot, res, *span, what.as_str())?;
                }
                self.bind(cx, env, name.as_str(), Some(annot), *span)
            },
            Stmt::Assign { name, value, span } => {
                let res = self.check_expr(cx, env, value)?;
                match env.get(name.as_str()) {
                    Some(slot) => {
                        let what = variable_text(name.as_str());
                        self.unify_slot(cx, slot, res, *span, what.as_str())
                    },
                    None => {
                        let t = if res.ty == Ty::Unknown {
                            None
                        } else {
                            Some(res.ty)
                        };
                        let ghost n = self.slots@.len();
                        let slot: usize = self.add_slot(t);
                        proof {
                            lemma_more_slots(*env, n, n + 1);
                        }
                        env.put(name.as_str(), slot);
                        Ok(())
                    },
                }
            },
            _ => Ok(()),
        }
    }

    /// Checks a branch or a conditional loop.
    fn check_branch(&mut self, cx: &Ctx<'a>, env: &mut Env, stmt: &'a Stmt) -> (o: Result<(), ZError>)
        requires
            stmt is If || stmt is While,
            cx.wf(old(self).slots@.len()),
            old(env).wf(old(self).slots@.len()),
            old(env).ret_ok(old(self).slots@.len()),
            old(self).ffi.wf(),
        ensures
            env_r(o, *final(self), *final(env)) == stmt_ty(
                cx.v(),
                old(self).v(),
                old(env).v(),
                stmt@,
            ),
            o is Ok ==> old(self).slots.len() <= final(self).slots.len() && final(self).ffi.wf()
                && final(env).wf(final(self).slots@.len()) && old(env).kept(*final(env)),
        decreases stmt, 0int,
    {
        match stmt {
            Stmt::If { cond, then_branch, else_branch, span } => {
                let res = self.check_expr(cx, env, cond)?;
                self.require_bool(cx, res, *span)?;
                let ghost n = self.slots@.len();
                self.check_block(cx, env, then_branch)?;
                proof {
                    lemma_more_cx(*cx, n, self.slots@.len());
                }
                match else_branch {
                    Some(eb) => self.check_block(cx, env, eb),
                    None => Ok(()),
                }
            },
            Stmt::While { cond, body, span } => {
                let res = self.check_expr(cx, env, cond)?;
                self.require_bool(cx, res, *span)?;
                self.check_block(cx, env, body)
            },
            _ => Ok(()),
        }
    }

    /// Checks a loop over a collection.
    fn check_for(&mut self, cx: &Ctx<'a>, env: &mut Env, stmt: &'a Stmt) -> (o: Result<(), ZError>)
        requires
            stmt is ForIn,
            cx.wf(old(self).slots@.len()),
            old(env).wf(old(self).slots@.len()),
            old(env).ret_ok(old(self).slots@.len()),
            old(self).ffi.wf(),
        ensures
            env_r(o, *final(self), *final(env)) == stmt_ty(
                cx.v(),
                old(self).v(),
                old(env).v(),
                stmt@,
            ),
            o is Ok ==> old(self).slots.len() <= final(self).slots.len() && final(self).ffi.wf()
                && final(env).wf(final(self).slots@.len()) && old(env).kept(*final(env)),
        decreases stmt, 0int,
    {
        match stmt {
            Stmt::ForIn { var, var2, iter, body, span } => {
                let _ = self.check_expr(cx, env, iter)?;
                let ghost n = self.slots@.len();
                env.enter();
                self.bind(cx, env, var.as_str(), None, *span)?;
                if let Some(v) = var2 {
                    self.bind(cx, env, v.as_str(), None, *span)?;
                }
                proof {
                    lemma_more_cx(*cx, n, self.slots@.len());
                }
                self.check_stmts(cx, env, body)?;
                env.leave();
                Ok(())
            },
            _ => Ok(()),
        }
    }

    /// Checks a `return`.
    fn check_return(&mut self, cx: &Ctx<'a>, env: &mut Env, stmt: &'a Stmt) -> (o: Result<(), ZError>)
        requires
            stmt is Return,
            cx.wf(old(self).slots@.len()),
            old(env).wf(old(self).slots@.len()),
            old(env).ret_ok(old(self).slots@.len()),
            old(self).ffi.wf(),
        ensures
            env_r(o, *final(self), *final(env)) == stmt_ty(
                cx.v(),
                old(self).v(),
                old(env).v(),
                stmt@,
            ),
            o is Ok ==> old(self).slots.len() <= final(self).slots.len() && final(self).ffi.wf()
                && final(env).wf(final(self).slots@.len()) && old(env).kept(*final(env)),
        decreases stmt, 0int,
    {
        match stmt {
            Stmt::Return { value, span } => {
                if !env.in_fn {
                    return Err(
                        cx.fail(
                            codes::SYNTAX,
                            "`return` is only allowed inside a function",
                            *span,
                            Some("move the `return` into a `fn` body"),
                        ),
                    );
                }
                self.has_return = true;
                match value {
                    Some(e) => {
                        let res = self.check_expr(cx, env, e)?;
                        self.unify_slot(cx, env.ret_slot, res, *span, "the function's return type")
                    },
                    None => self.unify_slot_ty(
                        cx,
                        env.ret_slot,
                        Ty::Void,
                        *span,
                        "the function's return type",
                    ),
                }
            },
            _ => Ok(()),
        }
    }

    /// Checks a `try`.
    fn check_try(&mut self, cx: &Ctx<'a>, env: &mut Env, stmt: &'a Stmt) -> (o: Result<(), ZError>)
        requires
            stmt is Try,
            cx.wf(old(self).slots@.len()),
            old(env).wf(old(self).slots@.len()),
            old(env).ret_ok(old(self).slots@.len()),
            old(self).ffi.wf(),
        ensures
            env_r(o, *final(self), *final(env)) == stmt_ty(
                cx.v(),
                old(self).v(),
                old(env).v(),
                stmt@,
            ),
            o is Ok ==> old(self).slots.len() <= final(self).slots.len() && final(self).ffi.wf()
                && final(env).wf(final(self).slots@.len()) && old(env).kept(*final(env)),
        decreases stmt, 0int,
    {
        match stmt {
            Stmt::Try { body, catch_var, handler, span } => {
                let ghost n = self.slots@.len();
                self.check_block(cx, env, body)?;
                env.enter();
                self.bind(cx, env, catch_var.as_str(), Some(Ty::Error), *span)?;
                proof {
                    lemma_more_cx(*cx, n, self.slots@.len());
                }
                self.check_stmts(cx, env, handler)?;
                env.leave();
                Ok(())
            },
            _ => Ok(()),
        }
    }

    /// Checks a statement that neither declares a variable nor holds other statements.
    fn check_plain(&mut self, cx: &Ctx<'a>, env: &mut Env, stmt: &'a Stmt) -> (o: Result<(), ZError>)
        requires
            stmt is ExprStmt || stmt is DebugPrint || stmt is Export || stmt is Load || stmt is Go || stmt is Throw,
            cx.wf(old(self).slots@.len()),
            old(env).wf(old(self).slots@.len()),
            old(env).ret_ok(old(self).slots@.len()),
            old(self).ffi.wf(),
        ensures
            env_r(o, *final(self), *final(env)) == stmt_ty(
                cx.v(),
                old(self).v(),
                old(env).v(),
                stmt@,
            ),
            o is Ok ==> old(self).slots.len() <= final(self).slots.len() && final(self).ffi.wf()
                && final(env).wf(final(self).slots@.len()) && old(env).kept(*final(env)),
        decreases stmt, 0int,
    {
        match stmt {
            Stmt::ExprStmt { expr, .. } => {
                let _ = self.check_expr(cx, env, expr)?;
                Ok(())
            },
            Stmt::DebugPrint { expr, .. } => {
                let _ = self.check_expr(cx, env, expr)?;
                Ok(())
            },
            Stmt::Export { name, span } => {
                if !env.in_fn && !cx.fns.contains_key(name.as_str()) {
                    let m = cat3(
                        "`@export` refers to undefined function `",
                        name.as_str(),
                        "`",
                    );
                    return Err(
                        cx.fail(
                            codes::UNDEFINED,
                            m.as_str(),
                            *span,
                            Some("define the function with `fn` before exporting it"),
                        ),
                    );
                }
                Ok(())
            },
            Stmt::Load { alias, from, sigs, .. } => self.register_ffi_sigs(cx, alias, from, sigs),
            Stmt::Go { callee, args, span } => {
                let ts = self.check_exprs(cx, env, args)?;
                let _ = self.resolve_call(cx, callee.as_str(), &ts, *span)?;
                Ok(())
            },
            Stmt::Throw { value, span } => {
                let res = self.check_expr(cx, env, value)?;
                self.check_throw_value(cx, res, *span)
            },
            _ => Ok(()),
        }
    }

    /// Checks a statement.
    fn check_stmt(&mut self, cx: &Ctx<'a>, env: &mut Env, stmt: &'a Stmt) -> (o: Result<(), ZError>)
        requires
            cx.wf(old(self).slots@.len()),
            old(env).wf(old(self).slots@.len()),
            old(env).ret_ok(old(self).slots@.len()),
            old(self).ffi.wf(),
        ensures
            env_r(o, *final(self), *final(env)) == stmt_ty(
                cx.v(),
                old(self).v(),
                old(env).v(),
                stmt@,
            ),
            o is Ok ==> old(self).slots.len() <= final(self).slots.len() && final(self).ffi.wf()
                && final(env).wf(final(self).slots@.len()) && old(env).kept(*final(env)),
        decreases stmt, 1int,
    {
        match stmt {
            Stmt::Block { stmts, .. } => self.check_block(cx, env, stmts),
            Stmt::VarDecl { .. } => self.check_binding(cx, env, stmt),
            Stmt::Assign { .. } => self.check_binding(cx, env, stmt),
            Stmt::If { .. } => self.check_branch(cx, env, stmt),
            Stmt::While { .. } => self.check_branch(cx, env, stmt),
            Stmt::ForIn { .. } => self.check_for(cx, env, stmt),
            Stmt::Return { .. } => self.check_return(cx, env, stmt),
            Stmt::Try { .. } => self.check_try(cx, env, stmt),
            Stmt::ExprStmt { .. } => self.check_plain(cx, env, stmt),
            Stmt::DebugPrint { .. } => self.check_plain(cx, env, stmt),
            Stmt::Export { .. } => self.check_plain(cx, env, stmt),
            Stmt::Load { .. } => self.check_plain(cx, env, stmt),
            Stmt::Go { .. } => self.check_plain(cx, env, stmt),
            Stmt::Throw { .. } => self.check_plain(cx, env, stmt),
            Stmt::Import { .. } => {
                self.has_external = true;
                Ok(())
            },
            Stmt::Alias { .. } => {
                self.has_external = true;
                Ok(())
            },
            Stmt::FnDef { .. } => Ok(()),
            Stmt::StructDef { .. } => Ok(()),
            Stmt::Breakpoint { .. } => Ok(()),
            Stmt::Use { .. } => Ok(()),
        }
    }

    /// Checks the body of a function.
    fn check_fn(&mut self, cx: &Ctx<'a>, f: &FnInfo<'a>) -> (o: Result<(), ZError>)
        requires
            cx.wf(old(self).slots@.len()),
            f.wf(old(self).slots@.len()),
            old(self).ffi.wf(),
        ensures
            st_r(o, *final(self)) == fn_ty(cx.v(), old(self).v(), f.v()),
            o is Ok ==> old(self).slots.len() <= final(self).slots.len() && final(self).ffi.wf(),
    {
        self.has_return = false;
        let mut stack: Vec<Table<usize>> = Vec::new();
        stack.push(f.top.copy());
        let mut env = Env { stack, in_fn: true, ret_slot: f.ret_slot };
        assert(tables_v(env.stack@) =~= seq![f.top@]);
        let body: &'a Vec<Stmt> = f.body;
        self.check_stmts(cx, &mut env, body)?;
        if !self.has_return {
            match self.slots[f.ret_slot] {
                None => {
                    if f.ret_annot.is_none() {
                        self.lock(f.ret_slot, Ty::Void);
                    }
                },
                Some(_) => {
                    if let Some(t) = f.ret_annot {
                        let m = cat5(
                            "function `",
                            f.name.as_str(),
                            "` declares `-> ",
                            t.name(),
                            "` but never returns a value",
                        );
                        return Err(
                            cx.fail(
                                codes::TYPE_MISMATCH,
                                m.as_str(),
                                f.span,
                                Some("add a `return` statement, or remove the `->` annotation"),
                            ),
                        );
                    }
                },
            }
        }
        Ok(())
    }

    /// Makes one round: all functions, then the statements of the program.
    fn check_all(&mut self, cx: &Ctx<'a>, env: &mut Env, stmts: &'a Vec<Stmt>) -> (o: Result<
        (),
        ZError,
    >)
        requires
            cx.wf(old(self).slots@.len()),
            old(env).wf(old(self).slots@.len()),
            old(env).ret_ok(old(self).slots@.len()),
            old(self).ffi.wf(),
        ensures
            env_r(o, *final(self), *final(env)) == round_ty(
                cx.v(),
                old(self).v(),
                old(env).v(),
                cx.fns.order(),
                stmts_v(stmts@),
            ),
            o is Ok ==> old(self).slots.len() <= final(self).slots.len() && final(self).ffi.wf()
                && final(env).wf(final(self).slots@.len()) && old(env).kept(*final(env)),
    {
        let ghost order = cx.fns.order();
        let ghost goal = fns_ty(cx.v(), self.v(), order, 0);
        let n: usize = cx.fns.len();
        let mut i: usize = 0;
        while i < n
            invariant
                i <= n == order.len(),
                order == cx.fns.order(),
                cx.wf(self.slots@.len()),
                self.ffi.wf(),
                *env == *old(env),
                old(self).slots.len() <= self.slots.len(),
                fns_ty(cx.v(), self.v(), order, i as int) == goal,
                goal == fns_ty(cx.v(), old(self).v(), order, 0),
            decreases n - i,
        {
            let f = cx.fns.val_at(i);
            let ghost m = self.slots@.len();
            proof {
                assert(cx.fns@.dom().contains(order[i as int]));
                assert(cx.v().fns[order[i as int]] == f.v());
            }
            self.check_fn(cx, f)?;
            proof {
                lemma_more_cx(*cx, m, self.slots@.len());
            }
            i = i + 1;
        }
        proof {
            lemma_more_slots(*env, old(self).slots@.len(), self.slots@.len());
        }
        self.check_stmts(cx, env, stmts)
    }
}

/// What registering a program gathers.
struct Reg<'a> {
    st: State<'a>,
    fns: Table<FnInfo<'a>>,
    structs: Table<&'a Vec<(String, TyName)>>,
}

spec fn reg_r<'a>(o: Result<(), ZError>, rg: Reg<'a>, env: Env) -> Result<(RegV, EnvV), ErrV> {
    match o {
        Ok(_) => Ok((rg.v(), env.v())),
        Err(e) => Err(e@),
    }
}

impl<'a> Reg<'a> {
    spec fn v(self) -> RegV {
        RegV {
            slots: self.st.slots@,
            fns: fns_v(self.fns@),
            order: self.fns.order(),
            structs: structs_v(self.structs@),
        }
    }

    spec fn n(self) -> nat {
        self.st.slots@.len()
    }

    spec fn wf(self) -> bool {
        &&& self.fns.wf()
        &&& self.structs.wf()
        &&& self.st.ffi.wf()
        &&& self.st.ffi@ == Map::<Seq<char>, &'a FfiSig>::empty()
        &&& !self.st.has_return
        &&& !self.st.has_external
        &&& forall|k: Seq<char>| #[trigger] self.fns@.dom().contains(k) ==> self.fns@[k].wf(self.n())
    }

    /// Whether `new` and `new_env` came from `self` and `env`.
    spec fn went(self, env: Env, new: Reg<'a>, new_env: Env) -> bool {
        &&& new.wf()
        &&& self.n() <= new.n()
        &&& new_env.wf(new.n())
        &&& env.kept(new_env)
    }

    proof fn lemma_more(self, new: Reg<'a>)
        requires
            self.wf(),
            new.fns == self.fns,
            self.n() <= new.n(),
        ensures
            forall|k: Seq<char>| #[trigger] new.fns@.dom().contains(k) ==> new.fns@[k].wf(new.n()),
    {
        assert forall|k: Seq<char>| #[trigger] new.fns@.dom().contains(k) implies new.fns@[k].wf(
            new.n(),
        ) by {
            let f = self.fns@[k];
            assert(f.wf(self.n()));
            assert(below(f.top@, new.n()));
        }
    }

    fn declare(&mut self, cx: &Ctx<'a>, env: &mut Env, name: &str, ty: Option<Ty>, span: Span) -> (o:
        Result<(), ZError>)
        requires
            old(self).wf(),
            old(env).wf(old(self).n()),
        ensures
            reg_r(o, *final(self), *final(env)) == reg_declare(
                cx.v(),
                old(self).v(),
                old(env).v(),
                name@,
                ty,
                span,
            ),
            o is Ok ==> old(self).went(*old(env), *final(self), *final(env)),
    {
        self.st.changed = false;
        proof {
            assert(ffi_v(self.st.ffi@) =~= Map::empty());
            assert(self.st.v() == old(self).v().st());
        }
        let ghost before = *self;
        let o = self.st.bind(cx, env, name, ty, span);
        proof {
            before.lemma_more(*self);
            if o is Ok {
                assert(self.st.has_return == false);
            }
        }
        o
    }

    /// Registers a function and the functions inside it.
    fn register_fn(
        &mut self,
        cx: &Ctx<'a>,
        name: &'a String,
        params: &'a Vec<Param>,
        ret: Option<TyName>,
        body: &'a Vec<Stmt>,
        span: Span,
    ) -> (o: Result<(), ZError>)
        requires
            old(self).wf(),
        ensures
            match o {
                Ok(_) => reg_fn(
                    cx.v(),
                    old(self).v(),
                    name@,
                    params_v(params@),
                    ret,
                    stmts_v(body@),
                    span,
                ) == Ok::<RegV, ErrV>(final(self).v()) && final(self).wf() && old(self).n()
                    <= final(self).n(),
                Err(e) => reg_fn(
                    cx.v(),
                    old(self).v(),
                    name@,
                    params_v(params@),
                    ret,
                    stmts_v(body@),
                    span,
                ) == Err::<RegV, ErrV>(e@),
            },
        decreases body, 1int,
    {
        if self.fns.contains_key(name.as_str()) || is_builtin(name.as_str()) {
            let m = cat3("`", name.as_str(), "` is already defined");
            return Err(
                cx.fail(
                    codes::UNDEFINED,
                    m.as_str(),
                    span,
                    Some("function names must be unique; builtin names cannot be redefined"),
                ),
            );
        }
        let ghost ps = params_v(params@);
        let mut i: usize = 0;
        while i < params.len()
            invariant
                i <= params.len(),
                ps == params_v(params@),
                twice(ps, i as int) == twice(ps, 0),
                !(old(self).v().fns.dom().contains(name@) || names().contains(name@)),
            decreases params.len() - i,
        {
            let mut j: usize = 0;
            while j < i
                invariant
                    j <= i < params.len(),
                    ps == params_v(params@),
                    forall|k: int| 0 <= k < j ==> (#[trigger] ps[k]).name != ps[i as int].name,
                    twice(ps, i as int) == twice(ps, 0),
                    !(old(self).v().fns.dom().contains(name@) || names().contains(name@)),
                decreases i - j,
            {
                assert(ps[j as int].name == params@[j as int].name@);
                assert(ps[i as int].name == params@[i as int].name@);
                if eq(params[j].name.as_str(), params[i].name.as_str()) {
                    let m = cat5(
                        "duplicate parameter name `",
                        params[i].name.as_str(),
                        "` in function `",
                        name.as_str(),
                        "`",
                    );
                    return Err(
                        cx.fail(
                            codes::UNDEFINED,
                            m.as_str(),
                            params[i].span,
                            Some("rename one of the parameters"),
                        ),
                    );
                }
                j = j + 1;
            }
            i = i + 1;
        }
        let ghost first = self.n();
        let ghost types = param_types(ps);
        let mut top: Table<usize> = Table::new();
        let mut param_slots: Vec<usize> = Vec::new();
        let mut i: usize = 0;
        assert(ps.take(0) =~= Seq::empty());
        while i < params.len()
            invariant
                i <= params.len(),
                ps == params_v(params@),
                types == param_types(ps),
                first == old(self).n(),
                old(self).wf(),
                self.fns == old(self).fns,
                self.structs == old(self).structs,
                self.st.ffi == old(self).st.ffi,
                self.st.has_return == old(self).st.has_return,
                self.st.has_external == old(self).st.has_external,
                self.st.slots@ =~= old(self).st.slots@ + types.take(i as int),
                top.wf(),
                top@ == param_scope(ps.take(i as int), first),
                below(top@, self.n()),
                param_slots@ =~= Seq::new(i as nat, |k: int| (first + k) as usize),
                forall|k: int| 0 <= k < param_slots.len() ==> #[trigger] param_slots@[k] < self.n(),
            decreases params.len() - i,
        {
            let t = match params[i].ty {
                Some(t) => Some(Ty::from_annot(t)),
                None => None,
            };
            proof {
                assert(types[i as int] == t) by {
                    assert(ps[i as int].ty == params@[i as int].ty);
                }
                assert(ps.take(i + 1).drop_last() =~= ps.take(i as int));
                assert(ps.take(i + 1).last().name == params@[i as int].name@);
            }
            let slot: usize = self.st.add_slot(t);
            top.insert(params[i].name.as_str(), slot);
            param_slots.push(slot);
            i = i + 1;
        }
        proof {
            assert(ps.take(i as int) =~= ps);
            assert(types.take(i as int) =~= types);
            old(self).lemma_more(*self);
        }
        let mut stack: Vec<Table<usize>> = Vec::new();
        stack.push(top);
        let mut env = Env { stack, in_fn: true, ret_slot: 0 };
        proof {
            assert(tables_v(env.stack@) =~= seq![param_scope(ps, first)]);
        }
        let ghost n1 = self.n();
        let ghost env1 = env;
        self.register(cx, &mut env, body)?;
        let ghost rg2 = *self;
        let ret_annot = match ret {
            Some(t) => Some(Ty::from_annot(t)),
            None => None,
        };
        let ret_slot: usize = self.st.add_slot(ret_annot);
        let ghost env2 = env.v();
        proof {
            assert(env.stack.len() == 1);
            assert(env2.stack[0] == env.stack@[0]@);
        }
        let top = env.stack.pop().unwrap();
        let f = FnInfo { name, params, param_slots, ret_slot, ret_annot, body, span, top };
        proof {
            rg2.lemma_more(*self);
            assert(f.wf(self.n())) by {
                assert(below(f.top@, rg2.n()));
            }
            assert(f.v().params =~= ps.map_values(|p: ParamV| p.name));
            assert(fns_v(rg2.fns@.insert(name@, f)) =~= fns_v(rg2.fns@).insert(name@, f.v()));
        }
        self.fns.insert(name.as_str(), f);
        Ok(())
    }

    /// Registers the statements of a block in a scope of their own.
    fn register_block(&mut self, cx: &Ctx<'a>, env: &mut Env, stmts: &'a Vec<Stmt>) -> (o: Result<
        (),
        ZError,
    >)
        requires
            old(self).wf(),
            old(env).wf(old(self).n()),
        ensures
            reg_r(o, *final(self), *final(env)) == reg_block(
                cx.v(),
                old(self).v(),
                old(env).v(),
                stmts_v(stmts@),
            ),
            o is Ok ==> old(self).went(*old(env), *final(self), *final(env)),
        decreases stmts, 1int,
    {
        env.enter();
        self.register(cx, env, stmts)?;
        env.leave();
        Ok(())
    }

    /// Registers what statements define and declare.
    fn register(&mut self, cx: &Ctx<'a>, env: &mut Env, stmts: &'a Vec<Stmt>) -> (o: Result<(), ZError>)
        requires
            old(self).wf(),
            old(env).wf(old(self).n()),
        ensures
            reg_r(o, *final(self), *final(env)) == reg_stmts(
                cx.v(),
                old(self).v(),
                old(env).v(),
                stmts_v(stmts@),
                0,
            ),
            o is Ok ==> old(self).went(*old(env), *final(self), *final(env)),
        decreases stmts, 0int,
    {
        let ghost sv = stmts_v(stmts@);
        let ghost goal = reg_stmts(cx.v(), self.v(), env.v(), sv, 0);
        let mut i: usize = 0;
        while i < stmts.len()
            invariant
                i <= stmts.len(),
                sv == stmts_v(stmts@),
                self.wf(),
                old(self).went(*old(env), *self, *env),
                reg_stmts(cx.v(), self.v(), env.v(), sv, i as int) == goal,
                goal == reg_stmts(cx.v(), old(self).v(), old(env).v(), sv, 0),
            decreases stmts.len() - i,
        {
            assert(sv[i as int] == stmts@[i as int]@);
            assert(decreases_to!(stmts@ => stmts@[i as int]));
            self.register_stmt(cx, env, &stmts[i])?;
            i = i + 1;
        }
        Ok(())
    }

    /// Registers what a statement defines and declares.
    fn register_stmt(&mut self, cx: &Ctx<'a>, env: &mut Env, stmt: &'a Stmt) -> (o: Result<(), ZError>)
        requires
            old(self).wf(),
            old(env).wf(old(self).n()),
        ensures
            reg_r(o, *final(self), *final(env)) == reg_stmt(
                cx.v(),
                old(self).v(),
                old(env).v(),
                stmt@,
            ),
            o is Ok ==> old(self).went(*old(env), *final(self), *final(env)),
        decreases stmt, 0int,
    {
        match stmt {
            Stmt::FnDef { name, params, ret, body, span, tmp } => {
                if *tmp {
                    Ok(())
                } else {
                    let ghost n = self.n();
                    self.register_fn(cx, name, params, *ret, body, *span)?;
                    proof {
                        lemma_more_slots(*env, n, self.n());
                    }
                    Ok(())
                }
            },
            Stmt::Block { stmts, .. } => self.register_block(cx, env, stmts),
            Stmt::If { then_branch, else_branch, .. } => {
                self.register_block(cx, env, then_branch)?;
                match else_branch {
                    Some(eb) => self.register_block(cx, env, eb),
                    None => Ok(()),
                }
            },
            Stmt::While { body, .. } => self.register_block(cx, env, body),
            Stmt::ForIn { var, var2, body, span, .. } => {
                env.enter();
                self.declare(cx, env, var.as_str(), None, *span)?;
                if let Some(v) = var2 {
                    self.declare(cx, env, v.as_str(), None, *span)?;
                }
                self.register(cx, env, body)?;
                env.leave();
                Ok(())
            },
            Stmt::Try { body, catch_var, handler, span } => {
                self.register_block(cx, env, body)?;
                env.enter();
                self.declare(cx, env, catch_var.as_str(), Some(Ty::Error), *span)?;
                self.register(cx, env, handler)?;
                env.leave();
                Ok(())
            },
            Stmt::VarDecl { name, span, .. } => self.declare(cx, env, name.as_str(), None, *span),
            Stmt::Assign { name, span, .. } => self.declare(cx, env, name.as_str(), None, *span),
            Stmt::StructDef { name, fields, span } => {
                if env.in_fn {
                    return Ok(());
                }
                if self.structs.contains_key(name.as_str()) {
                    let m = cat3("struct `", name.as_str(), "` is already defined");
                    return Err(
                        cx.fail(
                            codes::SYNTAX,
                            m.as_str(),
                            *span,
                            Some("struct names must be unique"),
                        ),
                    );
                }
                let ghost before = self.structs@;
                self.structs.insert(name.as_str(), fields);
                proof {
                    assert(structs_v(before.insert(name@, fields)) =~= structs_v(before).insert(
                        name@,
                        typed_fields(fields_v(fields@)),
                    ));
                }
                Ok(())
            },
            _ => Ok(()),
        }
    }
}

/// The static checker.
pub struct Checker {}

impl Checker {
    /// Checks a whole program; `headers` holds what was read of the headers that its
    /// `load` statements name.
    pub fn check(program: &Program, file: &str, src: &str, headers: &Table<HeaderRead>) -> (o: Result<
        (),
        ZError,
    >)
        requires
            headers.wf(),
        ensures
            match o {
                Ok(_) => verdict(file@, src@, headers_v(headers@), program@) is Ok,
                Err(e) => verdict(file@, src@, headers_v(headers@), program@) == Err::<(), ErrV>(e@),
            },
    {
        let none = Ctx {
            file,
            src,
            fns: Table::new(),
            structs: Table::new(),
            headers,
            strict: false,
        };
        let st = State {
            slots: Vec::new(),
            changed: false,
            has_return: false,
            has_external: false,
            ffi: Table::new(),
        };
        let mut reg = Reg { st, fns: Table::new(), structs: Table::new() };
        let mut stack: Vec<Table<usize>> = Vec::new();
        stack.push(Table::new());
        let mut env = Env { stack, in_fn: false, ret_slot: 0 };
        proof {
            assert(fns_v(none.fns@) =~= Map::empty());
            assert(structs_v(none.structs@) =~= Map::empty());
            assert(fns_v(reg.fns@) =~= Map::empty());
            assert(structs_v(reg.structs@) =~= Map::empty());
            assert(tables_v(env.stack@) =~= seq![Map::empty()]);
            assert(reg.v().slots =~= Seq::empty());
        }
        let stmts = &program.stmts;
        reg.register(&none, &mut env, stmts)?;
        let mut st = reg.st;
        let mut cx = Ctx {
            file,
            src,
            fns: reg.fns,
            structs: reg.structs,
            headers,
            strict: false,
        };
        st.changed = false;
        proof {
            assert(ffi_v(st.ffi@) =~= Map::empty());
            assert(st.v() == reg.v().st());
        }
        let ghost order = cx.fns.order();
        let ghost sv = stmts_v(stmts@);
        let ghost cv = cx.v();
        let ghost goal = settle(cv, st.v(), env.v(), order, sv, 0);
        let mut done: usize = 0;
        loop
            invariant_except_break
                done <= 32,
                sv == stmts_v(stmts@),
                cv == cx.v(),
                order == cx.fns.order(),
                cx.wf(st.slots@.len()),
                env.wf(st.slots@.len()),
                !env.in_fn,
                st.ffi.wf(),
                settle(cv, st.v(), env.v(), order, sv, done as nat) == goal,
                verdict(file@, src@, headers_v(headers@), program@) == (match goal {
                    Err(x) => Err(x),
                    Ok((st, env1)) => match round_ty(
                        CxV { strict: true, ..cv },
                        st,
                        env1,
                        order,
                        sv,
                    ) {
                        Err(x) => Err(x),
                        Ok(_) => Ok(()),
                    },
                }),
            ensures
                cx.wf(st.slots@.len()),
                env.wf(st.slots@.len()),
                !env.in_fn,
                st.ffi.wf(),
                goal == Ok::<(StV, EnvV), ErrV>((st.v(), env.v())),
            decreases 33 - done,
        {
            st.changed = false;
            let ghost n = st.slots@.len();
            st.check_all(&cx, &mut env, stmts)?;
            proof {
                lemma_more_cx(cx, n, st.slots@.len());
            }
            if !st.changed || done >= 32 {
                break;
            }
            done = done + 1;
        }
        cx.strict = true;
        st.check_all(&cx, &mut env, stmts)
    }
}

} // verus!
