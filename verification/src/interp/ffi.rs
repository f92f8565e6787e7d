//! Calls into loaded libraries: arguments and results at the C ABI.

use vstd::prelude::*;

use crate::ast::{FfiParam, FfiParamV, FfiSig, FfiSigV, FfiTy};
use crate::builtins::world::{fail, failed, fault, Out, OutV, Place, PlaceV, Reply, ReplyV};
use crate::error::{codes, ErrV, ZError};
use crate::text::{cat3, cat4, cat5, cat7, dec, dec_usize, has_char, strs};
use crate::value::{values_v, Value, ValueV};
use crate::words::{join, joined_by};

verus! {

/// An argument at the C ABI.
pub enum CArg {
    /// An integer register.
    Int(i64),
    /// A floating-point register, by the bits of the number.
    Float(u64),
    /// A floating-point register, with the floating-point number of an integer.
    FloatOf(i64),
    /// The address of a text that ends with a zero byte.
    Text(String),
}

/// An argument at the C ABI, mathematically.
pub enum CArgV {
    Int(i64),
    Float(u64),
    FloatOf(i64),
    Text(Seq<char>),
}

impl View for CArg {
    type V = CArgV;

    open spec fn view(&self) -> CArgV {
        match *self {
            CArg::Int(n) => CArgV::Int(n),
            CArg::Float(b) => CArgV::Float(b),
            CArg::FloatOf(n) => CArgV::FloatOf(n),
            CArg::Text(t) => CArgV::Text(t@),
        }
    }
}

/// Arguments, mathematically.
pub open spec fn cargs_v(s: Seq<CArg>) -> Seq<CArgV> {
    s.map_values(|c: CArg| c@)
}

/// The error of an argument of the wrong type.
pub open spec fn bad_arg(p: PlaceV, func: Seq<char>, q: FfiParamV, v: ValueV, help: Seq<char>) -> ErrV {
    fault(
        p,
        codes::TYPE_MISMATCH@,
        "`"@ + func + "` parameter `"@ + q.name + "` expects `"@ + q.ty.text() + "`, got `"@ + v.type_text() + "`"@,
        Some(help),
    )
}

fn arg_err(p: &Place, func: &str, q: &FfiParam, v: &Value, help: &str) -> (r: ZError)
    ensures
        r@ == bad_arg(p@, func@, q@, v@, help@),
{
    let mut msg = cat7("`", func, "` parameter `", q.name.as_str(), "` expects `", q.ty.name(), "`, got `");
    msg.append(v.kind_name());
    msg.append("`");
    p.fault(codes::TYPE_MISMATCH, msg.as_str(), Some(help))
}

/// A value as the argument of a parameter. An integer may stand for a floating-point number.
pub open spec fn arg_of(p: PlaceV, func: Seq<char>, q: FfiParamV, v: ValueV) -> Result<CArgV, ErrV> {
    match q.ty {
        FfiTy::Int => match v {
            ValueV::Int(n) => Ok(CArgV::Int(n)),
            v => Err(bad_arg(p, func, q, v, "the declared FFI signature maps `int` to int64"@)),
        },
        FfiTy::Float => match v {
            ValueV::Float(b) => Ok(CArgV::Float(b)),
            ValueV::Int(n) => Ok(CArgV::FloatOf(n)),
            v => Err(bad_arg(p, func, q, v, "the declared FFI signature maps `float` to double"@)),
        },
        FfiTy::Bool => match v {
            ValueV::Bool(b) => Ok(CArgV::Int(if b { 1 } else { 0 })),
            v => Err(bad_arg(p, func, q, v, "the declared FFI signature maps `bool` to a C boolean"@)),
        },
        FfiTy::Str => match v {
            ValueV::Str(s) => if s.contains('\0') {
                Err(
                    fault(
                        p,
                        codes::TYPE_MISMATCH@,
                        "`"@ + func + "` parameter `"@ + q.name + "` contains a NUL byte"@,
                        Some("C strings cannot contain embedded NUL characters"@),
                    ),
                )
            } else {
                Ok(CArgV::Text(s))
            },
            v => Err(bad_arg(p, func, q, v, "the declared FFI signature maps `str` to `const char*`"@)),
        },
        FfiTy::Ptr => match v {
            ValueV::Ptr(x) => Ok(CArgV::Int(x as i64)),
            ValueV::Int(n) if n == 0 => Ok(CArgV::Int(0)),
            v => Err(
                bad_arg(
                    p,
                    func,
                    q,
                    v,
                    "pass a `ptr` value (e.g. from another FFI call) or `0` for NULL"@,
                ),
            ),
        },
        FfiTy::Void => Err(bad_arg(p, func, q, v, "void is not a parameter type"@)),
    }
}

fn convert(p: &Place, func: &str, q: &FfiParam, v: &Value) -> (r: Result<CArg, ZError>)
    ensures
        match r {
            Ok(c) => arg_of(p@, func@, q@, v@) == Ok::<CArgV, ErrV>(c@),
            Err(e) => arg_of(p@, func@, q@, v@) == Err::<CArgV, ErrV>(e@),
        },
{
    match q.ty {
        FfiTy::Int => match v {
            Value::Int(n) => Ok(CArg::Int(*n)),
            v => Err(arg_err(p, func, q, v, "the declared FFI signature maps `int` to int64")),
        },
        FfiTy::Float => match v {
            Value::Float(b) => Ok(CArg::Float(*b)),
            Value::Int(n) => Ok(CArg::FloatOf(*n)),
            v => Err(arg_err(p, func, q, v, "the declared FFI signature maps `float` to double")),
        },
        FfiTy::Bool => match v {
            Value::Bool(b) => Ok(CArg::Int(if *b { 1 } else { 0 })),
            v => Err(arg_err(p, func, q, v, "the declared FFI signature maps `bool` to a C boolean")),
        },
        FfiTy::Str => match v {
            Value::Str(s) => {
                if has_char(s.as_str(), '\0') {
                    let msg = cat5("`", func, "` parameter `", q.name.as_str(), "` contains a NUL byte");
                    Err(
                        p.fault(
                            codes::TYPE_MISMATCH,
                            msg.as_str(),
                            Some("C strings cannot contain embedded NUL characters"),
                        ),
                    )
                } else {
                    Ok(CArg::Text(s.clone()))
                }
            },
            v => Err(arg_err(p, func, q, v, "the declared FFI signature maps `str` to `const char*`")),
        },
        FfiTy::Ptr => match v {
            Value::Ptr(x) => Ok(CArg::Int(*x as i64)),
            Value::Int(n) if *n == 0 => Ok(CArg::Int(0)),
            v => Err(
                arg_err(
                    p,
                    func,
                    q,
                    v,
                    "pass a `ptr` value (e.g. from another FFI call) or `0` for NULL",
                ),
            ),
        },
        FfiTy::Void => Err(arg_err(p, func, q, v, "void is not a parameter type")),
    }
}

/// The arguments of parameters from `i` on, behind those that are there.
pub open spec fn args_from(
    p: PlaceV,
    func: Seq<char>,
    qs: Seq<FfiParamV>,
    vs: Seq<ValueV>,
    i: int,
    done: Seq<CArgV>,
) -> Result<Seq<CArgV>, ErrV>
    decreases vs.len() - i,
{
    if i < 0 || i >= vs.len() {
        if vs.len() > 8 {
            Err(
                fault(
                    p,
                    codes::DLL_ARG@,
                    "`"@ + func + "` takes at most 8 parameters"@,
                    Some("the C ABI convention supports up to 8 scalar parameters"@),
                ),
            )
        } else {
            Ok(done)
        }
    } else {
        match arg_of(p, func, qs[i], vs[i]) {
            Ok(c) => args_from(p, func, qs, vs, i + 1, done.push(c)),
            Err(e) => Err(e),
        }
    }
}

/// The types of parameters by name.
pub open spec fn type_names(qs: Seq<FfiParamV>) -> Seq<Seq<char>> {
    qs.map_values(|q: FfiParamV| q.ty.text())
}

/// The arguments of a function with a signature, or why it cannot be called with them.
pub open spec fn typed_args(p: PlaceV, sig: FfiSigV, func: Seq<char>, vs: Seq<ValueV>) -> Result<Seq<CArgV>, ErrV> {
    if sig.unsupported is Some {
        Err(
            fault(
                p,
                codes::NOT_IMPLEMENTED@,
                "`"@ + func + "` cannot be called: "@ + sig.unsupported->0,
                Some("declare a manual signature for this function, or use `ptr` for the unsupported parts"@),
            ),
        )
    } else if sig.params.len() != vs.len() {
        Err(
            fault(
                p,
                codes::DLL_ARG@,
                "`"@ + func + "` expects "@ + dec(sig.params.len()) + " arguments, got "@ + dec(vs.len()),
                Some(
                    "declared signature: `fn "@ + sig.name + "("@ + joined_by(
                        type_names(sig.params),
                        ", "@,
                        sig.params.len() as int,
                    ) + ") -> "@ + sig.ret.text() + "`"@,
                ),
            ),
        )
    } else {
        args_from(p, func, sig.params, vs, 0, Seq::empty())
    }
}

/// The mathematical form of arguments or an error.
pub open spec fn cargs_r(r: Result<Vec<CArg>, ZError>) -> Result<Seq<CArgV>, ErrV> {
    match r {
        Ok(v) => Ok(cargs_v(v@)),
        Err(e) => Err(e@),
    }
}

fn count_err(p: &Place, sig: &FfiSig, func: &str, got: usize) -> (r: ZError)
    ensures
        r@ == fault(
            p@,
            codes::DLL_ARG@,
            "`"@ + func@ + "` expects "@ + dec(sig@.params.len()) + " arguments, got "@ + dec(got as nat),
            Some(
                "declared signature: `fn "@ + sig@.name + "("@ + joined_by(
                    type_names(sig@.params),
                    ", "@,
                    sig@.params.len() as int,
                ) + ") -> "@ + sig@.ret.text() + "`"@,
            ),
        ),
{
    let mut names: Vec<String> = Vec::new();
    let mut i: usize = 0;
    while i < sig.params.len()
        invariant
            i <= sig.params.len(),
            names.len() == i,
            forall|k: int| 0 <= k < i ==> (#[trigger] names@[k])@ == sig.params@[k].ty.text(),
        decreases sig.params.len() - i,
    {
        names.push(sig.params[i].ty.name().to_owned());
        i = i + 1;
    }
    assert(strs(names@) =~= type_names(sig@.params));
    let mut msg = cat4("`", func, "` expects ", dec_usize(sig.params.len()).as_str());
    msg.append(" arguments, got ");
    msg.append(dec_usize(got).as_str());
    let help = cat7(
        "declared signature: `fn ",
        sig.name.as_str(),
        "(",
        join(&names, ", ").as_str(),
        ") -> ",
        sig.ret.name(),
        "`",
    );
    p.fault(codes::DLL_ARG, msg.as_str(), Some(help.as_str()))
}

/// The arguments of a function with a signature.
pub fn call_ffi_typed(p: &Place, sig: &FfiSig, func: &str, vs: &Vec<Value>) -> (r: Result<Vec<CArg>, ZError>)
    ensures
        cargs_r(r) == typed_args(p@, sig@, func@, values_v(vs@)),
{
    if let Some(why) = sig.unsupported {
        let msg = cat4("`", func, "` cannot be called: ", why);
        return Err(
            p.fault(
                codes::NOT_IMPLEMENTED,
                msg.as_str(),
                Some("declare a manual signature for this function, or use `ptr` for the unsupported parts"),
            ),
        );
    }
    if sig.params.len() != vs.len() {
        return Err(count_err(p, sig, func, vs.len()));
    }
    let mut out: Vec<CArg> = Vec::new();
    let mut i: usize = 0;
    let ghost goal = args_from(p@, func@, sig@.params, values_v(vs@), 0, Seq::empty());
    assert(cargs_v(out@) =~= Seq::empty());
    while i < vs.len()
        invariant
            i <= vs.len(),
            sig.params.len() == vs.len(),
            sig@.unsupported is None,
            goal == typed_args(p@, sig@, func@, values_v(vs@)),
            args_from(p@, func@, sig@.params, values_v(vs@), i as int, cargs_v(out@)) == goal,
        decreases vs.len() - i,
    {
        assert(values_v(vs@)[i as int] == vs@[i as int]@);
        assert(sig@.params[i as int] == sig.params@[i as int]@);
        match convert(p, func, &sig.params[i], &vs[i]) {
            Err(e) => return Err(e),
            Ok(c) => {
                let ghost was = out@;
                out.push(c);
                assert(cargs_v(out@) =~= cargs_v(was).push(c@));
            },
        }
        i = i + 1;
    }
    if vs.len() > 8 {
        let msg = cat3("`", func, "` takes at most 8 parameters");
        return Err(
            p.fault(
                codes::DLL_ARG,
                msg.as_str(),
                Some("the C ABI convention supports up to 8 scalar parameters"),
            ),
        );
    }
    Ok(out)
}

/// Integers from `i` on as arguments, behind those that are there.
pub open spec fn ints_from(p: PlaceV, callee: Seq<char>, vs: Seq<ValueV>, i: int, done: Seq<CArgV>) -> Result<
    Seq<CArgV>,
    ErrV,
>
    decreases vs.len() - i,
{
    if i < 0 || i >= vs.len() {
        Ok(done)
    } else {
        match vs[i] {
            ValueV::Int(n) => ints_from(p, callee, vs, i + 1, done.push(CArgV::Int(n))),
            v => Err(
                fault(
                    p,
                    codes::TYPE_MISMATCH@,
                    "`"@ + callee + "` expects `int` arguments, got `"@ + v.type_text() + "`"@,
                    Some("the C ABI convention maps `int` to int64"@),
                ),
            ),
        }
    }
}

/// The arguments of a function without a signature: up to eight integers.
pub open spec fn plain_args(p: PlaceV, callee: Seq<char>, vs: Seq<ValueV>) -> Result<Seq<CArgV>, ErrV> {
    if vs.len() > 8 {
        Err(
            fault(
                p,
                codes::DLL_ARG@,
                "`"@ + callee + "` takes at most 8 arguments"@,
                Some("the C ABI convention supports up to 8 int64 parameters"@),
            ),
        )
    } else {
        ints_from(p, callee, vs, 0, Seq::empty())
    }
}

/// The arguments of a function without a signature.
pub fn call_plain(p: &Place, callee: &str, vs: &Vec<Value>) -> (r: Result<Vec<CArg>, ZError>)
    ensures
        cargs_r(r) == plain_args(p@, callee@, values_v(vs@)),
{
    if vs.len() > 8 {
        let msg = cat3("`", callee, "` takes at most 8 arguments");
        return Err(
            p.fault(
                codes::DLL_ARG,
                msg.as_str(),
                Some("the C ABI convention supports up to 8 int64 parameters"),
            ),
        );
    }
    let mut out: Vec<CArg> = Vec::new();
    let mut i: usize = 0;
    assert(cargs_v(out@) =~= Seq::empty());
    while i < vs.len()
        invariant
            i <= vs.len() <= 8,
            plain_args(p@, callee@, values_v(vs@)) == ints_from(
                p@,
                callee@,
                values_v(vs@),
                i as int,
                cargs_v(out@),
            ),
        decreases vs.len() - i,
    {
        assert(values_v(vs@)[i as int] == vs@[i as int]@);
        match &vs[i] {
            Value::Int(n) => {
                let ghost was = out@;
                out.push(CArg::Int(*n));
                assert(cargs_v(out@) =~= cargs_v(was).push(CArgV::Int(*n)));
            },
            v => {
                let msg = cat5("`", callee, "` expects `int` arguments, got `", v.kind_name(), "`");
                return Err(
                    p.fault(
                        codes::TYPE_MISMATCH,
                        msg.as_str(),
                        Some("the C ABI convention maps `int` to int64"),
                    ),
                );
            },
        }
        i = i + 1;
    }
    Ok(out)
}

/// Whether a reply is one that a call with a result of a type can end with.
pub open spec fn fits_result(ret: FfiTy, reply: ReplyV) -> bool {
    reply is Trouble || match ret {
        FfiTy::Int | FfiTy::Bool | FfiTy::Ptr => reply is Int,
        FfiTy::Float => reply is Float,
        FfiTy::Str => reply is MaybeText,
        FfiTy::Void => true,
    }
}

/// The result of a call: of the type of the signature; a text behind a null address and a
/// missing symbol are errors.
pub open spec fn result_of(p: PlaceV, ret: FfiTy, func: Seq<char>, lib: Seq<char>, reply: ReplyV) -> OutV {
    match reply {
        ReplyV::Trouble(_, e) => failed(
            p,
            codes::NOT_FOUND@,
            "symbol `"@ + func + "` not found in library `"@ + lib + "`: "@ + e,
            Some("check the exported symbol name (e.g. `#[no_mangle] pub extern \"C\" fn`)"@),
        ),
        ReplyV::Int(n) => match ret {
            FfiTy::Bool => OutV::Value(ValueV::Bool(n != 0)),
            FfiTy::Ptr => OutV::Value(ValueV::Ptr(n as usize)),
            FfiTy::Void => OutV::Value(ValueV::Null),
            _ => OutV::Value(ValueV::Int(n)),
        },
        ReplyV::Float(b) => if ret == FfiTy::Void {
            OutV::Value(ValueV::Null)
        } else {
            OutV::Value(ValueV::Float(b))
        },
        ReplyV::MaybeText(Some(t)) => if ret == FfiTy::Void {
            OutV::Value(ValueV::Null)
        } else {
            OutV::Value(ValueV::Str(t))
        },
        ReplyV::MaybeText(None) => if ret == FfiTy::Void {
            OutV::Value(ValueV::Null)
        } else {
            failed(
                p,
                codes::TYPE_MISMATCH@,
                "`"@ + func + "` returned NULL where `str` was expected"@,
                Some("the C function returned a null `const char*`"@),
            )
        },
        _ => OutV::Value(ValueV::Null),
    }
}

/// The result of a call.
pub fn lib_result(p: &Place, ret: FfiTy, func: &str, lib: &str, reply: Reply) -> (r: Out)
    requires
        fits_result(ret, reply@),
    ensures
        r@ == result_of(p@, ret, func@, lib@, reply@),
{
    match reply {
        Reply::Trouble(_, e) => {
            let mut msg = cat5("symbol `", func, "` not found in library `", lib, "`: ");
            msg.append(e.as_str());
            fail(
                p,
                codes::NOT_FOUND,
                msg.as_str(),
                Some("check the exported symbol name (e.g. `#[no_mangle] pub extern \"C\" fn`)"),
            )
        },
        Reply::Int(n) => match ret {
            FfiTy::Bool => Out::Value(Value::Bool(n != 0)),
            FfiTy::Ptr => Out::Value(Value::Ptr(n as usize)),
            FfiTy::Void => Out::Value(Value::Null),
            _ => Out::Value(Value::Int(n)),
        },
        Reply::Float(b) => {
            if ret == FfiTy::Void {
                Out::Value(Value::Null)
            } else {
                Out::Value(Value::Float(b))
            }
        },
        Reply::MaybeText(Some(t)) => {
            if ret == FfiTy::Void {
                Out::Value(Value::Null)
            } else {
                Out::Value(Value::Str(t))
            }
        },
        Reply::MaybeText(None) => {
            if ret == FfiTy::Void {
                return Out::Value(Value::Null);
            }
            let msg = cat3("`", func, "` returned NULL where `str` was expected");
            fail(
                p,
                codes::TYPE_MISMATCH,
                msg.as_str(),
                Some("the C function returned a null `const char*`"),
            )
        },
        _ => Out::Value(Value::Null),
    }
}

} // verus!
