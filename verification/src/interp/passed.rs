//! What holds of the arguments that go to a loaded library.

use vstd::prelude::*;

use super::ffi::{arg_of, args_from, typed_args, CArgV};
use crate::ast::{FfiParamV, FfiSigV, FfiTy};
use crate::builtins::world::PlaceV;
use crate::value::ValueV;

verus! {

/// Whether a value is passed as an argument of a declared type: integers, numbers and texts as they
/// are, an integer for a floating-point number as that number, a truth as one or zero, and a pointer
/// by its address, zero for none. Texts hold no zero character.
pub open spec fn passes(ty: FfiTy, v: ValueV, c: CArgV) -> bool {
    match v {
        ValueV::Int(n) => (ty is Int && c == CArgV::Int(n)) || (ty is Float && c == CArgV::FloatOf(n)) || (ty is Ptr && n
            == 0 && c == CArgV::Int(0)),
        ValueV::Float(b) => ty is Float && c == CArgV::Float(b),
        ValueV::Bool(b) => ty is Bool && c == CArgV::Int(if b { 1 } else { 0 }),
        ValueV::Str(s) => ty is Str && c == CArgV::Text(s) && !s.contains('\0'),
        ValueV::Ptr(x) => ty is Ptr && c == CArgV::Int(x as i64),
        _ => false,
    }
}

/// Whether a value cannot be passed at all.
pub open spec fn unfit(ty: FfiTy, v: ValueV) -> bool {
    forall|c: CArgV| !(#[trigger] passes(ty, v, c))
}

proof fn lemma_args(p: PlaceV, func: Seq<char>, qs: Seq<FfiParamV>, vs: Seq<ValueV>, i: int, done: Seq<CArgV>)
    requires
        0 <= i <= vs.len(),
        done.len() == i,
        qs.len() == vs.len(),
        forall|j: int| 0 <= j < i ==> passes(qs[j].ty, vs[j], #[trigger] done[j]),
    ensures
        args_from(p, func, qs, vs, i, done) matches Ok(cs) ==> cs.len() == vs.len() && vs.len() <= 8 && forall|j: int|
            0 <= j < vs.len() ==> passes(qs[j].ty, vs[j], #[trigger] cs[j]),
        args_from(p, func, qs, vs, i, done) is Err ==> vs.len() > 8 || exists|j: int|
            i <= j < vs.len() && #[trigger] unfit(qs[j].ty, vs[j]),
    decreases vs.len() - i,
{
    if i < vs.len() {
        match arg_of(p, func, qs[i], vs[i]) {
            Ok(c) => {
                assert(passes(qs[i].ty, vs[i], c));
                lemma_args(p, func, qs, vs, i + 1, done.push(c));
            },
            Err(_) => {
                assert(unfit(qs[i].ty, vs[i]));
            },
        }
    }
}

/// Arguments go to a library in their order, each as its parameter's type says; a call is refused where
/// one cannot, where their number is another than that of the parameters or above eight, and where the
/// signature is not supported, and only there.
pub proof fn law_arguments_are_passed(p: PlaceV, sig: FfiSigV, func: Seq<char>, vs: Seq<ValueV>)
    ensures
        typed_args(p, sig, func, vs) matches Ok(cs) ==> cs.len() == vs.len() && sig.params.len() == vs.len() && vs.len()
            <= 8 && forall|j: int| 0 <= j < vs.len() ==> passes(sig.params[j].ty, vs[j], #[trigger] cs[j]),
        typed_args(p, sig, func, vs) is Err ==> sig.unsupported is Some || sig.params.len() != vs.len() || vs.len() > 8
            || exists|j: int| 0 <= j < vs.len() && #[trigger] unfit(sig.params[j].ty, vs[j]),
        sig.unsupported is Some ==> typed_args(p, sig, func, vs) is Err,
{
    if sig.unsupported is None && sig.params.len() == vs.len() {
        lemma_args(p, func, sig.params, vs, 0, Seq::empty());
    }
}

} // verus!
