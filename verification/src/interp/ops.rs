//! The operators on values.

use vstd::prelude::*;

use crate::ast::{BinOp, TyName, UnOp};
use crate::builtins::basics::{find_key, key_place};
use crate::builtins::world::{
    fail, failed, fault, FloatOp, Out, OutV, Pending, PendingV, Place, PlaceV, Request, RequestV,
};
use crate::error::{codes, ErrV, ZError};
use crate::text::{cat2, cat3, cat5, cat7, eq, strs};
use crate::value::{
    dict_v, float_abs, float_before, float_eq, float_neg, floats_equal, is_nan, magnitude, nan, negated, rank,
    same_value, Value, ValueV,
};
use crate::words::{join, joined_by};

verus! {

/// The quotient of two integers, cut off towards zero.
pub open spec fn quotient(x: int, y: int) -> int {
    let a = if x < 0 { -x } else { x };
    let b = if y < 0 { -y } else { y };
    if (x < 0) != (y < 0) {
        -(a / b)
    } else {
        a / b
    }
}

/// The rest of a division that cuts off towards zero.
pub open spec fn remainder(x: int, y: int) -> int {
    let a = if x < 0 { -x } else { x };
    let b = if y < 0 { -y } else { y };
    if x < 0 {
        -(a % b)
    } else {
        a % b
    }
}

/// An integer as a value, where it fits into 64 bits.
pub open spec fn fitting(p: PlaceV, n: int) -> OutV {
    if i64::MIN <= n <= i64::MAX {
        OutV::Value(ValueV::Int(n as i64))
    } else {
        failed(
            p,
            codes::INTEGER_OVERFLOW@,
            "integer overflow"@,
            Some("the result does not fit in a 64-bit signed integer"@),
        )
    }
}

fn fit(p: &Place, n: i128) -> (r: Out)
    ensures
        r@ == fitting(p@, n as int),
{
    if -0x8000_0000_0000_0000 <= n && n <= 0x7fff_ffff_ffff_ffff {
        Out::Value(Value::Int(n as i64))
    } else {
        fail(
            p,
            codes::INTEGER_OVERFLOW,
            "integer overflow",
            Some("the result does not fit in a 64-bit signed integer"),
        )
    }
}

/// The error of a division by zero.
pub open spec fn zero_division(p: PlaceV) -> OutV {
    failed(p, codes::DIV_ZERO@, "division by zero"@, Some("check the divisor before dividing"@))
}

fn div_zero(p: &Place) -> (r: Out)
    ensures
        r@ == zero_division(p@),
{
    fail(p, codes::DIV_ZERO, "division by zero", Some("check the divisor before dividing"))
}

/// An operator of arithmetic on two integers.
pub open spec fn int_arith(p: PlaceV, op: BinOp, x: int, y: int) -> OutV {
    match op {
        BinOp::Add => fitting(p, x + y),
        BinOp::Sub => fitting(p, x - y),
        BinOp::Mul => fitting(p, x * y),
        BinOp::Div => if y == 0 {
            zero_division(p)
        } else {
            fitting(p, quotient(x, y))
        },
        _ => if y == 0 {
            zero_division(p)
        } else if y == -1 && x == i64::MIN {
            fitting(p, quotient(x, y))
        } else {
            fitting(p, remainder(x, y))
        },
    }
}

fn do_int(p: &Place, op: BinOp, x: i64, y: i64) -> (r: Out)
    ensures
        r@ == int_arith(p@, op, x as int, y as int),
{
    let a: i128 = if x < 0 { -(x as i128) } else { x as i128 };
    let b: i128 = if y < 0 { -(y as i128) } else { y as i128 };
    match op {
        BinOp::Add => fit(p, x as i128 + y as i128),
        BinOp::Sub => fit(p, x as i128 - y as i128),
        BinOp::Mul => {
            proof {
                lemma_product(x as int, y as int);
            }
            fit(p, x as i128 * y as i128)
        },
        BinOp::Div => {
            if y == 0 {
                return div_zero(p);
            }
            proof {
                lemma_parts(a as int, b as int);
            }
            let q: i128 = a / b;
            fit(p, if (x < 0) != (y < 0) { -q } else { q })
        },
        _ => {
            if y == 0 {
                return div_zero(p);
            }
            proof {
                lemma_parts(a as int, b as int);
            }
            if y == -1 && x == i64::MIN {
                let q: i128 = a / b;
                return fit(p, q);
            }
            let m: i128 = a % b;
            fit(p, if x < 0 { -m } else { m })
        },
    }
}

/// The product of two 64-bit integers fits into 128 bits.
proof fn lemma_product(x: int, y: int)
    requires
        i64::MIN <= x <= i64::MAX,
        i64::MIN <= y <= i64::MAX,
    ensures
        -0x4000_0000_0000_0000_0000_0000_0000_0000 <= x * y <= 0x4000_0000_0000_0000_0000_0000_0000_0000,
{
    assert(-0x4000_0000_0000_0000_0000_0000_0000_0000 <= x * y <= 0x4000_0000_0000_0000_0000_0000_0000_0000)
        by (nonlinear_arith)
        requires
            -0x8000_0000_0000_0000 <= x <= 0x8000_0000_0000_0000,
            -0x8000_0000_0000_0000 <= y <= 0x8000_0000_0000_0000,
    ;
}

/// A quotient and a rest are no larger than what is divided.
proof fn lemma_parts(a: int, b: int)
    requires
        0 <= a,
        0 < b,
    ensures
        0 <= a / b <= a,
        0 <= a % b <= a,
{
    vstd::arithmetic::div_mod::lemma_div_nonincreasing(a, b);
    vstd::arithmetic::div_mod::lemma_div_pos_is_pos(a, b);
    vstd::arithmetic::div_mod::lemma_mod_bound(a, b);
    if a < b {
        vstd::arithmetic::div_mod::lemma_small_mod(a as nat, b as nat);
    }
}

/// The operation on floating-point numbers behind an operator.
pub open spec fn float_op(op: BinOp) -> FloatOp {
    match op {
        BinOp::Add => FloatOp::Plus,
        BinOp::Sub => FloatOp::Minus,
        BinOp::Mul => FloatOp::Times,
        BinOp::Div => FloatOp::Over,
        _ => FloatOp::Rest,
    }
}

/// An operator of arithmetic: on two integers, two floating-point numbers (which is asked
/// for), or, for `+`, two texts.
pub open spec fn arith_of(p: PlaceV, op: BinOp, a: ValueV, b: ValueV) -> OutV {
    match (a, b) {
        (ValueV::Int(x), ValueV::Int(y)) => int_arith(p, op, x as int, y as int),
        (ValueV::Float(x), ValueV::Float(y)) => if (op == BinOp::Div || op == BinOp::Mod) && magnitude(y) == 0 {
            zero_division(p)
        } else {
            OutV::Ask(RequestV::Float(float_op(op), x, y), PendingV::Given)
        },
        (a, b) => if a is Str && b is Str && op == BinOp::Add {
            OutV::Value(ValueV::Str(a->Str_0 + b->Str_0))
        } else {
            failed(
                p,
                codes::TYPE_MISMATCH@,
                "cannot apply `"@ + op.text() + "` to `"@ + a.type_text() + "` and `"@ + b.type_text() + "`"@,
                Some("Hone has no implicit type conversion"@),
            )
        },
    }
}

/// An operator of arithmetic.
pub fn arith(p: &Place, op: BinOp, a: &Value, b: &Value) -> (r: Out)
    ensures
        r@ == arith_of(p@, op, a@, b@),
{
    match (a, b) {
        (Value::Int(x), Value::Int(y)) => do_int(p, op, *x, *y),
        (Value::Float(x), Value::Float(y)) => {
            if (op == BinOp::Div || op == BinOp::Mod) && float_abs(*y) == 0 {
                return div_zero(p);
            }
            let f = match op {
                BinOp::Add => FloatOp::Plus,
                BinOp::Sub => FloatOp::Minus,
                BinOp::Mul => FloatOp::Times,
                BinOp::Div => FloatOp::Over,
                _ => FloatOp::Rest,
            };
            Out::Ask(Request::Float(f, *x, *y), Pending::Given)
        },
        (a, b) => {
            if let (Value::Str(x), Value::Str(y)) = (a, b) {
                if op == BinOp::Add {
                    return Out::Value(Value::Str(cat2(x.as_str(), y.as_str())));
                }
            }
            let msg = cat7(
                "cannot apply `",
                op.symbol(),
                "` to `",
                a.kind_name(),
                "` and `",
                b.kind_name(),
                "`",
            );
            fail(p, codes::TYPE_MISMATCH, msg.as_str(), Some("Hone has no implicit type conversion"))
        },
    }
}

/// The error of two values that cannot be compared.
pub open spec fn no_comparison(p: PlaceV, a: ValueV, b: ValueV, help: Seq<char>) -> ErrV {
    fault(
        p,
        codes::TYPE_MISMATCH@,
        "cannot compare `"@ + a.type_text() + "` with `"@ + b.type_text() + "`"@,
        Some(help),
    )
}

fn cannot_compare(p: &Place, a: &Value, b: &Value, help: &str) -> (r: ZError)
    ensures
        r@ == no_comparison(p@, a@, b@, help@),
{
    let msg = cat5("cannot compare `", a.kind_name(), "` with `", b.kind_name(), "`");
    p.fault(codes::TYPE_MISMATCH, msg.as_str(), Some(help))
}

/// Whether two values are equal: values of the same type are compared, and an address with
/// an integer by its number.
pub open spec fn equal_of(p: PlaceV, a: ValueV, b: ValueV) -> Result<bool, ErrV> {
    match (a, b) {
        (ValueV::Int(x), ValueV::Int(y)) => Ok(x == y),
        (ValueV::Float(x), ValueV::Float(y)) => Ok(float_eq(x, y)),
        (ValueV::Bool(x), ValueV::Bool(y)) => Ok(x == y),
        (ValueV::Str(x), ValueV::Str(y)) => Ok(x == y),
        (ValueV::List(_), ValueV::List(_)) => Ok(same_value(a, b)),
        (ValueV::Dict(_), ValueV::Dict(_)) => Ok(same_value(a, b)),
        (ValueV::Ptr(x), ValueV::Ptr(y)) => Ok(x == y),
        (ValueV::Ptr(x), ValueV::Int(y)) => Ok(x as i64 == y),
        (ValueV::Int(x), ValueV::Ptr(y)) => Ok(x == y as i64),
        (ValueV::Null, ValueV::Null) => Ok(true),
        _ => Err(no_comparison(p, a, b, "Hone has no implicit type conversion"@)),
    }
}

/// The mathematical form of an answer or an error.
pub open spec fn told_r(r: Result<bool, ZError>) -> Result<bool, ErrV> {
    match r {
        Ok(b) => Ok(b),
        Err(e) => Err(e@),
    }
}

/// Whether two values are equal.
pub fn values_eq(p: &Place, a: &Value, b: &Value) -> (r: Result<bool, ZError>)
    ensures
        told_r(r) == equal_of(p@, a@, b@),
{
    match (a, b) {
        (Value::Int(x), Value::Int(y)) => Ok(*x == *y),
        (Value::Float(x), Value::Float(y)) => Ok(floats_equal(*x, *y)),
        (Value::Bool(x), Value::Bool(y)) => Ok(*x == *y),
        (Value::Str(x), Value::Str(y)) => Ok(eq(x.as_str(), y.as_str())),
        (Value::List(_), Value::List(_)) => Ok(a.same(b)),
        (Value::Dict(_), Value::Dict(_)) => Ok(a.same(b)),
        (Value::Ptr(x), Value::Ptr(y)) => Ok(*x == *y),
        (Value::Ptr(x), Value::Int(y)) => Ok(*x as i64 == *y),
        (Value::Int(x), Value::Ptr(y)) => Ok(*x == *y as i64),
        (Value::Null, Value::Null) => Ok(true),
        _ => Err(cannot_compare(p, a, b, "Hone has no implicit type conversion")),
    }
}

/// Whether an order between two numbers holds.
pub open spec fn holds(op: BinOp, x: int, y: int) -> bool {
    match op {
        BinOp::Lt => x < y,
        BinOp::Le => x <= y,
        BinOp::Gt => x > y,
        _ => x >= y,
    }
}

/// An operator of order: on two integers or two floating-point numbers.
pub open spec fn order_of(p: PlaceV, op: BinOp, a: ValueV, b: ValueV) -> OutV {
    match (a, b) {
        (ValueV::Int(x), ValueV::Int(y)) => OutV::Value(ValueV::Bool(holds(op, x as int, y as int))),
        (ValueV::Float(x), ValueV::Float(y)) => if is_nan(x) || is_nan(y) {
            failed(p, codes::TYPE_MISMATCH@, "cannot compare NaN values"@, None)
        } else {
            OutV::Value(ValueV::Bool(holds(op, rank(x), rank(y))))
        },
        _ => OutV::Error(no_comparison(p, a, b, "comparison operators work on `int` / `float`"@)),
    }
}

/// An operator of order.
pub fn order(p: &Place, op: BinOp, a: &Value, b: &Value) -> (r: Out)
    ensures
        r@ == order_of(p@, op, a@, b@),
{
    match (a, b) {
        (Value::Int(x), Value::Int(y)) => {
            let t = match op {
                BinOp::Lt => *x < *y,
                BinOp::Le => *x <= *y,
                BinOp::Gt => *x > *y,
                _ => *x >= *y,
            };
            Out::Value(Value::Bool(t))
        },
        (Value::Float(x), Value::Float(y)) => {
            if nan(*x) || nan(*y) {
                return fail(p, codes::TYPE_MISMATCH, "cannot compare NaN values", None);
            }
            let t = match op {
                BinOp::Lt => float_before(*x, *y),
                BinOp::Le => !float_before(*y, *x),
                BinOp::Gt => float_before(*y, *x),
                _ => !float_before(*x, *y),
            };
            Out::Value(Value::Bool(t))
        },
        _ => Out::Error(cannot_compare(p, a, b, "comparison operators work on `int` / `float`")),
    }
}

/// An infix operator on two values (`&&` and `||` stop earlier and are not among them).
pub open spec fn infix_of(p: PlaceV, op: BinOp, a: ValueV, b: ValueV) -> OutV {
    match op {
        BinOp::Eq | BinOp::Ne => match equal_of(p, a, b) {
            Ok(t) => OutV::Value(ValueV::Bool(if op == BinOp::Eq { t } else { !t })),
            Err(e) => OutV::Error(e),
        },
        BinOp::Lt | BinOp::Le | BinOp::Gt | BinOp::Ge => order_of(p, op, a, b),
        _ => arith_of(p, op, a, b),
    }
}

/// An infix operator on two values.
pub fn infix(p: &Place, op: BinOp, a: &Value, b: &Value) -> (r: Out)
    ensures
        r@ == infix_of(p@, op, a@, b@),
{
    match op {
        BinOp::Eq | BinOp::Ne => match values_eq(p, a, b) {
            Ok(t) => Out::Value(Value::Bool(if op == BinOp::Eq { t } else { !t })),
            Err(e) => Out::Error(e),
        },
        BinOp::Lt | BinOp::Le | BinOp::Gt | BinOp::Ge => order(p, op, a, b),
        _ => arith(p, op, a, b),
    }
}

/// The value on the right of `&&` or `||`, which must be a `bool`.
pub open spec fn bool_of(p: PlaceV, v: ValueV) -> OutV {
    match v {
        ValueV::Bool(b) => OutV::Value(ValueV::Bool(b)),
        v => failed(
            p,
            codes::TYPE_MISMATCH@,
            "logical operators require `bool` operands, got `"@ + v.type_text() + "`"@,
            None,
        ),
    }
}

/// The value on the right of `&&` or `||`.
pub fn require_bool_val(p: &Place, v: &Value) -> (r: Out)
    ensures
        r@ == bool_of(p@, v@),
{
    match v {
        Value::Bool(b) => Out::Value(Value::Bool(*b)),
        v => {
            let msg = cat3("logical operators require `bool` operands, got `", v.kind_name(), "`");
            fail(p, codes::TYPE_MISMATCH, msg.as_str(), None)
        },
    }
}

/// A prefix operator on a value.
pub open spec fn prefix_of(p: PlaceV, op: UnOp, v: ValueV) -> OutV {
    match op {
        UnOp::Neg => match v {
            ValueV::Int(n) => fitting(p, -(n as int)),
            ValueV::Float(b) => OutV::Value(ValueV::Float(float_neg(b))),
            v => failed(
                p,
                codes::TYPE_MISMATCH@,
                "unary `-` requires a number, got `"@ + v.type_text() + "`"@,
                None,
            ),
        },
        UnOp::Not => match v {
            ValueV::Bool(b) => OutV::Value(ValueV::Bool(!b)),
            v => failed(
                p,
                codes::TYPE_MISMATCH@,
                "`!` requires a `bool`, got `"@ + v.type_text() + "`"@,
                None,
            ),
        },
    }
}

/// A prefix operator on a value.
pub fn prefix(p: &Place, op: UnOp, v: &Value) -> (r: Out)
    ensures
        r@ == prefix_of(p@, op, v@),
{
    match op {
        UnOp::Neg => match v {
            Value::Int(n) => fit(p, -(*n as i128)),
            Value::Float(b) => Out::Value(Value::Float(negated(*b))),
            v => {
                let msg = cat3("unary `-` requires a number, got `", v.kind_name(), "`");
                fail(p, codes::TYPE_MISMATCH, msg.as_str(), None)
            },
        },
        UnOp::Not => match v {
            Value::Bool(b) => Out::Value(Value::Bool(!*b)),
            v => {
                let msg = cat3("`!` requires a `bool`, got `", v.kind_name(), "`");
                fail(p, codes::TYPE_MISMATCH, msg.as_str(), None)
            },
        },
    }
}

/// The keys of a dictionary.
pub open spec fn key_texts(es: Seq<(Seq<char>, ValueV)>) -> Seq<Seq<char>> {
    es.map_values(|e: (Seq<char>, ValueV)| e.0)
}

/// A field of a dictionary or of a caught error.
pub open spec fn field_of(p: PlaceV, v: ValueV, field: Seq<char>) -> OutV {
    match v {
        ValueV::Dict(es) => match key_place(es, field, 0) {
            Some(i) => OutV::Value(es[i].1),
            None => failed(
                p,
                codes::UNDEFINED@,
                "unknown field `"@ + field + "` (dict/struct has "@ + joined_by(
                    key_texts(es),
                    ", "@,
                    es.len() as int,
                ) + ")"@,
                Some("check the field name, or the struct definition"@),
            ),
        },
        ValueV::Error(e) => if field == "code"@ {
            OutV::Value(ValueV::Str(e.code))
        } else if field == "message"@ {
            OutV::Value(ValueV::Str(e.message))
        } else if field == "file"@ {
            OutV::Value(ValueV::Str(e.file))
        } else if field == "context"@ {
            OutV::Value(ValueV::Str(e.context))
        } else if field == "line"@ {
            OutV::Value(ValueV::Int(e.line as i64))
        } else if field == "col"@ {
            OutV::Value(ValueV::Int(e.col as i64))
        } else {
            failed(
                p,
                codes::UNDEFINED@,
                "unknown error field `"@ + field + "`"@,
                Some("error fields: code, message, file, line, col, context"@),
            )
        },
        v => failed(
            p,
            codes::TYPE_MISMATCH@,
            "field access `."@ + field + "` requires an `error` value, got `"@ + v.type_text() + "`"@,
            Some("only error values (catch variables) support field access"@),
        ),
    }
}

/// A field of a dictionary or of a caught error.
pub fn field(p: &Place, v: &Value, name: &str) -> (r: Out)
    ensures
        r@ == field_of(p@, v@, name@),
{
    match v {
        Value::Dict(es) => match find_key(es, name) {
            Some(i) => {
                assert(dict_v(es@)[i as int] == (es@[i as int].0@, es@[i as int].1@));
                Out::Value(es[i].1.dup())
            },
            None => {
                let mut keys: Vec<String> = Vec::new();
                let mut i: usize = 0;
                while i < es.len()
                    invariant
                        i <= es.len(),
                        keys.len() == i,
                        forall|k: int| 0 <= k < i ==> (#[trigger] keys@[k])@ == es@[k].0@,
                    decreases es.len() - i,
                {
                    keys.push(es[i].0.clone());
                    i = i + 1;
                }
                assert(strs(keys@) =~= key_texts(dict_v(es@)));
                let msg = cat5(
                    "unknown field `",
                    name,
                    "` (dict/struct has ",
                    join(&keys, ", ").as_str(),
                    ")",
                );
                fail(
                    p,
                    codes::UNDEFINED,
                    msg.as_str(),
                    Some("check the field name, or the struct definition"),
                )
            },
        },
        Value::Error(e) => {
            if eq(name, "code") {
                Out::Value(Value::Str(e.code.to_owned()))
            } else if eq(name, "message") {
                Out::Value(Value::Str(e.message.clone()))
            } else if eq(name, "file") {
                Out::Value(Value::Str(e.file.clone()))
            } else if eq(name, "context") {
                Out::Value(Value::Str(e.context.clone()))
            } else if eq(name, "line") {
                Out::Value(Value::Int(e.line as i64))
            } else if eq(name, "col") {
                Out::Value(Value::Int(e.col as i64))
            } else {
                let msg = cat3("unknown error field `", name, "`");
                fail(
                    p,
                    codes::UNDEFINED,
                    msg.as_str(),
                    Some("error fields: code, message, file, line, col, context"),
                )
            }
        },
        v => {
            let msg = cat5("field access `.", name, "` requires an `error` value, got `", v.kind_name(), "`");
            fail(
                p,
                codes::TYPE_MISMATCH,
                msg.as_str(),
                Some("only error values (catch variables) support field access"),
            )
        },
    }
}

/// The value of a variable that is declared without one.
pub open spec fn default_of(ty: TyName) -> ValueV {
    match ty {
        TyName::Int => ValueV::Int(0),
        TyName::Float => ValueV::Float(0),
        TyName::Bool => ValueV::Bool(false),
        TyName::Str => ValueV::Str(Seq::empty()),
    }
}

/// The value of a variable that is declared without one.
pub fn default_value(ty: TyName) -> (r: Value)
    ensures
        r@ == default_of(ty),
{
    match ty {
        TyName::Int => Value::Int(0),
        TyName::Float => Value::Float(0),
        TyName::Bool => Value::Bool(false),
        TyName::Str => {
            let s = String::new();
            assert(s@ =~= Seq::empty());
            Value::Str(s)
        },
    }
}

} // verus!
