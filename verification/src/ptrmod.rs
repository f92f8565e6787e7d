//! Memory by address: blocks are noted down when they are handed out, and only noted
//! blocks can be read, written and given back.

use std::collections::HashMap;

use vstd::prelude::*;

use crate::builtins::world::{
    fail, failed, Out, OutV, Pending, PendingV, Place, PlaceV, Request, RequestV,
};
use crate::error::codes;
use crate::text::{cat3, cat4, cat5, dec, dec_i64, dec_usize, eq, idec};
use crate::value::{hex, hex_u64, values_v, Value, ValueV};

verus! {

broadcast use vstd::std_specs::hash::group_hash_axioms;

/// The error of an argument of the wrong type.
pub open spec fn not_a(p: PlaceV, what: Seq<char>, i: nat, v: ValueV, help: Option<Seq<char>>) -> OutV {
    failed(
        p,
        codes::TYPE_MISMATCH@,
        "`ptr.*` expects "@ + what + " for argument "@ + dec(i + 1) + ", got `"@ + v.type_text() + "`"@,
        help,
    )
}

fn wrong(p: &Place, what: &str, i: usize, v: &Value, help: Option<&str>) -> (r: Out)
    requires
        i < usize::MAX,
    ensures
        r@ == not_a(p@, what@, i as nat, v@, crate::error::opt_str(help)),
{
    let mut msg = cat4("`ptr.*` expects ", what, " for argument ", dec_usize(i + 1).as_str());
    msg.append(", got `");
    msg.append(v.kind_name());
    msg.append("`");
    fail(p, codes::TYPE_MISMATCH, msg.as_str(), help)
}

/// The integer at a place of the arguments.
pub open spec fn int_at(p: PlaceV, a: Seq<ValueV>, i: int) -> Result<i64, OutV> {
    match a[i] {
        ValueV::Int(n) => Ok(n),
        v => Err(not_a(p, "an integer"@, i as nat, v, None)),
    }
}

fn as_int(p: &Place, a: &Vec<Value>, i: usize) -> (r: Result<i64, Out>)
    requires
        i < a.len(),
    ensures
        match r {
            Ok(n) => int_at(p@, values_v(a@), i as int) == Ok::<i64, OutV>(n),
            Err(o) => int_at(p@, values_v(a@), i as int) == Err::<i64, OutV>(o@),
        },
{
    assert(values_v(a@)[i as int] == a@[i as int]@);
    match &a[i] {
        Value::Int(n) => Ok(*n),
        v => Err(wrong(p, "an integer", i, v, None)),
    }
}

/// The address at the start of the arguments: an address, or an integer that is not
/// negative.
pub open spec fn addr_at(p: PlaceV, a: Seq<ValueV>) -> Result<usize, OutV> {
    match a[0] {
        ValueV::Ptr(x) => Ok(x),
        ValueV::Int(n) if n >= 0 => Ok(n as usize),
        v => Err(
            not_a(
                p,
                "a `ptr`"@,
                0,
                v,
                Some("pass a `ptr` value (from ptr.alloc or an FFI call) or `0` for NULL"@),
            ),
        ),
    }
}

fn as_addr(p: &Place, a: &Vec<Value>) -> (r: Result<usize, Out>)
    requires
        a.len() >= 1,
    ensures
        match r {
            Ok(n) => addr_at(p@, values_v(a@)) == Ok::<usize, OutV>(n),
            Err(o) => addr_at(p@, values_v(a@)) == Err::<usize, OutV>(o@),
        },
{
    assert(values_v(a@)[0] == a@[0]@);
    match &a[0] {
        Value::Ptr(x) => Ok(*x),
        Value::Int(n) if *n >= 0 => Ok(*n as usize),
        v => Err(
            wrong(
                p,
                "a `ptr`",
                0,
                v,
                Some("pass a `ptr` value (from ptr.alloc or an FFI call) or `0` for NULL"),
            ),
        ),
    }
}

/// Whether `width` bytes at an offset of the block at an address may be touched: the
/// address is not null and of a noted block, and the bytes lie inside it.
pub open spec fn range_check(
    b: Map<usize, usize>,
    p: PlaceV,
    what: Seq<char>,
    addr: usize,
    width: usize,
    off: i64,
) -> Option<OutV> {
    if addr == 0 {
        Some(
            failed(
                p,
                codes::PTR_INVALID@,
                "`"@ + what + "`: cannot access a null pointer (0)"@,
                Some("check the pointer with `ptr.is_null` before dereferencing"@),
            ),
        )
    } else if off < 0 {
        Some(
            failed(
                p,
                if b.dom().contains(addr) {
                    codes::PTR_OOB@
                } else {
                    codes::PTR_INVALID@
                },
                "`"@ + what + "`: negative offset `"@ + idec(off as int) + "`"@,
                Some("offsets must be non-negative"@),
            ),
        )
    } else if !b.dom().contains(addr) {
        Some(
            failed(
                p,
                codes::PTR_INVALID@,
                "`"@ + what + "`: pointer 0x"@ + hex(addr as nat)
                    + " is not allocated by `ptr.alloc` (already freed, never allocated, or an external FFI handle)"@,
                Some("only pointers returned by `ptr.alloc` can be read/written/freed"@),
            ),
        )
    } else if off + width > usize::MAX {
        Some(failed(p, codes::PTR_OOB@, "`"@ + what + "`: offset overflow"@, None))
    } else if off + width > b[addr] {
        Some(
            failed(
                p,
                codes::PTR_OOB@,
                "`"@ + what + "`: out of bounds (block size "@ + dec(b[addr] as nat) + ", offset "@ + idec(
                    off as int,
                ) + " + "@ + dec(width as nat) + " bytes)"@,
                Some("check the offset against `ptr.size(p)`"@),
            ),
        )
    } else {
        None
    }
}

fn check_range(b: &HashMap<usize, usize>, p: &Place, what: &str, addr: usize, width: usize, off: i64) -> (r: Option<
    Out,
>)
    requires
        width <= 8,
    ensures
        match r {
            Some(o) => range_check(b@, p@, what@, addr, width, off) == Some(o@),
            None => range_check(b@, p@, what@, addr, width, off) is None,
        },
{
    if addr == 0 {
        let msg = cat3("`", what, "`: cannot access a null pointer (0)");
        return Some(
            fail(
                p,
                codes::PTR_INVALID,
                msg.as_str(),
                Some("check the pointer with `ptr.is_null` before dereferencing"),
            ),
        );
    }
    if off < 0 {
        let msg = cat5("`", what, "`: negative offset `", dec_i64(off).as_str(), "`");
        let code = if b.contains_key(&addr) {
            codes::PTR_OOB
        } else {
            codes::PTR_INVALID
        };
        return Some(fail(p, code, msg.as_str(), Some("offsets must be non-negative")));
    }
    let size: usize = match b.get(&addr) {
        Some(n) => *n,
        None => {
            let msg = cat5(
                "`",
                what,
                "`: pointer 0x",
                hex_u64(addr as u64).as_str(),
                " is not allocated by `ptr.alloc` (already freed, never allocated, or an external FFI handle)",
            );
            return Some(
                fail(
                    p,
                    codes::PTR_INVALID,
                    msg.as_str(),
                    Some("only pointers returned by `ptr.alloc` can be read/written/freed"),
                ),
            );
        },
    };
    let end: u128 = off as u128 + width as u128;
    if end > usize::MAX as u128 {
        let msg = cat3("`", what, "`: offset overflow");
        return Some(fail(p, codes::PTR_OOB, msg.as_str(), None));
    }
    if end > size as u128 {
        let mut msg = cat4("`", what, "`: out of bounds (block size ", dec_usize(size).as_str());
        msg.append(", offset ");
        msg.append(dec_i64(off).as_str());
        msg.append(" + ");
        msg.append(dec_usize(width).as_str());
        msg.append(" bytes)");
        return Some(
            fail(p, codes::PTR_OOB, msg.as_str(), Some("check the offset against `ptr.size(p)`")),
        );
    }
    None
}

/// How many arguments a function takes at least.
pub open spec fn ptr_least(name: Seq<char>) -> int {
    if name == "ptr.alloc"@ || name == "ptr.free"@ || name == "ptr.is_null"@ || name == "ptr.is_valid"@ || name
        == "ptr.size"@ {
        1
    } else if name == "ptr.read_int"@ || name == "ptr.read_float"@ || name == "ptr.read_byte"@ {
        2
    } else if name == "ptr.write_int"@ || name == "ptr.write_float"@ || name == "ptr.write_byte"@ {
        3
    } else {
        0
    }
}

/// Reading: what is asked for, where the bytes may be touched.
pub open spec fn read_fn(b: Map<usize, usize>, p: PlaceV, name: Seq<char>, a: Seq<ValueV>, width: usize, then: PendingV) -> OutV {
    match addr_at(p, a) {
        Err(o) => o,
        Ok(addr) => match int_at(p, a, 1) {
            Err(o) => o,
            Ok(off) => match range_check(b, p, name, addr, width, off) {
                Some(o) => o,
                None => OutV::Ask(RequestV::Peek(addr, off as usize, width), then),
            },
        },
    }
}

/// Writing: what is asked for, where the bytes may be touched.
pub open spec fn write_fn(b: Map<usize, usize>, p: PlaceV, name: Seq<char>, a: Seq<ValueV>) -> OutV {
    match addr_at(p, a) {
        Err(o) => o,
        Ok(addr) => match int_at(p, a, 1) {
            Err(o) => o,
            Ok(off) => if name == "ptr.write_float"@ {
                match a[2] {
                    ValueV::Float(x) => match range_check(b, p, name, addr, 8, off) {
                        Some(o) => o,
                        None => OutV::Ask(RequestV::Poke(addr, off as usize, 8, x), PendingV::Null),
                    },
                    ValueV::Int(n) => match range_check(b, p, name, addr, 8, off) {
                        Some(o) => o,
                        None => OutV::Ask(RequestV::FloatFromInt(n), PendingV::PokeFloat(addr, off as usize)),
                    },
                    v => not_a(p, "a float"@, 2, v, None),
                }
            } else {
                match int_at(p, a, 2) {
                    Err(o) => o,
                    Ok(n) => if name == "ptr.write_byte"@ {
                        if n < 0 || n > 255 {
                            failed(
                                p,
                                codes::PTR_INVALID@,
                                "`ptr.write_byte`: value "@ + idec(n as int) + " out of range 0..=255"@,
                                Some("bytes are unsigned 8-bit values"@),
                            )
                        } else {
                            match range_check(b, p, name, addr, 1, off) {
                                Some(o) => o,
                                None => OutV::Ask(RequestV::Poke(addr, off as usize, 1, n as u64), PendingV::Null),
                            }
                        }
                    } else {
                        match range_check(b, p, name, addr, 8, off) {
                            Some(o) => o,
                            None => OutV::Ask(RequestV::Poke(addr, off as usize, 8, n as u64), PendingV::Null),
                        }
                    },
                }
            },
        },
    }
}

/// The functions of memory: the noted blocks behind the call, and the outcome.
pub open spec fn ptr_fn(b: Map<usize, usize>, p: PlaceV, name: Seq<char>, a: Seq<ValueV>) -> (Map<usize, usize>, OutV) {
    if name == "ptr.alloc"@ {
        match int_at(p, a, 0) {
            Err(o) => (b, o),
            Ok(n) => if n <= 0 {
                (b, OutV::Value(ValueV::Ptr(0)))
            } else {
                (b, OutV::Ask(RequestV::Alloc(n as usize), PendingV::Alloc(n as usize)))
            },
        }
    } else if name == "ptr.free"@ {
        match addr_at(p, a) {
            Err(o) => (b, o),
            Ok(addr) => if b.dom().contains(addr) {
                (b.remove(addr), OutV::Ask(RequestV::Free(addr, b[addr]), PendingV::True))
            } else {
                (
                    b,
                    failed(
                        p,
                        codes::PTR_INVALID@,
                        if addr == 0 {
                            "`ptr.free`: freeing a null pointer (no-op)"@
                        } else {
                            "`ptr.free`: pointer 0x"@ + hex(addr as nat)
                                + " was not allocated by `ptr.alloc` (double free, or an external FFI handle)"@
                        },
                        Some(
                            "call `ptr.free` once per `ptr.alloc`; external FFI handles are owned by the library"@,
                        ),
                    ),
                )
            },
        }
    } else if name == "ptr.is_null"@ {
        match addr_at(p, a) {
            Err(o) => (b, o),
            Ok(addr) => (b, OutV::Value(ValueV::Bool(addr == 0))),
        }
    } else if name == "ptr.is_valid"@ {
        match addr_at(p, a) {
            Err(o) => (b, o),
            Ok(addr) => (b, OutV::Value(ValueV::Bool(addr != 0 && b.dom().contains(addr)))),
        }
    } else if name == "ptr.size"@ {
        match addr_at(p, a) {
            Err(o) => (b, o),
            Ok(addr) => if b.dom().contains(addr) {
                (b, OutV::Value(ValueV::Int(b[addr] as i64)))
            } else {
                (
                    b,
                    failed(
                        p,
                        codes::PTR_INVALID@,
                        "`ptr.size`: pointer 0x"@ + hex(addr as nat) + " is not allocated by `ptr.alloc`"@,
                        Some("only pointers returned by `ptr.alloc` have a tracked size"@),
                    ),
                )
            },
        }
    } else if name == "ptr.read_int"@ {
        (b, read_fn(b, p, name, a, 8, PendingV::PeekInt))
    } else if name == "ptr.read_float"@ {
        (b, read_fn(b, p, name, a, 8, PendingV::PeekFloat))
    } else if name == "ptr.read_byte"@ {
        (b, read_fn(b, p, name, a, 1, PendingV::PeekByte))
    } else if name == "ptr.write_int"@ || name == "ptr.write_float"@ || name == "ptr.write_byte"@ {
        (b, write_fn(b, p, name, a))
    } else {
        (b, failed(p, codes::NOT_IMPLEMENTED@, "unknown ptr function `"@ + name + "`"@, None))
    }
}

fn read_at(
    b: &HashMap<usize, usize>,
    p: &Place,
    name: &str,
    a: &Vec<Value>,
    width: usize,
    then: Pending,
) -> (r: Out)
    requires
        a.len() >= 2,
        width <= 8,
    ensures
        r@ == read_fn(b@, p@, name@, values_v(a@), width, then@),
{
    let addr: usize = match as_addr(p, a) {
        Err(o) => return o,
        Ok(x) => x,
    };
    let off: i64 = match as_int(p, a, 1) {
        Err(o) => return o,
        Ok(x) => x,
    };
    match check_range(b, p, name, addr, width, off) {
        Some(o) => o,
        None => Out::Ask(Request::Peek(addr, off as usize, width), then),
    }
}

fn write_at(b: &HashMap<usize, usize>, p: &Place, name: &str, a: &Vec<Value>) -> (r: Out)
    requires
        a.len() >= 3,
    ensures
        r@ == write_fn(b@, p@, name@, values_v(a@)),
{
    let addr: usize = match as_addr(p, a) {
        Err(o) => return o,
        Ok(x) => x,
    };
    let off: i64 = match as_int(p, a, 1) {
        Err(o) => return o,
        Ok(x) => x,
    };
    if eq(name, "ptr.write_float") {
        assert(values_v(a@)[2] == a@[2]@);
        return match &a[2] {
            Value::Float(x) => match check_range(b, p, name, addr, 8, off) {
                Some(o) => o,
                None => Out::Ask(Request::Poke(addr, off as usize, 8, *x), Pending::Null),
            },
            Value::Int(n) => match check_range(b, p, name, addr, 8, off) {
                Some(o) => o,
                None => Out::Ask(Request::FloatFromInt(*n), Pending::PokeFloat(addr, off as usize)),
            },
            v => wrong(p, "a float", 2, v, None),
        };
    }
    let n: i64 = match as_int(p, a, 2) {
        Err(o) => return o,
        Ok(x) => x,
    };
    if eq(name, "ptr.write_byte") {
        if n < 0 || n > 255 {
            let msg = cat3("`ptr.write_byte`: value ", dec_i64(n).as_str(), " out of range 0..=255");
            return fail(p, codes::PTR_INVALID, msg.as_str(), Some("bytes are unsigned 8-bit values"));
        }
        match check_range(b, p, name, addr, 1, off) {
            Some(o) => o,
            None => Out::Ask(Request::Poke(addr, off as usize, 1, n as u64), Pending::Null),
        }
    } else {
        match check_range(b, p, name, addr, 8, off) {
            Some(o) => o,
            None => Out::Ask(Request::Poke(addr, off as usize, 8, n as u64), Pending::Null),
        }
    }
}

fn free_at(b: &mut HashMap<usize, usize>, p: &Place, addr: usize) -> (r: Out)
    ensures
        ({
            let a = seq![ValueV::Ptr(addr)];
            (final(b)@, r@) == ptr_fn(old(b)@, p@, "ptr.free"@, a)
        }),
{
    proof {
        reveal_strlit("ptr.alloc");
        reveal_strlit("ptr.free");
        assert("ptr.alloc"@.len() != "ptr.free"@.len());
    }
    match b.remove(&addr) {
        Some(size) => Out::Ask(Request::Free(addr, size), Pending::True),
        None => {
            assert(b@ =~= old(b)@);
            let msg = if addr == 0 {
                "`ptr.free`: freeing a null pointer (no-op)".to_owned()
            } else {
                cat3(
                    "`ptr.free`: pointer 0x",
                    hex_u64(addr as u64).as_str(),
                    " was not allocated by `ptr.alloc` (double free, or an external FFI handle)",
                )
            };
            fail(
                p,
                codes::PTR_INVALID,
                msg.as_str(),
                Some("call `ptr.free` once per `ptr.alloc`; external FFI handles are owned by the library"),
            )
        },
    }
}

/// Calls a function of memory.
pub fn call(b: &mut HashMap<usize, usize>, p: &Place, name: &str, a: &Vec<Value>) -> (r: Out)
    requires
        a.len() >= ptr_least(name@),
    ensures
        (final(b)@, r@) == ptr_fn(old(b)@, p@, name@, values_v(a@)),
{
    if eq(name, "ptr.alloc") {
        match as_int(p, a, 0) {
            Err(o) => o,
            Ok(n) => {
                if n <= 0 {
                    Out::Value(Value::Ptr(0))
                } else {
                    Out::Ask(Request::Alloc(n as usize), Pending::Alloc(n as usize))
                }
            },
        }
    } else if eq(name, "ptr.free") {
        match as_addr(p, a) {
            Err(o) => o,
            Ok(addr) => free_at(b, p, addr),
        }
    } else if eq(name, "ptr.is_null") {
        match as_addr(p, a) {
            Err(o) => o,
            Ok(addr) => Out::Value(Value::Bool(addr == 0)),
        }
    } else if eq(name, "ptr.is_valid") {
        match as_addr(p, a) {
            Err(o) => o,
            Ok(addr) => Out::Value(Value::Bool(addr != 0 && b.contains_key(&addr))),
        }
    } else if eq(name, "ptr.size") {
        match as_addr(p, a) {
            Err(o) => o,
            Ok(addr) => match b.get(&addr) {
                Some(n) => Out::Value(Value::Int(*n as i64)),
                None => {
                    let msg = cat3(
                        "`ptr.size`: pointer 0x",
                        hex_u64(addr as u64).as_str(),
                        " is not allocated by `ptr.alloc`",
                    );
                    fail(
                        p,
                        codes::PTR_INVALID,
                        msg.as_str(),
                        Some("only pointers returned by `ptr.alloc` have a tracked size"),
                    )
                },
            },
        }
    } else if eq(name, "ptr.read_int") {
        read_at(b, p, name, a, 8, Pending::PeekInt)
    } else if eq(name, "ptr.read_float") {
        read_at(b, p, name, a, 8, Pending::PeekFloat)
    } else if eq(name, "ptr.read_byte") {
        read_at(b, p, name, a, 1, Pending::PeekByte)
    } else if eq(name, "ptr.write_int") || eq(name, "ptr.write_float") || eq(name, "ptr.write_byte") {
        write_at(b, p, name, a)
    } else {
        let msg = cat3("unknown ptr function `", name, "`");
        fail(p, codes::NOT_IMPLEMENTED, msg.as_str(), None)
    }
}

/// The noted blocks when a block was handed out at an address; nothing is noted for a
/// null address.
pub open spec fn noted(b: Map<usize, usize>, addr: usize, size: usize) -> Map<usize, usize> {
    if addr == 0 {
        b
    } else {
        b.insert(addr, size)
    }
}

/// Notes down a block that was handed out.
pub fn note(b: &mut HashMap<usize, usize>, addr: usize, size: usize)
    ensures
        final(b)@ == noted(old(b)@, addr, size),
{
    if addr != 0 {
        b.insert(addr, size);
    }
}

/// Bytes are read only inside a noted block.
pub proof fn law_reads_stay_inside(
    b: Map<usize, usize>,
    p: PlaceV,
    name: Seq<char>,
    a: Seq<ValueV>,
    width: usize,
    then: PendingV,
)
    ensures
        match read_fn(b, p, name, a, width, then) {
            OutV::Ask(RequestV::Peek(addr, off, n), _) => addr != 0 && b.dom().contains(addr) && n == width && off
                + n <= b[addr],
            OutV::Error(_) => true,
            _ => false,
        },
{
}

/// Bytes are written only inside a noted block.
pub proof fn law_writes_stay_inside(b: Map<usize, usize>, p: PlaceV, name: Seq<char>, a: Seq<ValueV>)
    ensures
        match write_fn(b, p, name, a) {
            OutV::Ask(RequestV::Poke(addr, off, n, _), PendingV::Null) => addr != 0 && b.dom().contains(addr) && off
                + n <= b[addr],
            OutV::Ask(RequestV::FloatFromInt(_), PendingV::PokeFloat(addr, off)) => addr != 0 && b.dom().contains(
                addr,
            ) && off + 8 <= b[addr],
            OutV::Error(_) => true,
            _ => false,
        },
{
}

/// A block that was given back can be neither read nor written nor given back again, and
/// the other blocks stay.
pub proof fn law_freed_is_gone(
    b: Map<usize, usize>,
    p: PlaceV,
    addr: usize,
    name: Seq<char>,
    a: Seq<ValueV>,
    width: usize,
    then: PendingV,
    other: usize,
)
    requires
        b.dom().contains(addr),
        a.len() > 0,
        a[0] == ValueV::Ptr(addr),
    ensures
        ({
            let (b2, o) = ptr_fn(b, p, "ptr.free"@, seq![ValueV::Ptr(addr)]);
            &&& o == OutV::Ask(RequestV::Free(addr, b[addr]), PendingV::True)
            &&& read_fn(b2, p, name, a, width, then) is Error
            &&& write_fn(b2, p, name, a) is Error
            &&& ptr_fn(b2, p, "ptr.free"@, seq![ValueV::Ptr(addr)]).1 is Error
            &&& other != addr ==> (b2.dom().contains(other) == b.dom().contains(other) && b2[other] == b[other])
        }),
{
    reveal_strlit("ptr.alloc");
    reveal_strlit("ptr.free");
    assert("ptr.alloc"@.len() != "ptr.free"@.len());
}

/// A block that was handed out can be given back, and its size is the one it was asked for.
pub proof fn law_noted(b: Map<usize, usize>, p: PlaceV, addr: usize, size: usize)
    requires
        addr != 0,
    ensures
        ({
            let b2 = noted(b, addr, size);
            &&& ptr_fn(b2, p, "ptr.free"@, seq![ValueV::Ptr(addr)]).1 == OutV::Ask(
                RequestV::Free(addr, size),
                PendingV::True,
            )
            &&& ptr_fn(b2, p, "ptr.size"@, seq![ValueV::Ptr(addr)]).1 == OutV::Value(ValueV::Int(size as i64))
        }),
{
    reveal_strlit("ptr.alloc");
    reveal_strlit("ptr.free");
    reveal_strlit("ptr.size");
    reveal_strlit("ptr.is_null");
    reveal_strlit("ptr.is_valid");
    assert("ptr.free"@[4] != "ptr.size"@[4]);
    assert("ptr.free"@.len() == 8 && "ptr.size"@.len() == 8);
}

} // verus!
