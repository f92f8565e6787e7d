//! The bytes of blocks of memory: what is written into them and read from them.

use vstd::prelude::*;

use crate::builtins::world::{OutV, PendingV, PlaceV, ReplyV, RequestV};
use crate::builtins::{called, finished, lemma_peeked, lemma_ptr_called, WorldV};
use crate::bytes::{get_le, le, lemma_le, room, un_le};
use crate::ptrmod::{range_check, read_fn, write_fn};
use crate::value::ValueV;

verus! {

/// A block after the last `n` bytes of a number were written at an offset, the lowest first.
pub open spec fn written(block: Seq<u8>, off: int, n: nat, bits: u64) -> Seq<u8> {
    block.take(off) + le(bits as nat, n) + block.skip(off + n)
}

/// The number that the `n` bytes at an offset of a block stand for, the lowest first.
pub open spec fn held(block: Seq<u8>, off: int, n: nat) -> nat {
    un_le(block.subrange(off, off + n))
}

/// Writes the last `n` bytes of a number into a block.
pub fn write(block: &mut [u8], off: usize, n: usize, bits: u64)
    requires
        off + n <= old(block)@.len(),
    ensures
        final(block)@ == written(old(block)@, off as int, n as nat, bits),
{
    let ghost was = block@;
    let len: usize = block.len();
    let mut rest: u64 = bits;
    let mut i: usize = 0;
    while i < n
        invariant
            i <= n,
            off + n <= len,
            len == was.len(),
            block@.len() == was.len(),
            block@.take(off + i) + le(rest as nat, (n - i) as nat) =~= was.take(off as int) + le(bits as nat, n as nat),
            forall|j: int| off + i <= j < was.len() ==> #[trigger] block@[j] == was[j],
        decreases n - i,
    {
        let ghost before = block@;
        let b: u8 = (rest % 256) as u8;
        block[off + i] = b;
        rest = rest / 256;
        i = i + 1;
        assert(block@.take(off + i) =~= before.take(off + i - 1).push(b));
    }
    assert(block@ =~= block@.take(off + n) + was.skip(off + n));
}

/// Reads `n` bytes of a block as a number.
pub fn read(block: &[u8], off: usize, n: usize) -> (r: u64)
    requires
        off + n <= block.len(),
        n <= 8,
    ensures
        r == held(block@, off as int, n as nat),
{
    get_le(block, off, n)
}

/// The blocks of memory and the answer after a request.
pub open spec fn answered(mem: Map<usize, Seq<u8>>, q: RequestV) -> (Map<usize, Seq<u8>>, ReplyV) {
    match q {
        RequestV::Peek(a, off, n) => (mem, ReplyV::Bits(held(mem[a], off as int, n as nat) as u64)),
        RequestV::Poke(a, off, n, bits) => (
            mem.insert(a, written(mem[a], off as int, n as nat, bits)),
            ReplyV::Done,
        ),
        _ => (mem, ReplyV::Done),
    }
}

/// Whether the noted blocks are there, of the noted sizes.
pub open spec fn there(mem: Map<usize, Seq<u8>>, noted: Map<usize, usize>) -> bool {
    forall|a: usize| #[trigger] noted.dom().contains(a) ==> mem.dom().contains(a) && mem[a].len() == noted[a]
}

/// Whether all memory stays but for `n` bytes at an offset of a block.
pub open spec fn kept(old_mem: Map<usize, Seq<u8>>, mem: Map<usize, Seq<u8>>, addr: usize, off: int, n: int) -> bool {
    &&& mem.dom() == old_mem.dom()
    &&& forall|a: usize| a != addr ==> #[trigger] mem[a] == old_mem[a]
    &&& mem[addr].len() == old_mem[addr].len()
    &&& forall|j: int| 0 <= j < mem[addr].len() && !(off <= j < off + n) ==> #[trigger] mem[addr][j] == old_mem[addr][j]
}

proof fn lemma_written(block: Seq<u8>, off: int, n: nat, bits: u64)
    requires
        0 <= off,
        off + n <= block.len(),
        bits < room(n),
    ensures
        written(block, off, n, bits).len() == block.len(),
        held(written(block, off, n, bits), off, n) == bits,
        forall|j: int|
            0 <= j < block.len() && !(off <= j < off + n) ==> #[trigger] written(block, off, n, bits)[j] == block[j],
{
    lemma_le(bits as nat, n);
    assert(written(block, off, n, bits).subrange(off, off + n) =~= le(bits as nat, n));
}

/// A write changes its own bytes alone, and the read of them gives its number.
proof fn lemma_poke(mem: Map<usize, Seq<u8>>, noted: Map<usize, usize>, addr: usize, off: usize, n: usize, bits: u64)
    requires
        there(mem, noted),
        noted.dom().contains(addr),
        off + n <= noted[addr],
        bits < room(n as nat),
    ensures
        ({
            let mem2 = answered(mem, RequestV::Poke(addr, off, n, bits)).0;
            &&& there(mem2, noted)
            &&& kept(mem, mem2, addr, off as int, n as int)
            &&& answered(mem2, RequestV::Peek(addr, off, n)) == (mem2, ReplyV::Bits(bits))
        }),
{
    let mem2 = answered(mem, RequestV::Poke(addr, off, n, bits)).0;
    lemma_written(mem[addr], off as int, n as nat, bits);
    assert(mem2.dom() =~= mem.dom());
}

/// Whether `n` bytes at an offset lie inside a noted block.
pub open spec fn inside(noted: Map<usize, usize>, addr: usize, off: i64, n: int) -> bool {
    addr != 0 && noted.dom().contains(addr) && 0 <= off && off + n <= noted[addr]
}

/// Whether a write is granted, what it asks for is done by touching these bytes alone, and the read of the
/// same bytes then gives a value back.
pub open spec fn holds_back(
    w: WorldV,
    p: PlaceV,
    mem: Map<usize, Seq<u8>>,
    write: OutV,
    read: OutV,
    addr: usize,
    off: i64,
    n: int,
    v: ValueV,
) -> bool {
    write matches OutV::Ask(q, PendingV::Null) && {
        let mem2 = answered(mem, q).0;
        &&& there(mem2, w.blocks)
        &&& kept(mem, mem2, addr, off as int, n)
        &&& read matches OutV::Ask(r, then) && finished(w, p, then, answered(mem2, r).1) == (w, OutV::Value(v))
    }
}

/// What is written into a noted block is read back from it: an integer, a byte and a
/// floating-point number. All other bytes of the block, all other blocks and the sizes of the
/// blocks stay as they were.
pub proof fn law_memory_reads_back(
    w: WorldV,
    p: PlaceV,
    mem: Map<usize, Seq<u8>>,
    addr: usize,
    off: i64,
    n: i64,
    x: u64,
)
    requires
        there(mem, w.blocks),
    ensures
        ({
            let at = seq![ValueV::Ptr(addr), ValueV::Int(off)];
            &&& inside(w.blocks, addr, off, 8) ==> holds_back(
                w,
                p,
                mem,
                called(w, p, "ptr.write_int"@, at.push(ValueV::Int(n))).1,
                called(w, p, "ptr.read_int"@, at).1,
                addr,
                off,
                8,
                ValueV::Int(n),
            )
            &&& inside(w.blocks, addr, off, 1) && 0 <= n < 256 ==> holds_back(
                w,
                p,
                mem,
                called(w, p, "ptr.write_byte"@, at.push(ValueV::Int(n))).1,
                called(w, p, "ptr.read_byte"@, at).1,
                addr,
                off,
                1,
                ValueV::Int(n),
            )
            &&& inside(w.blocks, addr, off, 8) ==> holds_back(
                w,
                p,
                mem,
                called(w, p, "ptr.write_float"@, at.push(ValueV::Float(x))).1,
                called(w, p, "ptr.read_float"@, at).1,
                addr,
                off,
                8,
                ValueV::Float(x),
            )
            &&& called(w, p, "ptr.write_int"@, at.push(ValueV::Int(n))).0 == w
            &&& called(w, p, "ptr.write_byte"@, at.push(ValueV::Int(n))).0 == w
            &&& called(w, p, "ptr.write_float"@, at.push(ValueV::Float(x))).0 == w
        }),
{
    let at = seq![ValueV::Ptr(addr), ValueV::Int(off)];
    lemma_names(w, p, at);
    lemma_names(w, p, at.push(ValueV::Int(n)));
    lemma_names(w, p, at.push(ValueV::Float(x)));
    lemma_peeked(w, p, n as u64);
    lemma_peeked(w, p, x);
    assert((n as u64) as i64 == n) by (bit_vector);
    let b = w.blocks;
    assert(room(8) == 0x10000000000000000 && room(1) == 256) by {
        reveal_with_fuel(room, 9);
    }
    assert(at.push(ValueV::Int(n))[0] == at[0] && at.push(ValueV::Int(n))[1] == at[1] && at.push(ValueV::Int(n))[2]
        == ValueV::Int(n));
    assert(at.push(ValueV::Float(x))[0] == at[0] && at.push(ValueV::Float(x))[1] == at[1] && at.push(
        ValueV::Float(x),
    )[2] == ValueV::Float(x));
    if range_check(b, p, "ptr.write_int"@, addr, 8, off) is None {
        assert(write_fn(b, p, "ptr.write_int"@, at.push(ValueV::Int(n))) == OutV::Ask(
            RequestV::Poke(addr, off as usize, 8, n as u64),
            PendingV::Null,
        ));
        lemma_poke(mem, b, addr, off as usize, 8, n as u64);
    }
    if range_check(b, p, "ptr.write_byte"@, addr, 1, off) is None && 0 <= n < 256 {
        lemma_poke(mem, b, addr, off as usize, 1, n as u64);
    }
    if range_check(b, p, "ptr.write_float"@, addr, 8, off) is None {
        lemma_poke(mem, b, addr, off as usize, 8, x);
    }
}

/// What the functions that read and write come to.
proof fn lemma_names(w: WorldV, p: PlaceV, a: Seq<ValueV>)
    requires
        a.len() >= 2,
    ensures
        !("ptr.write_int"@ =~= "ptr.write_float"@),
        !("ptr.write_int"@ =~= "ptr.write_byte"@),
        !("ptr.write_byte"@ =~= "ptr.write_float"@),
        a.len() >= 3 ==> called(w, p, "ptr.write_int"@, a) == (w, write_fn(w.blocks, p, "ptr.write_int"@, a)),
        a.len() >= 3 ==> called(w, p, "ptr.write_byte"@, a) == (w, write_fn(w.blocks, p, "ptr.write_byte"@, a)),
        a.len() >= 3 ==> called(w, p, "ptr.write_float"@, a) == (w, write_fn(w.blocks, p, "ptr.write_float"@, a)),
        called(w, p, "ptr.read_int"@, a) == (w, read_fn(w.blocks, p, "ptr.read_int"@, a, 8, PendingV::PeekInt)),
        called(w, p, "ptr.read_byte"@, a) == (w, read_fn(w.blocks, p, "ptr.read_byte"@, a, 1, PendingV::PeekByte)),
        called(w, p, "ptr.read_float"@, a) == (w, read_fn(w.blocks, p, "ptr.read_float"@, a, 8, PendingV::PeekFloat)),
{
    reveal_strlit("ptr.alloc");
    reveal_strlit("ptr.free");
    reveal_strlit("ptr.size");
    reveal_strlit("ptr.is_null");
    reveal_strlit("ptr.is_valid");
    reveal_strlit("ptr.write_int");
    reveal_strlit("ptr.write_byte");
    reveal_strlit("ptr.write_float");
    reveal_strlit("ptr.read_int");
    reveal_strlit("ptr.read_byte");
    reveal_strlit("ptr.read_float");
    let sizes = ("ptr.alloc"@.len(), "ptr.free"@.len(), "ptr.size"@.len(), "ptr.is_null"@.len(), "ptr.is_valid"@.len());
    assert(sizes == (9nat, 8nat, 8nat, 11nat, 12nat));
    assert("ptr.write_int"@.len() == 13);
    assert("ptr.write_byte"@.len() == 14);
    assert("ptr.write_float"@.len() == 15);
    assert("ptr.read_int"@.len() == 12);
    assert("ptr.read_byte"@.len() == 13);
    assert("ptr.read_float"@.len() == 14);
    assert("ptr.read_int"@[4] != "ptr.is_valid"@[4]);
    assert("ptr.write_int"@[4] != "ptr.read_byte"@[4]);
    assert("ptr.write_byte"@[4] != "ptr.read_float"@[4]);
    lemma_ptr_called(w, p, "ptr.read_int"@, a);
    lemma_ptr_called(w, p, "ptr.read_byte"@, a);
    lemma_ptr_called(w, p, "ptr.read_float"@, a);
    if a.len() >= 3 {
        lemma_ptr_called(w, p, "ptr.write_int"@, a);
        lemma_ptr_called(w, p, "ptr.write_byte"@, a);
        lemma_ptr_called(w, p, "ptr.write_float"@, a);
    }
}

} // verus!
