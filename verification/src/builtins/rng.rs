//! Pseudo-random numbers and identifiers.

use vstd::prelude::*;

use crate::value::{hex_char, hex_digit};

verus! {

/// The multiplier that spreads a seed over all bits.
pub const SEED_MIX: u64 = 0x9E37_79B9_7F4A_7C15;

/// The multiplier of a step.
pub const STEP_MIX: u64 = 0x2545_F491_4F6C_DD1D;

/// The state that a seed gives: never zero.
pub open spec fn seeded(seed: u64) -> u64 {
    seed.wrapping_mul(SEED_MIX) | 1
}

/// The state behind a state, which is also the number drawn.
pub open spec fn stepped(x: u64) -> u64 {
    let a = x ^ (x >> 12);
    let b = a ^ (a << 25);
    let c = b ^ (b >> 27);
    c.wrapping_mul(STEP_MIX)
}

/// The generator: an xorshift with a multiplication at the end of each step.
pub struct Rng {
    pub state: u64,
}

/// The number in `min..=max` that a drawn number stands for: the draw's remainder by the
/// size of the range counts from `min`, and over the whole range of integers the draw's
/// bits are the number.
pub open spec fn in_range(draw: u64, min: int, max: int) -> int {
    let span = max - min + 1;
    if span == 0x1_0000_0000_0000_0000 {
        (draw as i64) as int
    } else {
        min + (draw as int) % span
    }
}

impl Rng {
    /// A generator from a seed.
    pub fn seed(seed: u64) -> (r: Rng)
        ensures
            r.state == seeded(seed),
            r.state != 0,
    {
        let s: u64 = seed.wrapping_mul(SEED_MIX) | 1;
        proof {
            let m = seed.wrapping_mul(SEED_MIX);
            assert(m | 1 != 0) by (bit_vector);
        }
        Rng { state: s }
    }

    /// Draws the next number.
    pub fn next_u64(&mut self) -> (r: u64)
        ensures
            r == stepped(old(self).state),
            final(self).state == r,
    {
        let x: u64 = self.state;
        let a: u64 = x ^ (x >> 12);
        let b: u64 = a ^ (a << 25);
        let c: u64 = b ^ (b >> 27);
        self.state = c.wrapping_mul(STEP_MIX);
        self.state
    }

    /// Draws an integer in `min..=max`.
    pub fn random_int(&mut self, min: i64, max: i64) -> (r: i64)
        requires
            min <= max,
        ensures
            final(self).state == stepped(old(self).state),
            r == in_range(final(self).state, min as int, max as int),
            min <= r <= max,
    {
        let draw: u64 = self.next_u64();
        let span: i128 = max as i128 - min as i128 + 1;
        if span == 0x1_0000_0000_0000_0000 {
            return draw as i64;
        }
        let off: i128 = draw as i128 % span;
        (min as i128 + off) as i64
    }

    /// Draws the fraction of a number in `0..1`, in units of two to the power of minus 53.
    pub fn random_unit(&mut self) -> (r: u64)
        ensures
            final(self).state == stepped(old(self).state),
            r == final(self).state >> 11,
            r < 0x20_0000_0000_0000,
    {
        let draw: u64 = self.next_u64();
        assert(draw >> 11 < 0x20_0000_0000_0000) by (bit_vector);
        draw >> 11
    }

    /// Draws a random identifier of version 4.
    pub fn uuid(&mut self) -> (r: String)
        ensures
            ({
                let hi = stepped(old(self).state);
                let lo = stepped(hi);
                final(self).state == lo && r@ == uuid_text(hi, lo)
            }),
    {
        let hi: u64 = self.next_u64();
        let lo: u64 = self.next_u64();
        let mut s = String::new();
        let mut k: u64 = 0;
        proof {
            assert(uuid_part(hi, lo, 0) =~= Seq::empty());
        }
        while k < 16
            invariant
                k <= 16,
                s@ == uuid_part(hi, lo, k as int),
            decreases 16 - k,
        {
            let b: u64 = uuid_byte(hi, lo, k);
            proof {
                lemma_uuid_bytes(hi, lo, k);
            }
            if k == 4 || k == 6 || k == 8 || k == 10 {
                s.push('-');
            }
            s.push(hex_char(b / 16));
            s.push(hex_char(b % 16));
            k = k + 1;
            assert(s@ =~= uuid_part(hi, lo, k as int));
        }
        s
    }
}

/// A byte of a number, the highest first.
pub open spec fn byte_of(x: u64, k: u64) -> u64 {
    (x >> ((56 - 8 * k) as u64)) & 0xff
}

/// A byte of an identifier: of the two draws, with the version in the seventh byte and
/// the variant in the ninth.
pub open spec fn uuid_byte_of(hi: u64, lo: u64, k: u64) -> u64 {
    if k == 6 {
        (byte_of(hi, 6) & 0x0f) | 0x40
    } else if k == 8 {
        (byte_of(lo, 0) & 0x3f) | 0x80
    } else if k < 8 {
        byte_of(hi, k)
    } else {
        byte_of(lo, (k - 8) as u64)
    }
}

fn uuid_byte(hi: u64, lo: u64, k: u64) -> (r: u64)
    requires
        k < 16,
    ensures
        r == uuid_byte_of(hi, lo, k),
{
    if k == 6 {
        (((hi >> 8) & 0xff) & 0x0f) | 0x40
    } else if k == 8 {
        (((lo >> 56) & 0xff) & 0x3f) | 0x80
    } else if k < 8 {
        (hi >> (56 - 8 * k)) & 0xff
    } else {
        (lo >> (56 - 8 * (k - 8))) & 0xff
    }
}

/// Every byte of an identifier is one.
proof fn lemma_uuid_bytes(hi: u64, lo: u64, k: u64)
    requires
        k < 16,
    ensures
        uuid_byte_of(hi, lo, k) < 256,
        k == 6 ==> uuid_byte_of(hi, lo, k) / 16 == 4,
        k == 8 ==> 8 <= uuid_byte_of(hi, lo, k) / 16 <= 11,
{
    let h = hi >> ((56 - 8 * k) as u64);
    let l = lo >> ((56 - 8 * (k - 8)) as u64);
    assert(h & 0xff < 256) by (bit_vector);
    assert(l & 0xff < 256) by (bit_vector);
    let b6 = byte_of(hi, 6);
    let b8 = byte_of(lo, 0);
    assert(((b6 & 0x0f) | 0x40) / 16 == 4) by (bit_vector);
    assert(8 <= ((b8 & 0x3f) | 0x80) / 16 <= 11) by (bit_vector);
}

/// The first `n` bytes of an identifier in hexadecimal digits, with the dashes.
pub open spec fn uuid_part(hi: u64, lo: u64, n: int) -> Seq<char>
    decreases n,
{
    if n <= 0 {
        Seq::empty()
    } else {
        let k = n - 1;
        let b = uuid_byte_of(hi, lo, k as u64);
        let dash: Seq<char> = if k == 4 || k == 6 || k == 8 || k == 10 { seq!['-'] } else { Seq::empty() };
        uuid_part(hi, lo, k) + dash + seq![hex_digit((b / 16) as nat), hex_digit((b % 16) as nat)]
    }
}

/// The text of an identifier made of two draws.
pub open spec fn uuid_text(hi: u64, lo: u64) -> Seq<char> {
    uuid_part(hi, lo, 16)
}

/// Every identifier has 36 characters, dashes in their four places, the version digit 4
/// and a variant digit from 8 to b.
#[verifier::rlimit(60)]
#[verifier::spinoff_prover]
pub proof fn law_uuid_shape(hi: u64, lo: u64)
    ensures
        uuid_text(hi, lo).len() == 36,
        uuid_text(hi, lo)[8] == '-',
        uuid_text(hi, lo)[13] == '-',
        uuid_text(hi, lo)[18] == '-',
        uuid_text(hi, lo)[23] == '-',
        uuid_text(hi, lo)[14] == '4',
        uuid_text(hi, lo)[19] == '8' || uuid_text(hi, lo)[19] == '9' || uuid_text(hi, lo)[19] == 'a'
            || uuid_text(hi, lo)[19] == 'b',
{
    lemma_uuid_bytes(hi, lo, 6);
    lemma_uuid_bytes(hi, lo, 8);
    reveal_with_fuel(uuid_part, 17);
}

} // verus!
