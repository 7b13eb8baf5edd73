//! Variable-length integers: 7 bits per byte, most significant group first,
//! the top bit of every byte but the last set.

use vstd::prelude::*;
use crate::stream::{Codec, Readable, Reader, StreamResult, Writable, Writer};

verus! {

/// An unsigned integer stored in one to four bytes (on reading) of 7 bits each.
#[derive(Debug, Copy, Clone, PartialEq, Eq, Structural, Hash)]
pub struct VariableLengthInt(pub u32);

/// Reading goes on from byte `i` with `acc` the value so far; it stops after
/// a byte without the top bit, or after the fourth byte whatever it holds.
pub open spec fn varint_from(bytes: Seq<u8>, i: nat, acc: nat) -> Option<(nat, int)>
    decreases 4 - i,
{
    if i >= 4 {
        Some((acc, 4))
    } else if bytes.len() <= i {
        None
    } else {
        let b = bytes[i as int];
        let acc2 = acc * 128 + (b % 128) as nat;
        if b < 128 {
            Some((acc2, (i + 1) as int))
        } else {
            varint_from(bytes, i + 1, acc2)
        }
    }
}

/// The groups above the lowest one, each byte with its top bit set.
pub open spec fn varint_high(v: nat) -> Seq<u8>
    decreases v,
{
    if v == 0 {
        Seq::empty()
    } else {
        varint_high(v / 128) + seq![((v % 128) + 128) as u8]
    }
}

/// The bytes written for `v`.
pub open spec fn varint_bytes(v: nat) -> Seq<u8> {
    varint_high(v / 128) + seq![(v % 128) as u8]
}

/// The largest value that the four bytes a reader takes can hold, plus one.
pub open spec fn varint_limit() -> nat {
    0x1000_0000
}

proof fn lemma_acc_bound(bytes: Seq<u8>, i: nat, acc: nat)
    requires
        i <= 4,
        i <= bytes.len(),
        acc < pow128(i),
    ensures
        varint_from(bytes, i, acc) matches Some((v, n)) ==> v < varint_limit() && 0 < n <= 4
            && n <= bytes.len(),
    decreases 4 - i,
{
    reveal_with_fuel(pow128, 5);
    if i < 4 && bytes.len() > i {
        let b = bytes[i as int];
        let acc2 = acc * 128 + (b % 128) as nat;
        assert(acc2 < pow128(i + 1)) by (nonlinear_arith)
            requires
                acc < pow128(i),
                pow128(i + 1) == 128 * pow128(i),
                acc2 == acc * 128 + (b % 128) as nat,
        ;
        if b >= 128 {
            lemma_acc_bound(bytes, i + 1, acc2);
        }
    }
}

/// 128 to the power `k`.
pub open spec fn pow128(k: nat) -> nat
    decreases k,
{
    if k == 0 {
        1
    } else {
        128 * pow128((k - 1) as nat)
    }
}

impl Readable for VariableLengthInt {
    open spec fn spec_read(bytes: Seq<u8>) -> Option<(VariableLengthInt, int)> {
        match varint_from(bytes, 0, 0) {
            Some((v, n)) => Some((VariableLengthInt(v as u32), n)),
            None => None,
        }
    }

    proof fn lemma_read_bounds(bytes: Seq<u8>) {
        lemma_acc_bound(bytes, 0, 0);
    }

    fn read(r: &mut Reader) -> (res: StreamResult<VariableLengthInt>) {
        let ghost start = *old(r);
        let ghost rest = old(r).rest();
        proof {
            lemma_acc_bound(rest, 0, 0);
            reveal_with_fuel(pow128, 5);
        }
        let _ = r.remaining();
        let mut val: u32 = 0;
        let mut i: usize = 0;
        while i < 4
            invariant
                0 <= i <= 4,
                val < pow128(i as nat),
                pow128(4) == 0x1000_0000,
                r.bytes() == start.bytes(),
                r.in_bounds(),
                r.position() == start.position() + i,
                r.rest() == rest.skip(i as int),
                i <= rest.len(),
                rest == start.rest(),
                start == *old(r),
                varint_from(rest, 0, 0) == varint_from(rest, i as nat, val as nat),
            decreases 4 - i,
        {
            let ghost before = *r;
            let raw = match u8::read(r) {
                Ok(b) => b,
                Err(e) => {
                    proof {
                        assert(rest.len() <= i);
                        assert(varint_from(rest, i as nat, val as nat) is None);
                    }
                    return Err(e);
                },
            };
            proof {
                reveal_with_fuel(crate::stream::le_value, 2);
                assert(before.rest() == rest.skip(i as int));
                assert(before.rest().take(1)[0] == rest[i as int]);
                assert(raw == rest[i as int]);
                assert(r.rest() =~= rest.skip(i + 1));
                assert(val * 128 + (raw % 128) < pow128((i + 1) as nat)) by (nonlinear_arith)
                    requires
                        val < pow128(i as nat),
                        pow128((i + 1) as nat) == 128 * pow128(i as nat),
                        raw % 128 < 128,
                ;
                lemma_pow128_bound((i + 1) as nat);
            }
            let ghost old_val = val;
            let ghost old_i = i;
            val = val * 128 + (raw % 128) as u32;
            i = i + 1;
            if raw < 128 {
                assert(varint_from(rest, old_i as nat, old_val as nat) == Some(
                    (val as nat, i as int),
                ));
                return Ok(VariableLengthInt(val));
            }
        }
        Ok(VariableLengthInt(val))
    }
}

proof fn lemma_pow128_bound(k: nat)
    requires
        k <= 4,
    ensures
        pow128(k) <= 0x1000_0000,
{
    reveal_with_fuel(pow128, 5);
}

fn write_high(w: &mut Writer, v: u32)
    ensures
        final(w).bytes() == old(w).bytes() + varint_high(v as nat),
    decreases v,
{
    if v > 0 {
        write_high(w, v / 128);
        let ghost mid = w.bytes();
        w.write_u8((v % 128 + 128) as u8);
        assert(w.bytes() =~= old(w).bytes() + varint_high(v as nat));
    } else {
        assert(w.bytes() =~= old(w).bytes() + varint_high(v as nat));
    }
}

impl Writable for VariableLengthInt {
    open spec fn spec_write(&self) -> Seq<u8> {
        varint_bytes(self.0 as nat)
    }

    /// Values from 2^28 on take five bytes, more than a reader takes, and
    /// the shifts that lay them out would overflow.
    open spec fn can_write(&self) -> bool {
        self.0 < varint_limit()
    }

    open spec fn spec_default() -> VariableLengthInt {
        VariableLengthInt(0)
    }

    fn write(&self, w: &mut Writer) {
        write_high(w, self.0 / 128);
        let ghost mid = w.bytes();
        w.write_u8((self.0 % 128) as u8);
        assert(w.bytes() =~= old(w).bytes() + varint_bytes(self.0 as nat));
    }

    fn default_value() -> (d: VariableLengthInt) {
        VariableLengthInt(0)
    }

    proof fn lemma_default_writable() {
    }
}

proof fn lemma_varint_one(x: nat, rest: Seq<u8>)
    requires
        x < 128,
    ensures
        varint_from(varint_bytes(x) + rest, 0, 0) == Some((x, varint_bytes(x).len() as int)),
{
    reveal_with_fuel(varint_high, 2);
    assert(varint_bytes(x) =~= seq![x as u8]);
    let b = varint_bytes(x) + rest;
    assert(b[0] == x);
}

proof fn lemma_varint_two(x: nat, rest: Seq<u8>)
    requires
        128 <= x < 0x4000,
    ensures
        varint_from(varint_bytes(x) + rest, 0, 0) == Some((x, varint_bytes(x).len() as int)),
{
    reveal_with_fuel(varint_high, 3);
    reveal_with_fuel(varint_from, 3);
    let g1 = x / 128;
    let g0 = x % 128;
    assert(g1 < 128 && g1 > 0);
    assert(varint_high(g1) =~= seq![(g1 + 128) as u8]);
    assert(varint_bytes(x) =~= seq![(g1 + 128) as u8, g0 as u8]);
    let b = varint_bytes(x) + rest;
    assert(b[0] == g1 + 128 && b[1] == g0);
    assert(x == g1 * 128 + g0);
}

proof fn lemma_varint_three(x: nat, rest: Seq<u8>)
    requires
        0x4000 <= x < 0x20_0000,
    ensures
        varint_from(varint_bytes(x) + rest, 0, 0) == Some((x, varint_bytes(x).len() as int)),
{
    reveal_with_fuel(varint_high, 4);
    reveal_with_fuel(varint_from, 4);
    let g2 = x / 0x4000;
    let g1 = (x / 128) % 128;
    let g0 = x % 128;
    assert((x / 128) / 128 == g2);
    assert(g2 < 128 && g2 > 0);
    assert(varint_high(x / 128) =~= seq![(g2 + 128) as u8, (g1 + 128) as u8]);
    assert(varint_bytes(x) =~= seq![(g2 + 128) as u8, (g1 + 128) as u8, g0 as u8]);
    let b = varint_bytes(x) + rest;
    assert(b[0] == g2 + 128 && b[1] == g1 + 128 && b[2] == g0);
    assert(x == (g2 * 128 + g1) * 128 + g0);
}

proof fn lemma_varint_four(x: nat, rest: Seq<u8>)
    requires
        0x20_0000 <= x < 0x1000_0000,
    ensures
        varint_from(varint_bytes(x) + rest, 0, 0) == Some((x, varint_bytes(x).len() as int)),
{
    reveal_with_fuel(varint_high, 5);
    reveal_with_fuel(varint_from, 5);
    let g3 = x / 0x20_0000;
    let g2 = (x / 0x4000) % 128;
    let g1 = (x / 128) % 128;
    let g0 = x % 128;
    assert((x / 128) / 128 == x / 0x4000);
    assert((x / 0x4000) / 128 == g3);
    assert(g3 < 128 && g3 > 0);
    assert(varint_high(x / 128) =~= seq![(g3 + 128) as u8, (g2 + 128) as u8, (g1 + 128) as u8]);
    assert(varint_bytes(x) =~= seq![
        (g3 + 128) as u8,
        (g2 + 128) as u8,
        (g1 + 128) as u8,
        g0 as u8,
    ]);
    let b = varint_bytes(x) + rest;
    assert(b[0] == g3 + 128 && b[1] == g2 + 128 && b[2] == g1 + 128 && b[3] == g0);
    assert(x == ((g3 * 128 + g2) * 128 + g1) * 128 + g0);
}

impl Codec for VariableLengthInt {
    proof fn lemma_roundtrip(v: VariableLengthInt, rest: Seq<u8>) {
        let x = v.0 as nat;
        if x < 128 {
            lemma_varint_one(x, rest);
        } else if x < 0x4000 {
            lemma_varint_two(x, rest);
        } else if x < 0x20_0000 {
            lemma_varint_three(x, rest);
        } else {
            lemma_varint_four(x, rest);
        }
    }
}

impl VariableLengthInt {
    pub fn to_usize(self) -> (n: usize)
        ensures
            n == self.0,
    {
        self.0 as usize
    }

    pub fn from_usize(val: usize) -> (v: Self)
        ensures
            v.0 == val as u32,
    {
        VariableLengthInt(val as u32)
    }
}

} // verus!
