//! Bit reversal (radical inversion / Van der Corput).
use vstd::prelude::*;
use crate::bits::{bit16, bit32};

verus! {

/// The bit-reversal of a 32-bit value, written as the swap of ever larger
/// neighbouring blocks (1, 2, 4, 8 and 16 bits). `lemma_reverse32_bits`
/// shows that bit `i` of the result is bit `31 - i` of the input.
pub open spec fn reverse32(v: u32) -> u32 {
    let a = ((v >> 1) & 0x5555_5555) | ((v & 0x5555_5555) << 1);
    let b = ((a >> 2) & 0x3333_3333) | ((a & 0x3333_3333) << 2);
    let c = ((b >> 4) & 0x0f0f_0f0f) | ((b & 0x0f0f_0f0f) << 4);
    let d = ((c >> 8) & 0x00ff_00ff) | ((c & 0x00ff_00ff) << 8);
    (d >> 16) | (d << 16)
}

/// The bit-reversal of a 16-bit value (swap of 1, 2, 4 and 8 bit blocks).
pub open spec fn reverse16(v: u16) -> u16 {
    let a = ((v >> 1) & 0x5555) | ((v & 0x5555) << 1);
    let b = ((a >> 2) & 0x3333) | ((a & 0x3333) << 2);
    let c = ((b >> 4) & 0x0f0f) | ((b & 0x0f0f) << 4);
    (c >> 8) | (c << 8)
}

/// Bit `i` of `reverse32(v)` is bit `31 - i` of `v`.
pub proof fn lemma_reverse32_bits(v: u32)
    ensures
        forall|i: u32| i < 32 ==> #[trigger] bit32(reverse32(v), i) == bit32(v, (31 - i) as u32),
{
    assert(forall|i: u32|
        i < 32 ==> ((reverse32(v) >> i) & 1 == 1) == ((v >> ((31 - i) as u32)) & 1 == 1))
        by (bit_vector);
}

/// Bit `i` of `reverse16(v)` is bit `15 - i` of `v`.
pub proof fn lemma_reverse16_bits(v: u16)
    ensures
        forall|i: u16| i < 16 ==> #[trigger] bit16(reverse16(v), i) == bit16(v, (15 - i) as u16),
{
    assert(forall|i: u16|
        i < 16 ==> ((reverse16(v) >> i) & 1 == 1) == ((v >> ((15 - i) as u16)) & 1 == 1))
        by (bit_vector);
}

/// Reversing twice gives the value back.
pub proof fn lemma_reverse32_involution(v: u32)
    ensures
        reverse32(reverse32(v)) == v,
{
    assert(reverse32(reverse32(v)) == v) by (bit_vector);
}

/// Reversing twice gives the value back.
pub proof fn lemma_reverse16_involution(v: u16)
    ensures
        reverse16(reverse16(v)) == v,
{
    assert(reverse16(reverse16(v)) == v) by (bit_vector);
}

/// Reverse the bits of a 32-bit unsigned integer.
pub fn reverse_bits32(value: u32) -> (r: u32)
    ensures
        r == reverse32(value),
        forall|i: u32| i < 32 ==> #[trigger] bit32(r, i) == bit32(value, (31 - i) as u32),
{
    let a = ((value >> 1) & 0x5555_5555) | ((value & 0x5555_5555) << 1);
    let b = ((a >> 2) & 0x3333_3333) | ((a & 0x3333_3333) << 2);
    let c = ((b >> 4) & 0x0f0f_0f0f) | ((b & 0x0f0f_0f0f) << 4);
    let d = ((c >> 8) & 0x00ff_00ff) | ((c & 0x00ff_00ff) << 8);
    let r = (d >> 16) | (d << 16);
    proof {
        lemma_reverse32_bits(value);
        assert forall|i: u32| i < 32 implies #[trigger] bit32(r, i) == bit32(value, (31 - i) as u32) by {
            assert(bit32(reverse32(value), i) == bit32(value, (31 - i) as u32));
        }
    }
    r
}

/// Reverse the bits of a 16-bit unsigned integer.
pub fn reverse_bits16(value: u16) -> (r: u16)
    ensures
        r == reverse16(value),
        forall|i: u16| i < 16 ==> #[trigger] bit16(r, i) == bit16(value, (15 - i) as u16),
{
    let a = ((value >> 1) & 0x5555) | ((value & 0x5555) << 1);
    let b = ((a >> 2) & 0x3333) | ((a & 0x3333) << 2);
    let c = ((b >> 4) & 0x0f0f) | ((b & 0x0f0f) << 4);
    let r = (c >> 8) | (c << 8);
    proof {
        lemma_reverse16_bits(value);
        assert forall|i: u16| i < 16 implies #[trigger] bit16(r, i) == bit16(value, (15 - i) as u16) by {
            assert(bit16(reverse16(value), i) == bit16(value, (15 - i) as u16));
        }
    }
    r
}

} // verus!
