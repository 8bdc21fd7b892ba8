//! Owen-scrambled Sobol sequences through Brent Burley's hash-based
//! construction ("Practical Hash-based Owen Scrambling").
//!
//! The Sobol value of a (bit-reversed) index is a GF(2) matrix-vector product:
//! the XOR, over the set bits `k` of the index, of the direction vectors
//! `DIRECTIONS[dim][k]`. Dimension 0 reduces to a 16-bit bit reversal.
use vstd::prelude::*;
use crate::permute::{
    laine_karras, laine_karras_permutation, reverse_and_shuffle, lemma_laine_karras_low_bits,
    lemma_laine_karras_injective, lemma_reverse_block_low_agree,
};
use crate::bits::{
    agree_low, mask64, stratum, lemma_agree_mask, lemma_agree_zero, lemma_injective_reaches_all,
};
use crate::reverse::lemma_reverse32_involution;
use vstd::arithmetic::power2::{pow2, lemma2_to64};
use crate::reverse::{reverse16, reverse32, reverse_bits16, reverse_bits32};
use crate::rotate::{rotate_right32, byte_distance, rotate_bytes};

verus! {

/// Sobol direction vectors for dimensions 0..4, 16-bit precision (from Leonhard
/// Gruenschloss's generator).
pub const DIRECTIONS: [[u16; 16]; 4] = [
    [
        0b1000000000000000, 0b0100000000000000, 0b0010000000000000, 0b0001000000000000,
        0b0000100000000000, 0b0000010000000000, 0b0000001000000000, 0b0000000100000000,
        0b0000000010000000, 0b0000000001000000, 0b0000000000100000, 0b0000000000010000,
        0b0000000000001000, 0b0000000000000100, 0b0000000000000010, 0b0000000000000001,
    ],
    [
        0b1111111111111111, 0b0101010101010101, 0b0011001100110011, 0b0001000100010001,
        0b0000111100001111, 0b0000010100000101, 0b0000001100000011, 0b0000000100000001,
        0b0000000011111111, 0b0000000001010101, 0b0000000000110011, 0b0000000000010001,
        0b0000000000001111, 0b0000000000000101, 0b0000000000000011, 0b0000000000000001,
    ],
    [
        0b1010101000001001, 0b0111011100000110, 0b0011100100000011, 0b0001011000000001,
        0b0000100110101010, 0b0000011001110111, 0b0000001100111001, 0b0000000100010110,
        0b0000000010100011, 0b0000000001110001, 0b0000000000111010, 0b0000000000010111,
        0b0000000000001001, 0b0000000000000110, 0b0000000000000011, 0b0000000000000001,
    ],
    [
        0b1010000011000011, 0b0100000001000001, 0b0011000000101101, 0b0001000000011110,
        0b0000101101100111, 0b0000011110011010, 0b0000001010100100, 0b0000000100011011,
        0b0000000011001001, 0b0000000001000101, 0b0000000000101110, 0b0000000000011111,
        0b0000000000001010, 0b0000000000000100, 0b0000000000000011, 0b0000000000000001,
    ],
];

/// Whether bit `k` of a 16-bit index is set.
pub open spec fn index_bit(index: u16, k: u16) -> bool {
    index & (1u16 << k) != 0
}

/// The XOR of the direction vectors `DIRECTIONS[dimension][j]` over the set
/// bits `j < k` of `index`.
pub open spec fn sobol_partial(index: u16, dimension: int, k: nat) -> u16
    decreases k,
{
    if k == 0 {
        0
    } else {
        let prev = sobol_partial(index, dimension, (k - 1) as nat);
        if index_bit(index, (k - 1) as u16) {
            prev ^ DIRECTIONS[dimension][k - 1]
        } else {
            prev
        }
    }
}

/// The Sobol value at a bit-reversed index: the matrix-vector product over all
/// 16 bits.
pub open spec fn sobol_matrix(index: u16, dimension: int) -> u16 {
    sobol_partial(index, dimension, 16)
}

/// One step of the dimension-0 product: adding bit `k` of the index to the
/// reversal of its low `k` bits gives the reversal of its low `k + 1` bits.
proof fn lemma_reverse16_step(index: u16, k: u16)
    requires
        k < 16,
    ensures
        (if index_bit(index, k) {
            reverse16(index & (((1u32 << k) - 1) as u16)) ^ (1u16 << ((15 - k) as u16))
        } else {
            reverse16(index & (((1u32 << k) - 1) as u16))
        }) == reverse16(index & (((1u32 << ((k + 1) as u16)) - 1) as u16)),
        index & (((1u32 << 16u16) - 1) as u16) == index,
        index & (((1u32 << 0u16) - 1) as u16) == 0,
        reverse16(0) == 0,
{
    assert((if index & (1u16 << k) != 0 {
        reverse16(index & (((1u32 << k) - 1) as u16)) ^ (1u16 << ((15 - k) as u16))
    } else {
        reverse16(index & (((1u32 << k) - 1) as u16))
    }) == reverse16(index & (((1u32 << ((k + 1) as u16)) - 1) as u16))
        && index & (((1u32 << 16u16) - 1) as u16) == index
        && index & (((1u32 << 0u16) - 1) as u16) == 0 && reverse16(0) == 0) by (bit_vector)
        requires
            k < 16,
    ;
}

/// The single-bit words `1 << k` of 16 bits.
pub proof fn lemma_single_bits16()
    ensures
        (1u16 << 0u16) == 0x0001u16,
        (1u16 << 1u16) == 0x0002u16,
        (1u16 << 2u16) == 0x0004u16,
        (1u16 << 3u16) == 0x0008u16,
        (1u16 << 4u16) == 0x0010u16,
        (1u16 << 5u16) == 0x0020u16,
        (1u16 << 6u16) == 0x0040u16,
        (1u16 << 7u16) == 0x0080u16,
        (1u16 << 8u16) == 0x0100u16,
        (1u16 << 9u16) == 0x0200u16,
        (1u16 << 10u16) == 0x0400u16,
        (1u16 << 11u16) == 0x0800u16,
        (1u16 << 12u16) == 0x1000u16,
        (1u16 << 13u16) == 0x2000u16,
        (1u16 << 14u16) == 0x4000u16,
        (1u16 << 15u16) == 0x8000u16,
{
    assert((1u16 << 0u16) == 0x0001u16
        && (1u16 << 1u16) == 0x0002u16
        && (1u16 << 2u16) == 0x0004u16
        && (1u16 << 3u16) == 0x0008u16
        && (1u16 << 4u16) == 0x0010u16
        && (1u16 << 5u16) == 0x0020u16
        && (1u16 << 6u16) == 0x0040u16
        && (1u16 << 7u16) == 0x0080u16
        && (1u16 << 8u16) == 0x0100u16
        && (1u16 << 9u16) == 0x0200u16
        && (1u16 << 10u16) == 0x0400u16
        && (1u16 << 11u16) == 0x0800u16
        && (1u16 << 12u16) == 0x1000u16
        && (1u16 << 13u16) == 0x2000u16
        && (1u16 << 14u16) == 0x4000u16
        && (1u16 << 15u16) == 0x8000u16) by (bit_vector);
}

/// The direction vectors of dimension 0 are the single bits `1 << (15 - k)`.
proof fn lemma_directions0(k: int)
    requires
        0 <= k < 16,
    ensures
        DIRECTIONS[0][k] == (1u16 << ((15 - k) as u16)),
{
    lemma_single_bits16();
}

/// For dimension 0 the product over the low `k` bits is the reversal of the
/// low `k` bits of the index.
proof fn lemma_sobol_partial_dim0(index: u16, k: nat)
    requires
        k <= 16,
    ensures
        sobol_partial(index, 0, k) == reverse16(index & (((1u32 << (k as u16)) - 1) as u16)),
    decreases k,
{
    if k == 0 {
        lemma_reverse16_step(index, 0);
    } else {
        lemma_sobol_partial_dim0(index, (k - 1) as nat);
        lemma_directions0(k - 1);
        lemma_reverse16_step(index, (k - 1) as u16);
    }
}

/// Dimension 0 of the Sobol sequence is the radical inverse: its matrix
/// product is the 16-bit bit reversal.
pub proof fn lemma_sobol_dim0_is_reversal(index: u16)
    ensures
        sobol_matrix(index, 0) == reverse16(index),
{
    lemma_sobol_partial_dim0(index, 16);
    lemma_reverse16_step(index, 0);
}

/// Sobol value at a bit-reversed index for a given dimension (0..4), 16-bit.
pub fn sobol_reversed_index(index: u16, dimension: usize) -> (r: u16)
    requires
        dimension <= 3,
    ensures
        r == sobol_matrix(index, dimension as int),
{
    if dimension == 0 {
        // The loop below gives the same result (see
        // `lemma_sobol_dim0_is_reversal`); the reversal is the fast path.
        proof {
            lemma_sobol_dim0_is_reversal(index);
        }
        return reverse_bits16(index);
    }
    let matrix: [u16; 16] = DIRECTIONS[dimension];
    let mut bits: u16 = 0;
    let mut k: u16 = 0;
    while k < 16
        invariant
            k <= 16,
            dimension <= 3,
            matrix == DIRECTIONS[dimension as int],
            bits == sobol_partial(index, dimension as int, k as nat),
        decreases 16 - k,
    {
        if index & (1 << k) != 0 {
            bits = bits ^ matrix[k as usize];
        }
        k += 1;
    }
    bits
}

/// The dimension-1 product written out: the XOR of the direction vectors of
/// dimension 1 over the set bits of `index`, taken from bit 0 up.
pub open spec fn sobol_dim1(index: u16) -> u16 {
    let p0 = if index & 0x0001 != 0 { 0u16 ^ 0xffff } else { 0u16 };
    let p1 = if index & 0x0002 != 0 { p0 ^ 0x5555 } else { p0 };
    let p2 = if index & 0x0004 != 0 { p1 ^ 0x3333 } else { p1 };
    let p3 = if index & 0x0008 != 0 { p2 ^ 0x1111 } else { p2 };
    let p4 = if index & 0x0010 != 0 { p3 ^ 0x0f0f } else { p3 };
    let p5 = if index & 0x0020 != 0 { p4 ^ 0x0505 } else { p4 };
    let p6 = if index & 0x0040 != 0 { p5 ^ 0x0303 } else { p5 };
    let p7 = if index & 0x0080 != 0 { p6 ^ 0x0101 } else { p6 };
    let p8 = if index & 0x0100 != 0 { p7 ^ 0x00ff } else { p7 };
    let p9 = if index & 0x0200 != 0 { p8 ^ 0x0055 } else { p8 };
    let p10 = if index & 0x0400 != 0 { p9 ^ 0x0033 } else { p9 };
    let p11 = if index & 0x0800 != 0 { p10 ^ 0x0011 } else { p10 };
    let p12 = if index & 0x1000 != 0 { p11 ^ 0x000f } else { p11 };
    let p13 = if index & 0x2000 != 0 { p12 ^ 0x0005 } else { p12 };
    let p14 = if index & 0x4000 != 0 { p13 ^ 0x0003 } else { p13 };
    let p15 = if index & 0x8000 != 0 { p14 ^ 0x0001 } else { p14 };
    p15
}

/// The first two Sobol dimensions have the (0,2) property over 16 bits: a
/// nonzero difference `delta` of bit-reversed indices that is zero in its low
/// `16 - (a + b)` bits moves the dimension-0 value in its low `a` bits or the
/// dimension-1 value in its low `b` bits.
proof fn lemma_sobol_pair_core(delta: u16, a: u16, b: u16)
    requires
        a + b <= 16,
        delta != 0,
        delta & (((1u32 << ((16 - a - b) as u16)) - 1) as u16) == 0,
    ensures
        (reverse16(delta) & (((1u32 << a) - 1) as u16)) != 0
            || (sobol_dim1(delta) & (((1u32 << b) - 1) as u16)) != 0,
{
    assert((reverse16(delta) & (((1u32 << a) - 1) as u16)) != 0
        || (sobol_dim1(delta) & (((1u32 << b) - 1) as u16)) != 0) by (bit_vector)
        requires
            a + b <= 16,
            delta != 0,
            delta & (((1u32 << ((16 - a - b) as u16)) - 1) as u16) == 0,
    ;
}

/// The dimension-1 product is the written-out XOR.
proof fn lemma_sobol_dim1_closed(index: u16)
    ensures
        sobol_matrix(index, 1) == sobol_dim1(index),
{
    lemma_single_bits16();
    reveal_with_fuel(sobol_partial, 17);
}

/// The bit reversal is linear over GF(2).
proof fn lemma_reverse16_linear(p: u16, q: u16)
    ensures
        reverse16(p) ^ reverse16(q) == reverse16(p ^ q),
{
    assert(reverse16(p) ^ reverse16(q) == reverse16(p ^ q)) by (bit_vector);
}

/// One step of the product is linear over GF(2).
pub proof fn lemma_partial_step_linear(p: u16, q: u16, k: u16, pp: u16, pq: u16, c: u16)
    requires
        k < 16,
    ensures
        (if index_bit(p, k) { pp ^ c } else { pp }) ^ (if index_bit(q, k) { pq ^ c } else { pq })
            == (if index_bit(p ^ q, k) { (pp ^ pq) ^ c } else { pp ^ pq }),
        0u16 ^ 0u16 == 0u16,
{
    assert((if p & (1u16 << k) != 0 { pp ^ c } else { pp }) ^ (if q & (1u16 << k) != 0 { pq ^ c } else { pq })
        == (if (p ^ q) & (1u16 << k) != 0 { (pp ^ pq) ^ c } else { pp ^ pq }) && 0u16 ^ 0u16 == 0u16)
        by (bit_vector)
        requires
            k < 16,
    ;
}

/// The Sobol product is linear over GF(2): the product of an exclusive-or is
/// the exclusive-or of the products.
pub proof fn lemma_sobol_partial_linear(p: u16, q: u16, dimension: int, k: nat)
    requires
        k <= 16,
    ensures
        sobol_partial(p, dimension, k) ^ sobol_partial(q, dimension, k) == sobol_partial(p ^ q, dimension, k),
    decreases k,
{
    if k == 0 {
        lemma_partial_step_linear(p, q, 0, 0, 0, 0);
    } else {
        lemma_sobol_partial_linear(p, q, dimension, (k - 1) as nat);
        lemma_partial_step_linear(
            p,
            q,
            (k - 1) as u16,
            sobol_partial(p, dimension, (k - 1) as nat),
            sobol_partial(q, dimension, (k - 1) as nat),
            DIRECTIONS[dimension][k - 1],
        );
    }
}

/// Shuffled indices that agree in their low `32 - m` bits and differ have
/// bit-reversed Sobol indices (their top 16 bits) that differ, with a
/// difference that is zero in its low `16 - m` bits.
proof fn lemma_shuffled_prefix_difference(ti: u32, tj: u32, m: u64)
    requires
        m <= 16,
        ti != tj,
        (ti as u64) & mask64((32 - m) as u64) == (tj as u64) & mask64((32 - m) as u64),
    ensures
        ((ti >> 16u32) as u16 ^ (tj >> 16u32) as u16) != 0,
        (ti >> 16u32) as u16 != (tj >> 16u32) as u16,
        (((ti >> 16u32) as u16) ^ ((tj >> 16u32) as u16)) & (((1u32 << ((16 - m) as u16)) - 1) as u16)
            == 0,
{
    assert(((ti >> 16u32) as u16 ^ (tj >> 16u32) as u16) != 0
        && (ti >> 16u32) as u16 != (tj >> 16u32) as u16
        && (((ti >> 16u32) as u16) ^ ((tj
        >> 16u32) as u16)) & (((1u32 << ((16 - m) as u16)) - 1) as u16) == 0) by (bit_vector)
        requires
            m <= 16,
            ti != tj,
            (ti as u64) & (((1u64 << ((32 - m) as u64)) - 1) as u64) == (tj as u64) & (((1u64 << ((32
                - m) as u64)) - 1) as u64),
    ;
}

/// Two coordinates share their stratum of width `2^(32 - a)` exactly when
/// their reversals agree in the low `a` bits.
pub proof fn lemma_stratum_is_reversed_low_bits(x: u32, y: u32, a: nat)
    requires
        a <= 32,
    ensures
        (stratum(x, a) == stratum(y, a)) <==> agree_low(reverse32(x), reverse32(y), a),
{
    lemma2_to64();
    lemma_agree_mask(reverse32(x), reverse32(y), a);
    if a == 0 {
        lemma_agree_zero(reverse32(x), reverse32(y));
        vstd::arithmetic::div_mod::lemma_basic_div(x as int, pow2(32) as int);
        vstd::arithmetic::div_mod::lemma_basic_div(y as int, pow2(32) as int);
    } else {
        let s = (32 - a) as u32;
        vstd::bits::lemma_u32_shr_is_div(x, s);
        vstd::bits::lemma_u32_shr_is_div(y, s);
        assert((x >> s == y >> s) <==> ((reverse32(x) as u64) & (((1u64 << ((32 - s) as u64)) - 1) as u64))
            == ((reverse32(y) as u64) & (((1u64 << ((32 - s) as u64)) - 1) as u64))) by (bit_vector)
            requires
                s < 32,
        ;
    }
}

/// Agreement of two 16-bit words in their low `a` bits, as their difference
/// under a mask.
proof fn lemma_agree_u16(p: u16, q: u16, a: nat)
    requires
        a <= 16,
    ensures
        agree_low(p as u32, q as u32, a) <==> ((p ^ q) & (((1u32 << (a as u16)) - 1) as u16)) == 0,
{
    lemma_agree_mask(p as u32, q as u32, a);
    let aa = a as u16;
    assert((((p as u32) as u64) & (((1u64 << (aa as u64)) - 1) as u64)) == (((q as u32) as u64) & (((1u64
        << (aa as u64)) - 1) as u64)) <==> ((p ^ q) & (((1u32 << aa) - 1) as u16)) == 0) by (bit_vector)
        requires
            aa <= 16,
    ;
}

/// The scrambled coordinates of two Sobol values agree in their top `a`
/// bits exactly when the values agree in their low `a` bits.
proof fn lemma_scrambled_stratum(p: u16, q: u16, seed: u32, a: nat)
    requires
        a <= 16,
    ensures
        (stratum(scrambled_reversed(p as u32, seed), a) == stratum(scrambled_reversed(q as u32, seed), a))
            <==> ((p ^ q) & (((1u32 << (a as u16)) - 1) as u16)) == 0,
{
    let lp = laine_karras(p as u32, seed);
    let lq = laine_karras(q as u32, seed);
    lemma_stratum_is_reversed_low_bits(reverse32(lp), reverse32(lq), a);
    lemma_reverse32_involution(lp);
    lemma_reverse32_involution(lq);
    lemma_laine_karras_low_bits(p as u32, q as u32, seed, a);
    lemma_agree_u16(p, q, a);
}

/// Distinct indices in one aligned block of `2^m` (`m <= 16`) are shuffled
/// to distinct Sobol indices whose difference is zero in its low `16 - m`
/// bits.
proof fn lemma_sobol_index_difference(i: u32, j: u32, seed: u32, m: nat)
    requires
        m <= 16,
        i != j,
        i as int / pow2(m) as int == j as int / pow2(m) as int,
    ensures
        sobol_index(i, seed) ^ sobol_index(j, seed) != 0,
        sobol_index(i, seed) != sobol_index(j, seed),
        (sobol_index(i, seed) ^ sobol_index(j, seed)) & (((1u32 << ((16 - m) as u16)) - 1) as u16) == 0,
{
    lemma2_to64();
    vstd::bits::lemma_u64_shr_is_div(i as u64, m as u64);
    vstd::bits::lemma_u64_shr_is_div(j as u64, m as u64);
    lemma_reverse_block_low_agree(i, j, m as u64);
    let ri = reverse32(i);
    let rj = reverse32(j);
    lemma_agree_mask(ri, rj, (32 - m) as nat);
    lemma_reverse32_involution(i);
    lemma_reverse32_involution(j);
    lemma_laine_karras_low_bits(ri, rj, seed, (32 - m) as nat);
    lemma_laine_karras_injective(ri, rj, seed);
    let ti = laine_karras(ri, seed);
    let tj = laine_karras(rj, seed);
    lemma_agree_mask(ti, tj, (32 - m) as nat);
    lemma_shuffled_prefix_difference(ti, tj, m as u64);
}

/// Indices of `2^16` and more repeat the points of indices below `2^16`:
/// for every index there is one below `2^16` with the same point in every
/// dimension, since the indices below `2^16` reach every Sobol index.
pub proof fn lemma_sobol_values_repeat(index: u32, seed: u32)
    ensures
        exists|i: u32|
            #![trigger sobol_index(i, seed)]
            i < 0x1_0000 && sobol_index(i, seed) == sobol_index(index, seed) && forall|d: int|
                sobol_sample(i, seed, d) == sobol_sample(index, seed, d),
{
    lemma2_to64();
    let f = |k: int| sobol_index(k as u32, seed) as int;
    assert forall|k: int, l: int| 0 <= k < 0x1_0000 && 0 <= l < 0x1_0000 && k != l implies #[trigger] f(k)
        != #[trigger] f(l) by {
        assert(k / 0x1_0000 == 0 && l / 0x1_0000 == 0);
        lemma_sobol_index_difference(k as u32, l as u32, seed, 16);
    }
    lemma_injective_reaches_all(f, 0x1_0000, sobol_index(index, seed) as int);
    let k = choose|k: int| 0 <= k < 0x1_0000 && #[trigger] f(k) == sobol_index(index, seed) as int;
    let i = k as u32;
    assert(sobol_index(i, seed) == sobol_index(index, seed));
}

/// The first two dimensions of the Owen-scrambled Sobol sequence form a
/// (0,2)-sequence for every seed: the points of every aligned block of
/// `2^(a + b)` indices (`a + b <= 16`), the first `2^(a + b)` among them, form
/// a (0,2)-net. Two distinct indices of one block never share both their x
/// interval of width `2^(32 - a)` and their y interval of width `2^(32 - b)`,
/// so each of the `2^a * 2^b` cells holds exactly one point.
pub proof fn lemma_sobol_is_02_net(i: u32, j: u32, seed: u32, a: nat, b: nat)
    requires
        a + b <= 16,
        i != j,
        i as int / pow2(a + b) as int == j as int / pow2(a + b) as int,
    ensures
        !(stratum(sobol_sample(i, seed, 0), a) == stratum(sobol_sample(j, seed, 0), a) && stratum(
            sobol_sample(i, seed, 1),
            b,
        ) == stratum(sobol_sample(j, seed, 1), b)),
{
    let m = a + b;
    lemma_sobol_index_difference(i, j, seed, m);
    let ui = sobol_index(i, seed);
    let uj = sobol_index(j, seed);
    let delta = ui ^ uj;
    // The Sobol values move with the difference.
    lemma_sobol_dim0_is_reversal(ui);
    lemma_sobol_dim0_is_reversal(uj);
    lemma_sobol_dim1_closed(delta);
    lemma_reverse16_linear(ui, uj);
    lemma_sobol_partial_linear(ui, uj, 1, 16);
    lemma_sobol_pair_core(delta, a as u16, b as u16);
    lemma_scrambled_stratum(
        reverse16(ui),
        reverse16(uj),
        rotate_right32(seed, byte_distance(0)),
        a,
    );
    lemma_scrambled_stratum(
        sobol_matrix(ui, 1),
        sobol_matrix(uj, 1),
        rotate_right32(seed, byte_distance(1)),
        b,
    );
}

/// The Owen scramble of a value whose bits are already reversed: permute,
/// then reverse.
pub open spec fn scrambled_reversed(value: u32, seed: u32) -> u32 {
    reverse32(laine_karras(value, seed))
}

/// Permute an integer (Laine & Karras) and reverse the bits. Equivalent to an
/// Owen scramble when the input bits are already reversed.
pub fn scramble_and_reverse(value: u32, seed: u32) -> (r: u32)
    ensures
        r == scrambled_reversed(value, seed),
{
    reverse_bits32(laine_karras_permutation(value, seed))
}

/// The bit-reversed Sobol index that `index` is shuffled to under `seed`: the
/// top 16 bits of its progressive (Owen) shuffle.
pub open spec fn sobol_index(index: u32, seed: u32) -> u16 {
    (laine_karras(reverse32(index), seed) >> 16u32) as u16
}

/// Dimension `dimension` of the Owen-scrambled, progressively shuffled Sobol
/// point at `index` under `seed`.
pub open spec fn sobol_sample(index: u32, seed: u32, dimension: int) -> u32 {
    let s = sobol_matrix(sobol_index(index, seed), dimension) as u32;
    scrambled_reversed(s, rotate_right32(seed, byte_distance(dimension as i32)))
}

/// Compute a randomised (Owen-scrambled, progressively shuffled) Sobol value.
///
/// `DEPTH` is the dimensional output count (1..=4); each output depends on its
/// dimension only, not on `DEPTH`. The seed must be constant for a given
/// sequence.
pub fn shuffled_scrambled_sobol<const DEPTH: usize>(index: u32, seed: u32) -> (r: [u32; DEPTH])
    requires
        1 <= DEPTH <= 4,
    ensures
        forall|i: int| 0 <= i < DEPTH ==> #[trigger] r[i] == sobol_sample(index, seed, i),
{
    let shuffled = reverse_and_shuffle(index, seed);

    let mut sample = [0u32; DEPTH];
    let mut i: usize = 0;
    while i < DEPTH
        invariant
            DEPTH <= 4,
            i <= DEPTH,
            sample@.len() == DEPTH,
            shuffled == laine_karras(reverse32(index), seed),
            forall|j: int| 0 <= j < i ==> #[trigger] sample[j] == sobol_sample(index, seed, j),
        decreases DEPTH - i,
    {
        let s = sobol_reversed_index((shuffled >> 16) as u16, i) as u32;
        sample[i] = scramble_and_reverse(s, rotate_bytes(seed, i as i32));
        i += 1;
    }
    sample
}

/// Each dimension `d` of a scrambled Sobol point is its own Sobol dimension:
/// reversing its bits gives the Laine-Karras scramble, under the seed rotated
/// right by `8 d` bits, of the product of the shuffled index with the
/// direction vectors `DIRECTIONS[d]`.
pub proof fn lemma_sobol_sample_dimension(index: u32, seed: u32, d: int)
    requires
        0 <= d < 4,
    ensures
        reverse32(sobol_sample(index, seed, d)) == laine_karras(
            sobol_matrix(sobol_index(index, seed), d) as u32,
            rotate_right32(seed, (8 * d) as u32),
        ),
{
    let v = laine_karras(
        sobol_matrix(sobol_index(index, seed), d) as u32,
        rotate_right32(seed, byte_distance(d as i32)),
    );
    lemma_reverse32_involution(v);
    assert(byte_distance(d as i32) == (8 * d) as u32);
}

/// Two points of one scrambled Sobol sequence share their interval of width
/// `2^(32 - a)` in dimension `d` exactly when the products of their shuffled
/// indices with `DIRECTIONS[d]` agree in their low `a` bits.
pub proof fn lemma_sobol_sample_strata(i: u32, j: u32, seed: u32, d: int, a: nat)
    requires
        0 <= d < 4,
        a <= 16,
    ensures
        (stratum(sobol_sample(i, seed, d), a) == stratum(sobol_sample(j, seed, d), a)) <==> ((sobol_matrix(
            sobol_index(i, seed),
            d,
        ) ^ sobol_matrix(sobol_index(j, seed), d)) & (((1u32 << (a as u16)) - 1) as u16)) == 0,
{
    lemma_scrambled_stratum(
        sobol_matrix(sobol_index(i, seed), d),
        sobol_matrix(sobol_index(j, seed), d),
        rotate_right32(seed, byte_distance(d as i32)),
        a,
    );
}

} // verus!
