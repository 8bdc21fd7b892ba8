//! Hash-based permutations: a Laine & Karras style permutation with the
//! constants of Nathan Vegdahl's "Building a Better LK Hash". With bit
//! reversal before and after, it is a hash-based Owen scramble.
use vstd::prelude::*;
use vstd::arithmetic::power2::pow2;
use crate::bits::{
    agree_low, wrapping_add32, wrapping_mul32, mask64, lemma_add_agree, lemma_odd_mul_agree,
    lemma_xor_even_mul_agree, lemma_agree_all, lemma_agree_mask, lemma_mask64_value,
};
use crate::reverse::{reverse32, reverse_bits32, lemma_reverse32_involution};

verus! {

/// The Laine & Karras style permutation of `value` under `seed`.
pub open spec fn laine_karras(value: u32, seed: u32) -> u32 {
    let a = value ^ wrapping_mul32(value, 0x3d20adea);
    let b = wrapping_add32(a, seed);
    let c = wrapping_mul32(b, (seed >> 16u32) | 1);
    let d = c ^ wrapping_mul32(c, 0x05526c56);
    d ^ wrapping_mul32(d, 0x53a22864)
}

/// The full hash-based Owen scramble: reverse, permute, reverse.
pub open spec fn owen_shuffle(value: u32, seed: u32) -> u32 {
    reverse32(laine_karras(reverse32(value), seed))
}

/// Laine & Karras style permutation: lower bits affect higher bits but not the
/// reverse, so paired with reversal it becomes a hash-based Owen scramble.
pub fn laine_karras_permutation(value: u32, seed: u32) -> (r: u32)
    ensures
        r == laine_karras(value, seed),
{
    let mut v = value;
    v = v ^ v.wrapping_mul(0x3d20adea);
    v = v.wrapping_add(seed);
    v = v.wrapping_mul((seed >> 16) | 1);
    v = v ^ v.wrapping_mul(0x05526c56);
    v = v ^ v.wrapping_mul(0x53a22864);
    v
}

/// Reverse the bits, then apply the permutation.
pub fn reverse_and_shuffle(value: u32, seed: u32) -> (r: u32)
    ensures
        r == laine_karras(reverse32(value), seed),
{
    laine_karras_permutation(reverse_bits32(value), seed)
}

/// A full hash-based Owen scramble (reverse, permute, reverse).
pub fn shuffle(value: u32, seed: u32) -> (r: u32)
    ensures
        r == owen_shuffle(value, seed),
{
    reverse_bits32(reverse_and_shuffle(value, seed))
}

/// The multiplier that the seed gives the permutation is odd.
proof fn lemma_seed_multiplier_odd(seed: u32)
    ensures
        ((seed >> 16u32) | 1) % 2 == 1,
{
    assert(((seed >> 16u32) | 1) % 2 == 1) by (bit_vector);
}

/// Two inputs agree in their low `k` bits exactly when their permutations do:
/// low bits of the output depend on low bits of the input only, and a
/// difference in the lowest differing bit is kept.
pub proof fn lemma_laine_karras_low_bits(v: u32, w: u32, seed: u32, k: nat)
    requires
        k <= 32,
    ensures
        agree_low(v, w, k) <==> agree_low(laine_karras(v, seed), laine_karras(w, seed), k),
{
    let va = v ^ wrapping_mul32(v, 0x3d20adea);
    let wa = w ^ wrapping_mul32(w, 0x3d20adea);
    lemma_xor_even_mul_agree(v, w, 0x3d20adea, k);
    let vb = wrapping_add32(va, seed);
    let wb = wrapping_add32(wa, seed);
    lemma_add_agree(va, wa, seed, k);
    let m = (seed >> 16u32) | 1;
    lemma_seed_multiplier_odd(seed);
    let vc = wrapping_mul32(vb, m);
    let wc = wrapping_mul32(wb, m);
    lemma_odd_mul_agree(vb, wb, m, k);
    let vd = vc ^ wrapping_mul32(vc, 0x05526c56);
    let wd = wc ^ wrapping_mul32(wc, 0x05526c56);
    lemma_xor_even_mul_agree(vc, wc, 0x05526c56, k);
    lemma_xor_even_mul_agree(vd, wd, 0x53a22864, k);
}

/// The permutation is one-to-one for every seed.
pub proof fn lemma_laine_karras_injective(v: u32, w: u32, seed: u32)
    ensures
        laine_karras(v, seed) == laine_karras(w, seed) ==> v == w,
{
    lemma_laine_karras_low_bits(v, w, seed, 32);
    lemma_agree_all(v, w);
    lemma_agree_all(laine_karras(v, seed), laine_karras(w, seed));
}

/// The reversal of a value below `2^k` is zero in its low `32 - k` bits.
proof fn lemma_reverse_small_low_zero(i: u32, k: u64)
    requires
        1 <= k <= 32,
        (i as u64) < (1u64 << k),
    ensures
        ((reverse32(i) as u64) & mask64((32 - k) as u64)) == 0,
{
    assert(((reverse32(i) as u64) & (((1u64 << ((32 - k) as u64)) - 1) as u64)) == 0) by (bit_vector)
        requires
            1 <= k <= 32,
            (i as u64) < (1u64 << k),
    ;
}

/// Distinct words that agree in their low `32 - k` bits have reversals that
/// differ in their low `k` bits.
proof fn lemma_reverse_separates(x: u32, y: u32, k: u64)
    requires
        1 <= k <= 32,
        x != y,
        (x as u64) & mask64((32 - k) as u64) == (y as u64) & mask64((32 - k) as u64),
    ensures
        (reverse32(x) as u64) & mask64(k) != (reverse32(y) as u64) & mask64(k),
{
    assert((reverse32(x) as u64) & (((1u64 << k) - 1) as u64) != (reverse32(y) as u64) & (((1u64
        << k) - 1) as u64)) by (bit_vector)
        requires
            1 <= k <= 32,
            x != y,
            (x as u64) & (((1u64 << ((32 - k) as u64)) - 1) as u64) == (y as u64) & (((1u64 << ((32
                - k) as u64)) - 1) as u64),
    ;
}

/// For every `k` in `1..=32` and every seed, the low `k` bits of the Owen
/// scramble of the indices `0..2^k` are a permutation of `0..2^k`: distinct
/// indices below `2^k` are sent to values that differ in their low `k` bits.
pub proof fn lemma_shuffle_low_bits_permute(i: u32, j: u32, seed: u32, k: nat)
    requires
        1 <= k <= 32,
        i < pow2(k),
        j < pow2(k),
        i != j,
    ensures
        !agree_low(owen_shuffle(i, seed), owen_shuffle(j, seed), k),
{
    let kk = k as u64;
    let low = (32 - k) as nat;
    lemma_mask64_value(k);
    lemma_reverse_small_low_zero(i, kk);
    lemma_reverse_small_low_zero(j, kk);
    let ri = reverse32(i);
    let rj = reverse32(j);
    lemma_agree_mask(ri, rj, low);
    lemma_laine_karras_low_bits(ri, rj, seed, low);
    let li = laine_karras(ri, seed);
    let lj = laine_karras(rj, seed);
    lemma_reverse32_involution(i);
    lemma_reverse32_involution(j);
    lemma_laine_karras_injective(ri, rj, seed);
    lemma_agree_mask(li, lj, low);
    lemma_reverse_separates(li, lj, kk);
    lemma_agree_mask(reverse32(li), reverse32(lj), k);
}

/// Values in one aligned block of `2^m` have reversals that agree in their
/// low `32 - m` bits.
pub proof fn lemma_reverse_block_low_agree(i: u32, j: u32, m: u64)
    requires
        m <= 32,
        (i as u64) >> m == (j as u64) >> m,
    ensures
        (reverse32(i) as u64) & mask64((32 - m) as u64) == (reverse32(j) as u64) & mask64((32 - m) as u64),
{
    assert((reverse32(i) as u64) & (((1u64 << ((32 - m) as u64)) - 1) as u64) == (reverse32(j) as u64) & (((1u64
        << ((32 - m) as u64)) - 1) as u64)) by (bit_vector)
        requires
            m <= 32,
            (i as u64) >> m == (j as u64) >> m,
    ;
}

/// Words that agree in their low `32 - m` bits have reversals in one aligned
/// block of `2^m`.
proof fn lemma_reverse_low_agree_block(x: u32, y: u32, m: u64)
    requires
        m <= 32,
        (x as u64) & mask64((32 - m) as u64) == (y as u64) & mask64((32 - m) as u64),
    ensures
        (reverse32(x) as u64) >> m == (reverse32(y) as u64) >> m,
{
    assert((reverse32(x) as u64) >> m == (reverse32(y) as u64) >> m) by (bit_vector)
        requires
            m <= 32,
            (x as u64) & (((1u64 << ((32 - m) as u64)) - 1) as u64) == (y as u64) & (((1u64 << ((32 - m)
                as u64)) - 1) as u64),
    ;
}

/// The Owen scramble maps every aligned block of `2^m` indices onto an
/// aligned block of `2^m` values, one to one: distinct indices in one block
/// go to values in one block that differ in their low `m` bits.
pub proof fn lemma_shuffle_keeps_blocks(i: u32, j: u32, seed: u32, m: nat)
    requires
        1 <= m <= 32,
        i != j,
        i as int / pow2(m) as int == j as int / pow2(m) as int,
    ensures
        owen_shuffle(i, seed) as int / pow2(m) as int == owen_shuffle(j, seed) as int / pow2(m) as int,
        !agree_low(owen_shuffle(i, seed), owen_shuffle(j, seed), m),
{
    let mm = m as u64;
    lemma_mask64_value(m);
    vstd::bits::lemma_u64_shr_is_div(i as u64, mm);
    vstd::bits::lemma_u64_shr_is_div(j as u64, mm);
    lemma_reverse_block_low_agree(i, j, mm);
    let ri = reverse32(i);
    let rj = reverse32(j);
    let low = (32 - m) as nat;
    lemma_agree_mask(ri, rj, low);
    lemma_laine_karras_low_bits(ri, rj, seed, low);
    lemma_reverse32_involution(i);
    lemma_reverse32_involution(j);
    lemma_laine_karras_injective(ri, rj, seed);
    let li = laine_karras(ri, seed);
    let lj = laine_karras(rj, seed);
    lemma_agree_mask(li, lj, low);
    lemma_reverse_separates(li, lj, mm);
    lemma_reverse_low_agree_block(li, lj, mm);
    lemma_agree_mask(reverse32(li), reverse32(lj), m);
    vstd::bits::lemma_u64_shr_is_div(reverse32(li) as u64, mm);
    vstd::bits::lemma_u64_shr_is_div(reverse32(lj) as u64, mm);
}

} // verus!
