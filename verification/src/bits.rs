//! Bits and wrapping arithmetic of 32-bit words, and agreement of two words
//! in their low bits.
use vstd::prelude::*;
use vstd::relations::injective_on;
use vstd::set_lib::{set_int_range, lemma_int_range, lemma_map_size, lemma_subset_equality};
use vstd::arithmetic::power2::{pow2, lemma_pow2_pos, lemma_pow2_adds, lemma_pow2_unfold, lemma2_to64};
use vstd::arithmetic::div_mod::{
    lemma_mod_mod, lemma_small_mod, lemma_add_mod_noop, lemma_mul_mod_noop_left,
    lemma_mul_mod_noop, lemma_mod_equivalence, lemma_mod_twice, lemma_fundamental_div_mod,
    lemma_mod_multiples_basic,
};

verus! {

/// Bit `i` of a 32-bit value.
pub open spec fn bit32(v: u32, i: u32) -> bool {
    (v >> i) & 1 == 1
}

/// Bit `i` of a 16-bit value.
pub open spec fn bit16(v: u16, i: u16) -> bool {
    (v >> i) & 1 == 1
}

/// `a + b` modulo 2^32.
pub open spec fn wrapping_add32(a: u32, b: u32) -> u32 {
    ((a + b) % 0x1_0000_0000) as u32
}

/// `a * b` modulo 2^32.
pub open spec fn wrapping_mul32(a: u32, b: u32) -> u32 {
    ((a * b) % 0x1_0000_0000) as u32
}

/// `a` and `b` agree in their low `k` bits: they are equal modulo 2^k.
pub open spec fn agree_low(a: u32, b: u32, k: nat) -> bool {
    (a as int) % (pow2(k) as int) == (b as int) % (pow2(k) as int)
}

/// The mask of the low `k` bits, as a 64-bit word so that `k` may be 32.
pub open spec fn mask64(k: u64) -> u64 {
    ((1u64 << k) - 1) as u64
}

/// Reducing modulo 2^32 keeps the low `k` bits, for `k <= 32`.
pub proof fn lemma_mod32_low(x: int, k: nat)
    requires
        k <= 32,
    ensures
        (x % 0x1_0000_0000) % (pow2(k) as int) == x % (pow2(k) as int),
{
    lemma_pow2_adds(k, (32 - k) as nat);
    lemma_pow2_pos(k);
    lemma_pow2_pos((32 - k) as nat);
    lemma2_to64();
    lemma_mod_mod(x, pow2(k) as int, pow2((32 - k) as nat) as int);
}

/// Agreeing in the low `k` bits implies agreeing in the low `j <= k` bits.
pub proof fn lemma_agree_weaken(a: u32, b: u32, k: nat, j: nat)
    requires
        j <= k,
        agree_low(a, b, k),
    ensures
        agree_low(a, b, j),
{
    lemma_pow2_adds(j, (k - j) as nat);
    lemma_pow2_pos(j);
    lemma_pow2_pos((k - j) as nat);
    lemma_mod_mod(a as int, pow2(j) as int, pow2((k - j) as nat) as int);
    lemma_mod_mod(b as int, pow2(j) as int, pow2((k - j) as nat) as int);
}

/// Agreeing in all 32 bits is equality.
pub proof fn lemma_agree_all(a: u32, b: u32)
    ensures
        agree_low(a, b, 32) <==> a == b,
{
    lemma2_to64();
    lemma_small_mod(a as nat, 0x1_0000_0000);
    lemma_small_mod(b as nat, 0x1_0000_0000);
}

/// Any two words agree in their low zero bits.
pub proof fn lemma_agree_zero(a: u32, b: u32)
    ensures
        agree_low(a, b, 0),
{
    lemma2_to64();
}

/// The low `k` bits of `1 << k` minus one, for `k <= 32`: `mask64(k) == 2^k - 1`.
pub proof fn lemma_mask64_value(k: nat)
    requires
        k <= 32,
    ensures
        mask64(k as u64) == pow2(k) - 1,
        (1u64 << (k as u64)) == pow2(k),
{
    lemma2_to64();
    vstd::bits::lemma_u64_pow2_no_overflow(k);
    vstd::bits::lemma_u64_shl_is_mul(1, k as u64);
}

/// Agreement in the low `k` bits, as a comparison under a mask.
pub proof fn lemma_agree_mask(a: u32, b: u32, k: nat)
    requires
        k <= 32,
    ensures
        agree_low(a, b, k) <==> ((a as u64) & mask64(k as u64)) == ((b as u64) & mask64(k as u64)),
{
    lemma_mask64_value(k);
    vstd::bits::lemma_u64_low_bits_mask_is_mod(a as u64, k);
    vstd::bits::lemma_u64_low_bits_mask_is_mod(b as u64, k);
}

/// Adding a constant modulo 2^32 keeps and reflects agreement in the low bits.
pub proof fn lemma_add_agree(a: u32, b: u32, s: u32, k: nat)
    requires
        k <= 32,
    ensures
        agree_low(a, b, k) <==> agree_low(wrapping_add32(a, s), wrapping_add32(b, s), k),
{
    let p = pow2(k) as int;
    lemma_pow2_pos(k);
    lemma_mod32_low(a + s, k);
    lemma_mod32_low(b + s, k);
    lemma_add_mod_noop(a as int, s as int, p);
    lemma_add_mod_noop(b as int, s as int, p);
    lemma_add_mod_noop(a + s, -s, p);
    lemma_add_mod_noop(b + s, -s, p);
}

/// Multiplying modulo 2^32 keeps agreement in the low bits.
pub proof fn lemma_mul_agree(a: u32, b: u32, c: u32, k: nat)
    requires
        k <= 32,
        agree_low(a, b, k),
    ensures
        agree_low(wrapping_mul32(a, c), wrapping_mul32(b, c), k),
{
    let p = pow2(k) as int;
    lemma_pow2_pos(k);
    lemma_mod32_low(a * c, k);
    lemma_mod32_low(b * c, k);
    lemma_mul_mod_noop_left(a as int, c as int, p);
    lemma_mul_mod_noop_left(b as int, c as int, p);
}

/// If `2^k` divides `d * m` with `m` odd, then `2^k` divides `d`.
pub proof fn lemma_odd_factor_divides(d: int, m: int, k: nat)
    requires
        m % 2 == 1,
        (d * m) % (pow2(k) as int) == 0,
    ensures
        d % (pow2(k) as int) == 0,
    decreases k,
{
    lemma2_to64();
    if k > 0 {
        let p = pow2(k) as int;
        let p1 = pow2((k - 1) as nat) as int;
        lemma_pow2_unfold(k);
        lemma_pow2_pos((k - 1) as nat);
        lemma_mod_mod(d * m, 2, p1);
        lemma_mul_mod_noop(d, m, 2);
        lemma_mod_twice(d, 2);
        assert(d % 2 == 0) by {
            if d % 2 == 1 {
                assert((d % 2) * (m % 2) == 1);
            }
        }
        let e = d / 2;
        lemma_fundamental_div_mod(d, 2);
        let q = (d * m) / p;
        lemma_fundamental_div_mod(d * m, p);
        assert(e * m == p1 * q) by (nonlinear_arith)
            requires d == 2 * e, d * m == p * q, p == 2 * p1;
        lemma_mod_multiples_basic(q, p1);
        assert(q * p1 == p1 * q) by (nonlinear_arith);
        lemma_odd_factor_divides(e, m, (k - 1) as nat);
        let r = e / p1;
        lemma_fundamental_div_mod(e, p1);
        assert(d == r * p) by (nonlinear_arith)
            requires d == 2 * e, e == p1 * r, p == 2 * p1;
        lemma_mod_multiples_basic(r, p);
    }
}

/// Multiplying by an odd constant modulo 2^32 keeps and reflects agreement
/// in the low bits.
pub proof fn lemma_odd_mul_agree(a: u32, b: u32, m: u32, k: nat)
    requires
        k <= 32,
        m % 2 == 1,
    ensures
        agree_low(a, b, k) <==> agree_low(wrapping_mul32(a, m), wrapping_mul32(b, m), k),
{
    let p = pow2(k) as int;
    lemma_pow2_pos(k);
    if agree_low(a, b, k) {
        lemma_mul_agree(a, b, m, k);
    }
    if agree_low(wrapping_mul32(a, m), wrapping_mul32(b, m), k) {
        lemma_mod32_low(a * m, k);
        lemma_mod32_low(b * m, k);
        lemma_mod_equivalence(a * m, b * m, p);
        assert(a * m - b * m == (a - b) * m) by (nonlinear_arith);
        lemma_odd_factor_divides(a - b, m as int, k);
        lemma_mod_equivalence(a as int, b as int, p);
    }
}

/// Multiplying by an even constant modulo 2^32 turns agreement in the low
/// `k - 1` bits into agreement in the low `k` bits.
pub proof fn lemma_even_mul_lifts(a: u32, b: u32, c: u32, k: nat)
    requires
        1 <= k <= 32,
        c % 2 == 0,
        agree_low(a, b, (k - 1) as nat),
    ensures
        agree_low(wrapping_mul32(a, c), wrapping_mul32(b, c), k),
{
    let p = pow2(k) as int;
    let p1 = pow2((k - 1) as nat) as int;
    lemma_pow2_unfold(k);
    lemma_pow2_pos((k - 1) as nat);
    lemma_mod_equivalence(a as int, b as int, p1);
    let r = (a - b) / p1;
    lemma_fundamental_div_mod(a - b, p1);
    let h = c / 2;
    lemma_fundamental_div_mod(c as int, 2);
    assert(a * c - b * c == (r * h) * p) by (nonlinear_arith)
        requires a - b == p1 * r, c == 2 * h, p == 2 * p1;
    lemma_mod_multiples_basic(r * h, p);
    lemma_mod_equivalence(a * c, b * c, p);
    lemma_mod32_low(a * c, k);
    lemma_mod32_low(b * c, k);
}

/// Exclusive-or with words that agree under a mask keeps and reflects
/// agreement under that mask.
pub proof fn lemma_xor_mask(a: u32, b: u32, p: u32, q: u32, m: u64)
    requires
        (p as u64) & m == (q as u64) & m,
    ensures
        (((a ^ p) as u64) & m == ((b ^ q) as u64) & m) <==> ((a as u64) & m == (b as u64) & m),
{
    assert((((a ^ p) as u64) & m == ((b ^ q) as u64) & m) <==> ((a as u64) & m == (b as u64) & m))
        by (bit_vector)
        requires
            (p as u64) & m == (q as u64) & m,
    ;
}

/// `x ^ (x * c)` with an even `c` keeps and reflects agreement in the low
/// bits: low bits of the product only depend on lower bits of `x`.
pub proof fn lemma_xor_even_mul_agree(a: u32, b: u32, c: u32, k: nat)
    requires
        k <= 32,
        c % 2 == 0,
    ensures
        agree_low(a, b, k) <==> agree_low(
            a ^ wrapping_mul32(a, c),
            b ^ wrapping_mul32(b, c),
            k,
        ),
    decreases k,
{
    let ac = wrapping_mul32(a, c);
    let bc = wrapping_mul32(b, c);
    lemma_agree_mask(a, b, k);
    lemma_agree_mask(ac, bc, k);
    lemma_agree_mask(a ^ ac, b ^ bc, k);
    if agree_low(a, b, k) {
        lemma_mul_agree(a, b, c, k);
        lemma_xor_mask(a, b, ac, bc, mask64(k as u64));
    }
    if agree_low(a ^ ac, b ^ bc, k) {
        if k == 0 {
            lemma_agree_zero(a, b);
        } else {
            lemma_agree_weaken(a ^ ac, b ^ bc, k, (k - 1) as nat);
            lemma_xor_even_mul_agree(a, b, c, (k - 1) as nat);
            lemma_even_mul_lifts(a, b, c, k);
            lemma_xor_mask(a, b, ac, bc, mask64(k as u64));
        }
    }
}

/// The interval of width `2^(32 - m)` that a coordinate lies in.
pub open spec fn stratum(v: u32, m: nat) -> int {
    v as int / pow2((32 - m) as nat) as int
}

/// Exclusive-or with a constant keeps distinct intervals distinct.
pub proof fn lemma_stratum_xor(x: u32, y: u32, c: u32, m: nat)
    requires
        1 <= m <= 32,
        stratum(x, m) != stratum(y, m),
    ensures
        stratum(x ^ c, m) != stratum(y ^ c, m),
{
    let s = (32 - m) as u32;
    vstd::bits::lemma_u32_shr_is_div(x, s);
    vstd::bits::lemma_u32_shr_is_div(y, s);
    vstd::bits::lemma_u32_shr_is_div(x ^ c, s);
    vstd::bits::lemma_u32_shr_is_div(y ^ c, s);
    assert((x ^ c) >> s != (y ^ c) >> s) by (bit_vector)
        requires
            x >> s != y >> s,
    ;
}

/// A one-to-one map of `0 .. n` into `0 .. n` reaches every value of `0 .. n`.
pub proof fn lemma_injective_reaches_all(f: spec_fn(int) -> int, n: int, v: int)
    requires
        0 <= v < n,
        forall|i: int, j: int| 0 <= i < n && 0 <= j < n && i != j ==> #[trigger] f(i) != #[trigger] f(j),
        forall|i: int| 0 <= i < n ==> 0 <= #[trigger] f(i) < n,
    ensures
        exists|i: int| 0 <= i < n && #[trigger] f(i) == v,
{
    let dom = set_int_range(0, n);
    lemma_int_range(0, n);
    assert(injective_on(f, dom));
    let img = dom.map(f);
    lemma_map_size(dom, img, f);
    assert(img.subset_of(dom));
    lemma_subset_equality(img, dom);
    assert(dom.contains(v));
    assert(img.contains(v));
    let i = choose|i: int| dom.contains(i) && f(i) == v;
    assert(0 <= i < n && f(i) == v);
}

} // verus!
