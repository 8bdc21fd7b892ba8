//! The (0,2) property of the progressive multi-jittered sequence.
//!
//! Point `i` of level `h` (`2^h <= i < 2^(h+1)`) takes coordinate `k` from
//! its parent `(i - 2^h) ^ PMJ_XORS[k][h]`: the top `h` bits are kept, bit `h`
//! (from the top) is flipped and the bits below are random. The indices
//! `2^h + PMJ_XORS[k][h]` form a triangular basis of the 16-bit indices. The
//! coefficients of an index in that basis, a GF(2)-linear function of the
//! index, say which top bits two points surely share and which they surely do
//! not, whatever the random bits.
use vstd::prelude::*;
use vstd::arithmetic::power2::{pow2, lemma2_to64, lemma_pow2_unfold};
use crate::bits::{stratum, lemma_stratum_xor};
use crate::lookup::{lookup_row, lookup_scramble, lemma_lookup_row_bound, lemma_lookup_rows_keep_blocks};
use crate::owen::{index_bit, lemma_partial_step_linear, lemma_single_bits16};
use crate::pcg::{pcg_output, pcg_transition};
use crate::stochastic::{
    PMJ_XORS, pmj_points, pmj_next_point, pmj_draw, pmj_row, pmj_lookup, lemma_pmj_points_len,
    lemma_pmj_points_prefix, lemma_pmj_xors_bound, lemma_xor_below, lemma_parent_distinct,
};

verus! {

/// Column `j` of the matrix that maps an index to its coefficients for
/// coordinate `k`.
pub open spec fn pmj_column(k: int, j: int) -> u16 {
    if k == 0 {
        seq![
            0x0001u16, 0x0002u16, 0x0006u16, 0x000cu16, 0x0014u16, 0x0028u16, 0x0078u16, 0x00f0u16,
            0x0110u16, 0x0220u16, 0x0660u16, 0x0cc0u16, 0x1540u16, 0x2a80u16, 0x7f80u16, 0xff00u16,
        ][j]
    } else {
        seq![
            0x0001u16, 0x0003u16, 0x0006u16, 0x000au16, 0x0014u16, 0x003cu16, 0x0078u16, 0x0088u16,
            0x0110u16, 0x0330u16, 0x0660u16, 0x0aa0u16, 0x1540u16, 0x3fc0u16, 0x7f80u16, 0x8080u16,
        ][j]
    }
}

/// The product of the matrix with the low `j` bits of `v`.
pub open spec fn pmj_coeff_partial(v: u16, k: int, j: nat) -> u16
    decreases j,
{
    if j == 0 {
        0
    } else {
        let prev = pmj_coeff_partial(v, k, (j - 1) as nat);
        if index_bit(v, (j - 1) as u16) {
            prev ^ pmj_column(k, j - 1)
        } else {
            prev
        }
    }
}

/// The coefficients of index `v` for coordinate `k`, in the basis of the
/// indices `2^h + PMJ_XORS[k][h]` (see `lemma_pmj_row_coeffs`).
pub open spec fn pmj_coeffs(v: u16, k: int) -> u16 {
    pmj_coeff_partial(v, k, 16)
}

/// `pmj_coeffs(v, 0)` written out.
#[verifier::opaque]
spec fn pmj_coeffs_closed0(v: u16) -> u16 {
    let c0 = if v & 0x0001u16 != 0 { 0u16 ^ 0x0001u16 } else { 0u16 };
    let c1 = if v & 0x0002u16 != 0 { c0 ^ 0x0002u16 } else { c0 };
    let c2 = if v & 0x0004u16 != 0 { c1 ^ 0x0006u16 } else { c1 };
    let c3 = if v & 0x0008u16 != 0 { c2 ^ 0x000cu16 } else { c2 };
    let c4 = if v & 0x0010u16 != 0 { c3 ^ 0x0014u16 } else { c3 };
    let c5 = if v & 0x0020u16 != 0 { c4 ^ 0x0028u16 } else { c4 };
    let c6 = if v & 0x0040u16 != 0 { c5 ^ 0x0078u16 } else { c5 };
    let c7 = if v & 0x0080u16 != 0 { c6 ^ 0x00f0u16 } else { c6 };
    let c8 = if v & 0x0100u16 != 0 { c7 ^ 0x0110u16 } else { c7 };
    let c9 = if v & 0x0200u16 != 0 { c8 ^ 0x0220u16 } else { c8 };
    let c10 = if v & 0x0400u16 != 0 { c9 ^ 0x0660u16 } else { c9 };
    let c11 = if v & 0x0800u16 != 0 { c10 ^ 0x0cc0u16 } else { c10 };
    let c12 = if v & 0x1000u16 != 0 { c11 ^ 0x1540u16 } else { c11 };
    let c13 = if v & 0x2000u16 != 0 { c12 ^ 0x2a80u16 } else { c12 };
    let c14 = if v & 0x4000u16 != 0 { c13 ^ 0x7f80u16 } else { c13 };
    let c15 = if v & 0x8000u16 != 0 { c14 ^ 0xff00u16 } else { c14 };
    c15
}

/// `pmj_coeffs(v, 1)` written out.
#[verifier::opaque]
spec fn pmj_coeffs_closed1(v: u16) -> u16 {
    let c0 = if v & 0x0001u16 != 0 { 0u16 ^ 0x0001u16 } else { 0u16 };
    let c1 = if v & 0x0002u16 != 0 { c0 ^ 0x0003u16 } else { c0 };
    let c2 = if v & 0x0004u16 != 0 { c1 ^ 0x0006u16 } else { c1 };
    let c3 = if v & 0x0008u16 != 0 { c2 ^ 0x000au16 } else { c2 };
    let c4 = if v & 0x0010u16 != 0 { c3 ^ 0x0014u16 } else { c3 };
    let c5 = if v & 0x0020u16 != 0 { c4 ^ 0x003cu16 } else { c4 };
    let c6 = if v & 0x0040u16 != 0 { c5 ^ 0x0078u16 } else { c5 };
    let c7 = if v & 0x0080u16 != 0 { c6 ^ 0x0088u16 } else { c6 };
    let c8 = if v & 0x0100u16 != 0 { c7 ^ 0x0110u16 } else { c7 };
    let c9 = if v & 0x0200u16 != 0 { c8 ^ 0x0330u16 } else { c8 };
    let c10 = if v & 0x0400u16 != 0 { c9 ^ 0x0660u16 } else { c9 };
    let c11 = if v & 0x0800u16 != 0 { c10 ^ 0x0aa0u16 } else { c10 };
    let c12 = if v & 0x1000u16 != 0 { c11 ^ 0x1540u16 } else { c11 };
    let c13 = if v & 0x2000u16 != 0 { c12 ^ 0x3fc0u16 } else { c12 };
    let c14 = if v & 0x4000u16 != 0 { c13 ^ 0x7f80u16 } else { c13 };
    let c15 = if v & 0x8000u16 != 0 { c14 ^ 0x8080u16 } else { c14 };
    c15
}

/// Bits `0 .. d` of `c` are zero.
pub open spec fn low_bits_clear(c: u16, d: u32) -> bool {
    ((c as u32) >> d) << d == c as u32
}

/// Bit `d` of `c` is set.
pub open spec fn bit_set(c: u16, d: u32) -> bool {
    ((c as u32) >> d) & 1u32 == 1u32
}

/// Bit `d` of `v`, counted from the top, is set.
pub open spec fn top_bit(v: u32, d: u32) -> bool {
    (v << d) >> 31u32 == 1u32
}

/// A coordinate of level `h`, made from its parent's coordinate `y` and the
/// random value `r`.
pub open spec fn pmj_child_coord(y: u32, r: u32, h: u32) -> u32 {
    let swap = 0x8000_0000u32 >> h;
    let mask = (swap - 1) as u32;
    ((y & !mask) ^ swap) | (r & mask)
}

/// The coefficients for coordinate 0 are the written-out product.
proof fn lemma_pmj_coeffs_closed0(v: u16)
    ensures
        pmj_coeffs(v, 0) == pmj_coeffs_closed0(v),
{
    reveal(pmj_coeffs_closed0);
    lemma_single_bits16();
    reveal_with_fuel(pmj_coeff_partial, 17);
}

/// The coefficients for coordinate 1 are the written-out product.
proof fn lemma_pmj_coeffs_closed1(v: u16)
    ensures
        pmj_coeffs(v, 1) == pmj_coeffs_closed1(v),
{
    reveal(pmj_coeffs_closed1);
    lemma_single_bits16();
    reveal_with_fuel(pmj_coeff_partial, 17);
}

/// The coefficients are the written-out products.
proof fn lemma_pmj_coeffs_closed(v: u16)
    ensures
        pmj_coeffs(v, 0) == pmj_coeffs_closed0(v),
        pmj_coeffs(v, 1) == pmj_coeffs_closed1(v),
{
    lemma_pmj_coeffs_closed0(v);
    lemma_pmj_coeffs_closed1(v);
}

/// The coefficients are linear over GF(2).
pub proof fn lemma_pmj_coeffs_linear(p: u16, q: u16, k: int, j: nat)
    requires
        j <= 16,
    ensures
        pmj_coeff_partial(p, k, j) ^ pmj_coeff_partial(q, k, j) == pmj_coeff_partial(p ^ q, k, j),
    decreases j,
{
    if j == 0 {
        lemma_partial_step_linear(p, q, 0, 0, 0, 0);
    } else {
        lemma_pmj_coeffs_linear(p, q, k, (j - 1) as nat);
        lemma_partial_step_linear(
            p,
            q,
            (j - 1) as u16,
            pmj_coeff_partial(p, k, (j - 1) as nat),
            pmj_coeff_partial(q, k, (j - 1) as nat),
            pmj_column(k, j - 1),
        );
    }
}

/// The written-out products map each index `2^h + PMJ_XORS[k][h]` to the
/// single coefficient `h`; they are triangular (an index below `2^n` has
/// coefficients below `2^n`); only zero has no coefficient.
proof fn lemma_pmj_coeffs_basis(v: u16, n: u32)
    by (bit_vector)
    requires
        n <= 16,
    ensures

        pmj_coeffs_closed0(0x0001u16) == 0x0001u16,
        pmj_coeffs_closed0(0x0002u16) == 0x0002u16,
        pmj_coeffs_closed0(0x0006u16) == 0x0004u16,
        pmj_coeffs_closed0(0x000eu16) == 0x0008u16,
        pmj_coeffs_closed0(0x0016u16) == 0x0010u16,
        pmj_coeffs_closed0(0x002eu16) == 0x0020u16,
        pmj_coeffs_closed0(0x0076u16) == 0x0040u16,
        pmj_coeffs_closed0(0x00ceu16) == 0x0080u16,
        pmj_coeffs_closed0(0x0116u16) == 0x0100u16,
        pmj_coeffs_closed0(0x022eu16) == 0x0200u16,
        pmj_coeffs_closed0(0x0676u16) == 0x0400u16,
        pmj_coeffs_closed0(0x0eceu16) == 0x0800u16,
        pmj_coeffs_closed0(0x1716u16) == 0x1000u16,
        pmj_coeffs_closed0(0x2c2eu16) == 0x2000u16,
        pmj_coeffs_closed0(0x7076u16) == 0x4000u16,
        pmj_coeffs_closed0(0xc0ceu16) == 0x8000u16,
        pmj_coeffs_closed1(0x0001u16) == 0x0001u16,
        pmj_coeffs_closed1(0x0003u16) == 0x0002u16,
        pmj_coeffs_closed1(0x0007u16) == 0x0004u16,
        pmj_coeffs_closed1(0x000bu16) == 0x0008u16,
        pmj_coeffs_closed1(0x0017u16) == 0x0010u16,
        pmj_coeffs_closed1(0x003bu16) == 0x0020u16,
        pmj_coeffs_closed1(0x0067u16) == 0x0040u16,
        pmj_coeffs_closed1(0x008bu16) == 0x0080u16,
        pmj_coeffs_closed1(0x0117u16) == 0x0100u16,
        pmj_coeffs_closed1(0x033bu16) == 0x0200u16,
        pmj_coeffs_closed1(0x0767u16) == 0x0400u16,
        pmj_coeffs_closed1(0x0b8bu16) == 0x0800u16,
        pmj_coeffs_closed1(0x1617u16) == 0x1000u16,
        pmj_coeffs_closed1(0x383bu16) == 0x2000u16,
        pmj_coeffs_closed1(0x6067u16) == 0x4000u16,
        pmj_coeffs_closed1(0x808bu16) == 0x8000u16,
        (v as u32) < (1u32 << n) ==> (pmj_coeffs_closed0(v) as u32) < (1u32 << n),
        (v as u32) < (1u32 << n) ==> (pmj_coeffs_closed1(v) as u32) < (1u32 << n),
        pmj_coeffs_closed0(v) == 0 ==> v == 0,
        pmj_coeffs_closed1(v) == 0 ==> v == 0,
{
}

/// How coefficient bits move when coefficient `h` is added, how the indices
/// of level `h` split, and how a run of clear low bits grows.
proof fn lemma_coeff_bit_facts(cp: u16, cq: u16, e: u16, h: u32, d: u32, i1: u16, x: u16)
    by (bit_vector)
    requires
        h < 16,
        d < 16,
        e as u32 == 1u32 << h,
    ensures
        d < h ==> low_bits_clear(e ^ cp ^ cq, d) == low_bits_clear(cp ^ cq, d) && bit_set(e ^ cp ^ cq, d)
            == bit_set(cp ^ cq, d),
        d == h ==> low_bits_clear(e ^ cp ^ cq, d) == low_bits_clear(cp ^ cq, d) && bit_set(e ^ cp ^ cq, d)
            == !bit_set(cp ^ cq, d),
        d > h && cp < e && cq < e ==> !low_bits_clear(e ^ cp ^ cq, d),
        (e ^ cp) ^ (e ^ cq) == cp ^ cq,
        cp < e && cq < e ==> !bit_set(cp ^ cq, h),
        d > h && cp < e && cq < e && low_bits_clear(cp ^ cq, d) ==> cp ^ cq == 0,
        cp ^ cq == cq ^ cp,
        !bit_set(cp ^ cp, d) && low_bits_clear(cp ^ cp, d),
        low_bits_clear(cq, d) && !bit_set(cq, d) ==> low_bits_clear(cq, (d + 1) as u32),
        low_bits_clear(cq, 0),
        cp ^ cq == 0 ==> cp == cq,
        i1 < e && x < e ==> (e + i1) as u16 == ((e + x) as u16) ^ (i1 ^ x),
{
}

/// How the top bits of a child coordinate follow its parent's, and how a
/// shared interval of width `2^(32 - a)` means shared top bits.
proof fn lemma_top_bit_facts(y: u32, r: u32, h: u32, d: u32, v: u32, w: u32, a: u32)
    by (bit_vector)
    requires
        h < 16,
        d < 16,
    ensures
        d <= h ==> top_bit(pmj_child_coord(y, r, h), d) == (top_bit(y, d) != (d == h)),
        d < a && a <= 32 && (v >> ((32 - a) as u32)) == (w >> ((32 - a) as u32)) ==> top_bit(v, d)
            == top_bit(w, d),
{
}

/// Two distinct indices of one aligned block of `2^(a + b)` differ in a
/// coefficient below `a` for the first coordinate or below `b` for the second.
proof fn lemma_pmj_pair_core(i: u16, j: u16, a: u32, b: u32)
    by (bit_vector)
    requires
        a + b <= 16,
        i != j,
        (i as u32) >> ((a + b) as u32) == (j as u32) >> ((a + b) as u32),
    ensures
        !(low_bits_clear(pmj_coeffs_closed0(i ^ j), a) && low_bits_clear(pmj_coeffs_closed1(i ^ j), b)),
{
}

/// The powers of two of the levels.
proof fn lemma_level_pow2(h: nat)
    requires
        h < 16,
    ensures
        0 < pow2(h) <= 0x8000,
        (1u32 << (h as u32)) == pow2(h),
        (pow2(h) as u16) as u32 == 1u32 << (h as u32),
        pow2(h + 1) == 2 * pow2(h),
{
    lemma2_to64();
    lemma_pow2_unfold(h + 1);
    vstd::arithmetic::power2::lemma_pow2_pos(h);
    if h < 15 {
        vstd::arithmetic::power2::lemma_pow2_strictly_increases(h, 15);
    }
    vstd::bits::lemma_u32_shl_is_mul(1, h as u32);
}

/// Each index `2^h + PMJ_XORS[k][h]` has the single coefficient `h`.
pub proof fn lemma_pmj_row_coeffs(k: int, h: nat)
    requires
        0 <= k < 2,
        h < 16,
    ensures
        pmj_coeffs((pow2(h) + PMJ_XORS[k][h as int]) as u16, k) == pow2(h) as u16,
{
    lemma2_to64();
    let r = (pow2(h) + PMJ_XORS[k][h as int]) as u16;
    lemma_pmj_coeffs_closed(r);
    lemma_pmj_coeffs_basis(r, 0);
    assert(h == 0 || h == 1 || h == 2 || h == 3 || h == 4 || h == 5 || h == 6 || h == 7 || h == 8 || h == 9
        || h == 10 || h == 11 || h == 12 || h == 13 || h == 14 || h == 15);
}

/// The coefficients are triangular: an index below `2^n` has coefficients
/// below `2^n`. Only zero has no coefficient.
pub proof fn lemma_pmj_coeffs_triangular(v: u16, n: nat, k: int)
    requires
        n <= 16,
        0 <= k < 2,
    ensures
        (v as int) < pow2(n) ==> (pmj_coeffs(v, k) as int) < pow2(n),
        pmj_coeffs(v, k) == 0 ==> v == 0,
{
    lemma2_to64();
    if n < 16 {
        vstd::arithmetic::power2::lemma_pow2_strictly_increases(n, 16);
    }
    vstd::bits::lemma_u32_shl_is_mul(1, n as u32);
    lemma_pmj_coeffs_closed(v);
    lemma_pmj_coeffs_basis(v, n as u32);
}

/// Point `i` of level `h` and its parent `p`: coordinate `k` of `i` is the
/// child of that of `p`, and the coefficients of `i` are those of `p` with
/// coefficient `h` added.
proof fn lemma_pmj_parent(k: int, h: nat, i: int) -> (p: int)
    requires
        0 <= k < 2,
        h < 16,
        pow2(h) <= i < 2 * pow2(h),
    ensures
        0 <= p < pow2(h),
        p == (((i - pow2(h)) as usize) ^ (PMJ_XORS[k][h as int] as usize)) as int,
        pmj_points(16)[i][k] == pmj_child_coord(
            pmj_points(16)[p][k],
            pmj_draw((2 * i + k) as nat),
            h as u32,
        ),
        pmj_coeffs(i as u16, k) == (pow2(h) as u16) ^ pmj_coeffs(p as u16, k),
{
    lemma_level_pow2(h);
    let i1 = i - pow2(h);
    let x = PMJ_XORS[k][h as int];
    lemma_pmj_xors_bound(k, h as int);
    lemma_xor_below(i1 as usize, x as usize, h);
    let p = ((i1 as usize) ^ (x as usize)) as int;
    // The coordinate.
    lemma_pmj_points_len(h);
    lemma_pmj_points_prefix(h + 1, 16, i);
    lemma_pmj_points_prefix(h, 16, p);
    let prev = pmj_points(h);
    assert(pmj_points(h + 1) == prev + Seq::new(pow2(h), |t: int| pmj_next_point(prev, h, t))) by {
        reveal(pmj_points);
    }
    assert(pmj_points(h + 1)[i] == pmj_next_point(prev, h, i1));
    if k == 0 {
        assert(pmj_points(16)[i][k] == pmj_child_coord(pmj_points(16)[p][k], pmj_draw((2 * i + k) as nat), h as u32));
    } else {
        assert(pmj_points(16)[i][k] == pmj_child_coord(pmj_points(16)[p][k], pmj_draw((2 * i + k) as nat), h as u32));
    }
    // The coefficients.
    let e = pow2(h) as u16;
    let iu = i1 as u16;
    assert((iu ^ x) as usize == (iu as usize) ^ (x as usize));
    assert(p as u16 == iu ^ x);
    lemma_coeff_bit_facts(0, 0, e, h as u32, 0, iu, x);
    assert(i as u16 == ((e + x) as u16) ^ (p as u16));
    lemma_pmj_row_coeffs(k, h);
    lemma_pmj_coeffs_linear((e + x) as u16, p as u16, k, 16);
    p
}

/// Wherever the coefficients of points `i` and `j` (both below `2^n`) for
/// coordinate `k` agree below `d`, the coordinates differ in their top bit `d`
/// exactly when the coefficients differ in bit `d`.
proof fn lemma_pmj_top_bits(n: nat, k: int, i: int, j: int, d: u32)
    requires
        n <= 16,
        0 <= k < 2,
        0 <= i < pow2(n),
        0 <= j < pow2(n),
        d < 16,
        low_bits_clear(pmj_coeffs(i as u16, k) ^ pmj_coeffs(j as u16, k), d),
    ensures
        (top_bit(pmj_points(16)[i][k], d) != top_bit(pmj_points(16)[j][k], d)) == bit_set(
            pmj_coeffs(i as u16, k) ^ pmj_coeffs(j as u16, k),
            d,
        ),
    decreases n, (if i >= j { 0int } else { 1int }),
{
    let ci = pmj_coeffs(i as u16, k);
    let cj = pmj_coeffs(j as u16, k);
    let pts = pmj_points(16);
    lemma2_to64();
    lemma_level_pow2(0);
    if i == j {
        lemma_coeff_bit_facts(ci, ci, 1, 0, d, 0, 0);
    } else if i < j {
        lemma_coeff_bit_facts(ci, cj, 1, 0, d, 0, 0);
        lemma_pmj_top_bits(n, k, j, i, d);
    } else {
        let h = (n - 1) as nat;
        lemma_level_pow2(h);
        if i < pow2(h) {
            lemma_pmj_top_bits(h, k, i, j, d);
        } else {
            let e = pow2(h) as u16;
            let pi = lemma_pmj_parent(k, h, i);
            let cpi = pmj_coeffs(pi as u16, k);
            lemma_top_bit_facts(pts[pi][k], pmj_draw((2 * i + k) as nat), h as u32, d, 0, 0, 0);
            lemma_pmj_coeffs_triangular(pi as u16, h, k);
            if j < pow2(h) {
                lemma_pmj_coeffs_triangular(j as u16, h, k);
                lemma_coeff_bit_facts(cpi, cj, e, h as u32, d, 0, 0);
                if d as int <= h as int {
                    lemma_pmj_top_bits(h, k, pi, j, d);
                }
            } else {
                let pj = lemma_pmj_parent(k, h, j);
                let cpj = pmj_coeffs(pj as u16, k);
                lemma_top_bit_facts(pts[pj][k], pmj_draw((2 * j + k) as nat), h as u32, d, 0, 0, 0);
                lemma_pmj_coeffs_triangular(pj as u16, h, k);
                lemma_coeff_bit_facts(cpi, cpj, e, h as u32, d, 0, 0);
                if d as int <= h as int {
                    lemma_pmj_top_bits(h, k, pi, pj, d);
                } else {
                    // The parents would share all their coefficients, so they
                    // would be one point, and so would `i` and `j`.
                    lemma_pmj_coeffs_linear(pi as u16, pj as u16, k, 16);
                    lemma_pmj_coeffs_triangular((pi as u16) ^ (pj as u16), 16, k);
                    lemma_coeff_bit_facts(pi as u16, pj as u16, e, h as u32, d, 0, 0);
                    lemma_parent_distinct(
                        (i - pow2(h)) as usize,
                        (j - pow2(h)) as usize,
                        PMJ_XORS[k][h as int] as usize,
                    );
                }
            }
        }
    }
}

/// Points `i` and `j` whose coordinate `k` lies in one interval of width
/// `2^(32 - a)` have coefficients that agree below `d`, for `d <= a`.
proof fn lemma_shared_interval_coeffs(k: int, i: int, j: int, a: u32, d: u32)
    requires
        0 <= k < 2,
        0 <= i < pow2(16),
        0 <= j < pow2(16),
        d <= a <= 16,
        stratum(pmj_points(16)[i][k], a as nat) == stratum(pmj_points(16)[j][k], a as nat),
    ensures
        low_bits_clear(pmj_coeffs(i as u16, k) ^ pmj_coeffs(j as u16, k), d),
    decreases d,
{
    let c = pmj_coeffs(i as u16, k) ^ pmj_coeffs(j as u16, k);
    lemma2_to64();
    lemma_level_pow2(0);
    if d == 0 {
        lemma_coeff_bit_facts(0, c, 1, 0, 0, 0, 0);
    } else {
        let d1 = (d - 1) as u32;
        lemma_shared_interval_coeffs(k, i, j, a, d1);
        lemma_pmj_top_bits(16, k, i, j, d1);
        let v = pmj_points(16)[i][k];
        let w = pmj_points(16)[j][k];
        let s = (32 - a) as u32;
        vstd::bits::lemma_u32_shr_is_div(v, s);
        vstd::bits::lemma_u32_shr_is_div(w, s);
        lemma_top_bit_facts(0, 0, 0, d1, v, w, a);
        lemma_coeff_bit_facts(0, c, 1, 0, d1, 0, 0);
    }
}

/// The first two coordinates of the progressive sequence form a (0,2)
/// sequence: two distinct points of one aligned block of `2^(a + b)` points
/// never share both their x interval of width `2^(32 - a)` and their y
/// interval of width `2^(32 - b)`, so each of the `2^a * 2^b` cells holds
/// exactly one point of the block.
pub proof fn lemma_pmj_is_02_net(i: int, j: int, a: nat, b: nat)
    requires
        a + b <= 16,
        0 <= i < pow2(16),
        0 <= j < pow2(16),
        i != j,
        i / pow2(a + b) as int == j / pow2(a + b) as int,
    ensures
        !(stratum(pmj_points(16)[i][0], a) == stratum(pmj_points(16)[j][0], a) && stratum(
            pmj_points(16)[i][1],
            b,
        ) == stratum(pmj_points(16)[j][1], b)),
{
    if stratum(pmj_points(16)[i][0], a) == stratum(pmj_points(16)[j][0], a) && stratum(
        pmj_points(16)[i][1],
        b,
    ) == stratum(pmj_points(16)[j][1], b) {
        lemma2_to64();
        let m = a + b;
        lemma_shared_interval_coeffs(0, i, j, a as u32, a as u32);
        lemma_shared_interval_coeffs(1, i, j, b as u32, b as u32);
        lemma_pmj_coeffs_linear(i as u16, j as u16, 0, 16);
        lemma_pmj_coeffs_linear(i as u16, j as u16, 1, 16);
        lemma_pmj_coeffs_closed((i as u16) ^ (j as u16));
        vstd::bits::lemma_u32_shr_is_div(i as u32, m as u32);
        vstd::bits::lemma_u32_shr_is_div(j as u32, m as u32);
        assert((i as u16) as u32 == i as u32);
        assert((j as u16) as u32 == j as u32);
        lemma_pmj_pair_core(i as u16, j as u16, a as u32, b as u32);
    }
}

/// Two coordinates that share an interval after an exclusive-or with one
/// constant shared it before.
pub proof fn lemma_stratum_unxor(x: u32, y: u32, c: u32, a: nat)
    requires
        a <= 32,
        stratum(x ^ c, a) == stratum(y ^ c, a),
    ensures
        stratum(x, a) == stratum(y, a),
{
    lemma2_to64();
    if a >= 1 {
        if stratum(x, a) != stratum(y, a) {
            lemma_stratum_xor(x, y, c, a);
        }
    } else {
        vstd::arithmetic::div_mod::lemma_basic_div(x as int, pow2(32) as int);
        vstd::arithmetic::div_mod::lemma_basic_div(y as int, pow2(32) as int);
    }
}

/// Each pair of dimensions of the PMJ table (dimensions `0, 1` for
/// `pair == 0`, `2, 3` for `pair == 1`) is a (0,2) sequence: two distinct
/// rows of one aligned block of `2^(a + b)` rows never share both their
/// first interval of width `2^(32 - a)` and their second of width
/// `2^(32 - b)`.
pub proof fn lemma_pmj_table_is_02_net(i: u32, j: u32, a: nat, b: nat, pair: int)
    requires
        a + b <= 16,
        i != j,
        i as int / pow2(a + b) as int == j as int / pow2(a + b) as int,
        0 <= pair < 2,
    ensures
        !(stratum(pmj_row(i)[2 * pair], a) == stratum(pmj_row(j)[2 * pair], a) && stratum(
            pmj_row(i)[2 * pair + 1],
            b,
        ) == stratum(pmj_row(j)[2 * pair + 1], b)),
{
    lemma2_to64();
    let m = a + b;
    let h = if pair == 0 { pcg_output(pcg_transition(0)) } else { pcg_output(pcg_transition(1)) };
    if m >= 1 {
        lemma_lookup_rows_keep_blocks(i, j, h, m);
        lemma_lookup_row_bound(i, h);
        lemma_lookup_row_bound(j, h);
        let ri = lookup_row(i, h);
        let rj = lookup_row(j, h);
        let pts = pmj_points(16);
        assert(pmj_row(i)[2 * pair] == pmj_lookup(i, h, 0));
        assert(pmj_row(i)[2 * pair + 1] == pmj_lookup(i, h, 1));
        assert(pmj_row(j)[2 * pair] == pmj_lookup(j, h, 0));
        assert(pmj_row(j)[2 * pair + 1] == pmj_lookup(j, h, 1));
        if stratum(pmj_row(i)[2 * pair], a) == stratum(pmj_row(j)[2 * pair], a) && stratum(
            pmj_row(i)[2 * pair + 1],
            b,
        ) == stratum(pmj_row(j)[2 * pair + 1], b) {
            lemma_stratum_unxor(pts[ri][0], pts[rj][0], lookup_scramble(h, 0), a);
            lemma_stratum_unxor(pts[ri][1], pts[rj][1], lookup_scramble(h, 1), b);
            lemma_pmj_is_02_net(ri, rj, a, b);
        }
    } else {
        assert(i as int / pow2(0) as int == i);
        assert(j as int / pow2(0) as int == j);
    }
}

} // verus!
