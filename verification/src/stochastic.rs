//! Progressive multi-jittered (0,2) sequence construction (Helmer et al.,
//! "Stochastic Generation of (t,s) Sample Sequences"). Builds the first pair
//! of dimensions; the second pair is a randomisation of the first. Used to fill
//! the PMJ sampler's table.
use vstd::prelude::*;
use vstd::arithmetic::power2::{pow2, lemma2_to64, lemma_pow2_unfold, lemma_pow2_pos};
use crate::lookup::{
    shuffled_scrambled_lookup, lookup_row, lookup_scramble, lemma_lookup_row_bound,
    lemma_lookup_rows_keep_blocks,
};
use crate::bits::{stratum, lemma_stratum_xor};
use crate::pcg::{
    pcg_draw, pcg_advance, pcg_init_state, pcg_output, pcg_transition, init, rng, hash,
    lemma_stream_step,
};

verus! {

/// XOR tables for the progressive (0,2) construction.
pub const PMJ_XORS: [[u16; 16]; 2] = [
    [
        0b0000000000000000, 0b0000000000000000, 0b0000000000000010, 0b0000000000000110,
        0b0000000000000110, 0b0000000000001110, 0b0000000000110110, 0b0000000001001110,
        0b0000000000010110, 0b0000000000101110, 0b0000001001110110, 0b0000011011001110,
        0b0000011100010110, 0b0000110000101110, 0b0011000001110110, 0b0100000011001110,
    ],
    [
        0b0000000000000000, 0b0000000000000001, 0b0000000000000011, 0b0000000000000011,
        0b0000000000000111, 0b0000000000011011, 0b0000000000100111, 0b0000000000001011,
        0b0000000000010111, 0b0000000100111011, 0b0000001101100111, 0b0000001110001011,
        0b0000011000010111, 0b0001100000111011, 0b0010000001100111, 0b0000000010001011,
    ],
];

/// The number of points the construction builds.
pub open spec fn pmj_size() -> nat {
    0x1_0000
}

/// The `t`-th random value the construction consumes, from the default state.
pub open spec fn pmj_draw(t: nat) -> u32 {
    pcg_draw(pcg_init_state(), t)
}

/// Coordinate `k` of point `2^level + i1`, made from the earlier point
/// `i1 ^ PMJ_XORS[k][level]`: its stratum at the new resolution is the other
/// half of that point's stratum, and the bits below are random.
pub open spec fn pmj_next_coord(prev: Seq<[u32; 2]>, level: nat, i1: int, k: int) -> u32 {
    let j = (i1 as usize) ^ (PMJ_XORS[k][level as int] as usize);
    let swap = 0x8000_0000u32 >> (level as u32);
    let mask = (swap - 1) as u32;
    let i = pow2(level) + i1;
    ((prev[j as int][k] & !mask) ^ swap) | (pmj_draw((2 * i + k) as nat) & mask)
}

/// Point `2^level + i1`, made from the points before it.
pub open spec fn pmj_next_point(prev: Seq<[u32; 2]>, level: nat, i1: int) -> [u32; 2] {
    [pmj_next_coord(prev, level, i1, 0), pmj_next_coord(prev, level, i1, 1)]
}

/// The points `0 .. 2^n` of the progressive (0,2) sequence.
#[verifier::opaque]
pub open spec fn pmj_points(n: nat) -> Seq<[u32; 2]>
    decreases n,
{
    if n == 0 {
        seq![[pmj_draw(0), pmj_draw(1)]]
    } else {
        let prev = pmj_points((n - 1) as nat);
        prev + Seq::new(
            pow2((n - 1) as nat),
            |i1: int| pmj_next_point(prev, (n - 1) as nat, i1),
        )
    }
}

/// Output `d` of the randomised lookup of index `i` under `hash` into the
/// sequence.
pub open spec fn pmj_lookup(i: u32, hash: u32, d: int) -> u32 {
    pmj_points(16)[lookup_row(i, hash)][d] ^ lookup_scramble(hash, d)
}

/// Row `i` of the PMJ table: two randomised lookups into the sequence, the
/// first with `hash(0)`, the second with `hash(1)`.
pub open spec fn pmj_row(i: u32) -> [u32; 4] {
    let h0 = pcg_output(pcg_transition(0));
    let h1 = pcg_output(pcg_transition(1));
    [pmj_lookup(i, h0, 0), pmj_lookup(i, h0, 1), pmj_lookup(i, h1, 0), pmj_lookup(i, h1, 1)]
}

/// The sequence for `2^n` points has `2^n` points, and it extends the
/// sequence for fewer points.
pub proof fn lemma_pmj_points_len(n: nat)
    ensures
        pmj_points(n).len() == pow2(n),
    decreases n,
{
    lemma2_to64();
    reveal(pmj_points);
    if n > 0 {
        lemma_pmj_points_len((n - 1) as nat);
        lemma_pow2_unfold(n);
    }
}

/// The tables of XOR offsets for level `n` stay below `2^n`.
pub proof fn lemma_pmj_xors_bound(k: int, n: int)
    requires
        0 <= k < 2,
        0 <= n < 16,
    ensures
        (PMJ_XORS[k][n] as int) < pow2(n as nat),
{
    lemma2_to64();
}

/// The levels of the construction: `2^n` below `2^16` means `n < 16`.
proof fn lemma_level_bounds(n: nat)
    ensures
        pow2(n) < 0x1_0000 ==> n < 16 && 2 * pow2(n) <= 0x1_0000,
        pow2(n + 1) == 2 * pow2(n),
        pow2(n) <= 0x1_0000 && pow2(n) >= 0x1_0000 ==> n == 16,
        pow2(16) == 0x1_0000,
{
    lemma2_to64();
    lemma_pow2_unfold(n + 1);
    if n >= 16 {
        if n > 16 {
            vstd::arithmetic::power2::lemma_pow2_strictly_increases(16, n);
        }
    } else if n < 15 {
        vstd::arithmetic::power2::lemma_pow2_strictly_increases(n, 15);
    }
}

/// A level of the construction: the points `2^n .. 2^(n+1)` follow the
/// points before them.
proof fn lemma_pmj_points_step(n: nat, b: Seq<[u32; 2]>)
    requires
        forall|i: int| 0 <= i < pow2(n) ==> #[trigger] b[i] == pmj_points(n)[i],
        forall|i: int|
            pow2(n) <= i < 2 * pow2(n) ==> #[trigger] b[i] == pmj_next_point(pmj_points(n), n, i - pow2(n)),
    ensures
        pmj_points(n + 1).len() == 2 * pow2(n),
        forall|i: int| 0 <= i < 2 * pow2(n) ==> #[trigger] b[i] == pmj_points(n + 1)[i],
{
    lemma_pow2_unfold(n + 1);
    lemma_pmj_points_len(n);
    lemma_pmj_points_len(n + 1);
    reveal(pmj_points);
    let next = pmj_points(n + 1);
    assert forall|i: int| 0 <= i < 2 * pow2(n) implies #[trigger] b[i] == next[i] by {
    }
}

/// Exclusive-or of two values below `2^n` stays below `2^n`.
pub proof fn lemma_xor_below(a: usize, b: usize, n: nat)
    requires
        n < 16,
        a < pow2(n),
        b < pow2(n),
    ensures
        (a ^ b) < pow2(n),
{
    lemma2_to64();
    vstd::bits::lemma_usize_shl_is_mul(1, n as usize);
    let s = n as usize;
    assert((a ^ b) < (1usize << s)) by (bit_vector)
        requires
            s < 16,
            a < (1usize << s),
            b < (1usize << s),
    ;
}

/// The stratum bit of level `n` is at least `2^16`, so its mask is well formed.
pub proof fn lemma_swap_bit(n: u32)
    requires
        n < 16,
    ensures
        (0x8000_0000u32 >> n) >= 0x1_0000,
{
    vstd::bits::lemma_u32_shr_is_div(0x8000_0000u32, n);
    lemma2_to64();
    lemma_pow2_pos(n as nat);
    if n < 15 {
        vstd::arithmetic::power2::lemma_pow2_strictly_increases(n as nat, 15);
    }
    assert(0x8000_0000u32 as nat / pow2(n as nat) >= 0x1_0000) by (nonlinear_arith)
        requires pow2(n as nat) <= 0x8000, pow2(n as nat) > 0;
}

/// Coordinate `k` of point `2^log_n + i1`, drawing its random low bits from
/// `state`.
fn pmj_coord(
    buffer: &[[u32; 2]],
    log_n: u32,
    i1: usize,
    k: usize,
    state: &mut u32,
    Ghost(points): Ghost<Seq<[u32; 2]>>,
) -> (r: u32)
    requires
        log_n < 16,
        k < 2,
        i1 < pow2(log_n as nat),
        points.len() == pow2(log_n as nat),
        buffer@.len() >= pow2(log_n as nat),
        forall|i: int| 0 <= i < pow2(log_n as nat) ==> #[trigger] buffer@[i] == points[i],
        *old(state) == pcg_advance(pcg_init_state(), (2 * (pow2(log_n as nat) + i1) + k) as nat),
    ensures
        r == pmj_next_coord(points, log_n as nat, i1 as int, k as int),
        *final(state) == pcg_advance(pcg_init_state(), (2 * (pow2(log_n as nat) + i1) + k + 1) as nat),
{
    let swap_bit = 0x8000_0000u32 >> log_n;
    proof {
        lemma_swap_bit(log_n);
    }
    let bit_mask = swap_bit - 1;

    let xor = PMJ_XORS[k][log_n as usize] as usize;
    proof {
        lemma_pmj_xors_bound(k as int, log_n as int);
        lemma_xor_below(i1, xor, log_n as nat);
    }
    let j = i1 ^ xor;

    let prev_stratum = buffer[j][k] & !bit_mask;
    let next_stratum = prev_stratum ^ swap_bit;

    let ghost before = *state;
    let draw = rng(state);
    proof {
        lemma_stream_step(pcg_init_state(), (2 * (pow2(log_n as nat) + i1) + k) as nat, before, *state);
    }
    next_stratum | (draw & bit_mask)
}

/// Point `2^log_n + i1`, drawing its random low bits from `state`.
fn pmj_point(
    buffer: &[[u32; 2]],
    log_n: u32,
    i1: usize,
    state: &mut u32,
    Ghost(points): Ghost<Seq<[u32; 2]>>,
) -> (r: [u32; 2])
    requires
        log_n < 16,
        i1 < pow2(log_n as nat),
        points.len() == pow2(log_n as nat),
        buffer@.len() >= pow2(log_n as nat),
        forall|i: int| 0 <= i < pow2(log_n as nat) ==> #[trigger] buffer@[i] == points[i],
        *old(state) == pcg_advance(pcg_init_state(), 2 * (pow2(log_n as nat) + i1) as nat),
    ensures
        r == pmj_next_point(points, log_n as nat, i1 as int),
        *final(state) == pcg_advance(pcg_init_state(), 2 * (pow2(log_n as nat) + i1 + 1) as nat),
{
    let c0 = pmj_coord(buffer, log_n, i1, 0, state, Ghost(points));
    let c1 = pmj_coord(buffer, log_n, i1, 1, state, Ghost(points));
    [c0, c1]
}

/// Add the points `2^log_n .. 2^(log_n + 1)` to `buffer`.
fn pmj_fill_level(
    buffer: &mut Vec<[u32; 2]>,
    log_n: u32,
    state: &mut u32,
    Ghost(points): Ghost<Seq<[u32; 2]>>,
)
    requires
        log_n < 16,
        old(buffer)@.len() == pmj_size(),
        points.len() == pow2(log_n as nat),
        2 * pow2(log_n as nat) <= pmj_size(),
        forall|i: int| 0 <= i < pow2(log_n as nat) ==> #[trigger] old(buffer)@[i] == points[i],
        *old(state) == pcg_advance(pcg_init_state(), 2 * pow2(log_n as nat)),
    ensures
        final(buffer)@.len() == pmj_size(),
        forall|i: int| 0 <= i < pow2(log_n as nat) ==> #[trigger] final(buffer)@[i] == points[i],
        forall|i: int|
            pow2(log_n as nat) <= i < 2 * pow2(log_n as nat) ==> #[trigger] final(buffer)@[i]
                == pmj_next_point(points, log_n as nat, i - pow2(log_n as nat)),
        *final(state) == pcg_advance(pcg_init_state(), 4 * pow2(log_n as nat)),
{
    let ghost p = pow2(log_n as nat);
    let prev_len: usize = 1usize << log_n;
    proof {
        vstd::bits::lemma_usize_shl_is_mul(1, log_n as usize);
        vstd::arithmetic::power2::lemma2_to64();
    }
    let nsamples = buffer.len();
    let mut i1: usize = 0;
    let mut i2: usize = prev_len;
    while i1 < prev_len && i2 < nsamples
        invariant
            nsamples == pmj_size(),
            buffer@.len() == nsamples,
            log_n < 16,
            prev_len == p,
            p == pow2(log_n as nat),
            2 * p <= nsamples,
            i1 <= prev_len,
            i2 == prev_len + i1,
            *state == pcg_advance(pcg_init_state(), 2 * i2 as nat),
            points.len() == p,
            forall|i: int| 0 <= i < p ==> #[trigger] buffer@[i] == points[i],
            forall|i: int|
                p <= i < i2 ==> #[trigger] buffer@[i] == pmj_next_point(points, log_n as nat, i - p),
        ensures
            i1 == prev_len,
            buffer@.len() == nsamples,
            *state == pcg_advance(pcg_init_state(), 2 * i2 as nat),
            forall|i: int| 0 <= i < p ==> #[trigger] buffer@[i] == points[i],
            forall|i: int|
                p <= i < 2 * p ==> #[trigger] buffer@[i] == pmj_next_point(points, log_n as nat, i - p),
        decreases prev_len - i1,
    {
        let row = pmj_point(buffer.as_slice(), log_n, i1, state, Ghost(points));
        buffer.set(i2, row);
        i1 += 1;
        i2 += 1;
    }
}

/// Row `i` of the PMJ table, from the finished sequence.
fn pmj_table_row(i: u32, h0: u32, h1: u32, buffer: &[[u32; 2]]) -> (r: [u32; 4])
    requires
        buffer@ == pmj_points(16),
        h0 == pcg_output(pcg_transition(0)),
        h1 == pcg_output(pcg_transition(1)),
    ensures
        r == pmj_row(i),
{
    proof {
        lemma_pmj_points_len(16);
        lemma2_to64();
        lemma_lookup_row_bound(i, h0);
        lemma_lookup_row_bound(i, h1);
    }
    let a = shuffled_scrambled_lookup::<2, 2>(i, h0, buffer);
    let b = shuffled_scrambled_lookup::<2, 2>(i, h1, buffer);
    [a[0], a[1], b[0], b[1]]
}

/// Fill the first `2^16` rows of `table` from the finished sequence.
fn fill_pmj_table(table: &mut [[u32; 4]], buffer: &[[u32; 2]])
    requires
        buffer@ == pmj_points(16),
        old(table)@.len() >= pmj_size(),
    ensures
        final(table)@.len() == old(table)@.len(),
        forall|i: int| 0 <= i < pmj_size() ==> #[trigger] final(table)@[i] == pmj_row(i as u32),
        forall|i: int| pmj_size() <= i < old(table)@.len() ==> #[trigger] final(table)@[i] == old(table)@[i],
{
    let h0 = hash(0);
    let h1 = hash(1);
    let mut i: usize = 0;
    while i < 0x1_0000
        invariant
            buffer@ == pmj_points(16),
            i <= 0x1_0000,
            h0 == pcg_output(pcg_transition(0)),
            h1 == pcg_output(pcg_transition(1)),
            table@.len() == old(table)@.len(),
            old(table)@.len() >= 0x1_0000,
            forall|m: int| 0 <= m < i ==> #[trigger] table@[m] == pmj_row(m as u32),
            forall|m: int| i <= m < old(table)@.len() ==> #[trigger] table@[m] == old(table)@[m],
        decreases 0x1_0000 - i,
    {
        let row = pmj_table_row(i as u32, h0, h1, buffer);
        table[i] = row;
        i += 1;
    }
}

/// The sequence for `2^n` points begins with the sequence for `2^m <= 2^n`
/// points.
pub proof fn lemma_pmj_points_prefix(m: nat, n: nat, i: int)
    requires
        m <= n,
        0 <= i < pow2(m),
    ensures
        pmj_points(n)[i] == pmj_points(m)[i],
    decreases n,
{
    if n > m {
        lemma_pmj_points_prefix(m, (n - 1) as nat, i);
        lemma_pmj_points_len((n - 1) as nat);
        if m < n - 1 {
            vstd::arithmetic::power2::lemma_pow2_strictly_increases(m, (n - 1) as nat);
        }
        reveal(pmj_points);
    }
}

/// A new coordinate at level `m` lies in the other half of its parent's
/// interval of width `2^(32 - m)`.
proof fn lemma_new_coord_stratum(v: u32, r: u32, m: u32)
    requires
        m < 16,
    ensures
        ({
            let swap = 0x8000_0000u32 >> m;
            let mask = (swap - 1) as u32;
            let c = ((v & !mask) ^ swap) | (r & mask);
            stratum(c, (m + 1) as nat) == (stratum(v, (m + 1) as nat) as u32 ^ 1) as int
        }),
        stratum(v, (m + 1) as nat) / 2 == stratum(v, m as nat),
        (stratum(v, (m + 1) as nat) as u32 ^ 1) as int / 2 == stratum(v, m as nat),
        (stratum(v, (m + 1) as nat) as u32 ^ 1) as int != stratum(v, (m + 1) as nat),
{
    let swap = 0x8000_0000u32 >> m;
    let mask = (swap - 1) as u32;
    let c = ((v & !mask) ^ swap) | (r & mask);
    lemma_swap_bit(m);
    let s = (31 - m) as u32;
    vstd::bits::lemma_u32_shr_is_div(v, s);
    vstd::bits::lemma_u32_shr_is_div(c, s);
    let t = v >> s;
    assert(c >> s == t ^ 1 && (t ^ 1) / 2 == t / 2 && t ^ 1 != t) by (bit_vector)
        requires
            m < 16,
            s == 31 - m,
            t == v >> s,
            c == ((v & !((((0x8000_0000u32 >> m) - 1) as u32))) ^ (0x8000_0000u32 >> m)) | (r & ((((0x8000_0000u32
                >> m) - 1) as u32))),
    ;
    lemma2_to64();
    lemma_pow2_pos(s as nat);
    lemma_pow2_unfold((32 - m) as nat);
    vstd::arithmetic::div_mod::lemma_div_denominator(v as int, pow2(s as nat) as int, 2);
}

/// Parents of distinct points of a level are distinct.
pub proof fn lemma_parent_distinct(a: usize, b: usize, c: usize)
    ensures
        a != b ==> (a ^ c) != (b ^ c),
{
    assert(a != b ==> (a ^ c) != (b ^ c)) by (bit_vector);
}

/// Each coordinate of the `2^m` points of level `m` is stratified: distinct
/// points lie in distinct intervals of width `2^(32 - m)`.
proof fn lemma_pmj_level_stratified(m: nat, k: int)
    requires
        m <= 16,
        0 <= k < 2,
    ensures
        forall|i: int, j: int|
            0 <= i < pow2(m) && 0 <= j < pow2(m) && i != j ==> stratum(#[trigger] pmj_points(m)[i][k], m)
                != stratum(#[trigger] pmj_points(m)[j][k], m),
    decreases m,
{
    lemma2_to64();
    if m > 0 {
        let n = (m - 1) as nat;
        lemma_pmj_level_stratified(n, k);
        lemma_pmj_points_len(n);
        lemma_pmj_points_len(m);
        lemma_pow2_unfold(m);
        let p = pmj_points(n);
        let q = pmj_points(m);
        let half = pow2(n) as int;
        assert(q =~= p + Seq::new(pow2(n), |i1: int| pmj_next_point(p, n, i1))) by {
            reveal(pmj_points);
        }
        if n < 15 {
            vstd::arithmetic::power2::lemma_pow2_strictly_increases(n, 15);
        }
        assert forall|i: int, j: int|
            0 <= i < pow2(m) && 0 <= j < pow2(m) && i != j implies stratum(#[trigger] q[i][k], m)
                != stratum(#[trigger] q[j][k], m) by {
            // The parent of a new point, and the interval facts of every point.
            let pi = if i < half { i } else { ((i - half) as usize ^ (PMJ_XORS[k][n as int] as usize)) as int };
            let pj = if j < half { j } else { ((j - half) as usize ^ (PMJ_XORS[k][n as int] as usize)) as int };
            if i >= half {
                lemma_pmj_xors_bound(k, n as int);
                lemma_xor_below((i - half) as usize, PMJ_XORS[k][n as int] as usize, n);
                lemma_new_coord_stratum(p[pi][k], pmj_draw((2 * i + k) as nat), n as u32);
            } else {
                lemma_new_coord_stratum(q[i][k], 0, n as u32);
            }
            if j >= half {
                lemma_pmj_xors_bound(k, n as int);
                lemma_xor_below((j - half) as usize, PMJ_XORS[k][n as int] as usize, n);
                lemma_new_coord_stratum(p[pj][k], pmj_draw((2 * j + k) as nat), n as u32);
            } else {
                lemma_new_coord_stratum(q[j][k], 0, n as u32);
            }
            if i >= half && j >= half {
                lemma_parent_distinct((i - half) as usize, (j - half) as usize, PMJ_XORS[k][n as int] as usize);
            }
            assert(stratum(p[pi][k], n) != stratum(p[pj][k], n) || pi == pj);
        }
    }
}

/// A coarser interval is the finer one divided down: for `m <= l <= 32`, the
/// interval of width `2^(32 - m)` is that of width `2^(32 - l)` divided by
/// `2^(l - m)`.
proof fn lemma_stratum_coarsen(v: u32, m: nat, l: nat)
    requires
        m <= l <= 32,
    ensures
        stratum(v, m) == stratum(v, l) / pow2((l - m) as nat) as int,
{
    lemma_pow2_pos((32 - l) as nat);
    lemma_pow2_pos((l - m) as nat);
    vstd::arithmetic::power2::lemma_pow2_adds((32 - l) as nat, (l - m) as nat);
    vstd::arithmetic::div_mod::lemma_div_denominator(
        v as int,
        pow2((32 - l) as nat) as int,
        pow2((l - m) as nat) as int,
    );
}

/// With `d > 0`, `x < q * d` exactly when `x / d < q`.
proof fn lemma_below_multiple(x: int, d: int, q: int)
    requires
        x >= 0,
        d > 0,
    ensures
        (x < q * d) <==> (x / d < q),
        x >= q * d && q >= 0 ==> (x - q * d) / d == x / d - q,
{
    vstd::arithmetic::div_mod::lemma_fundamental_div_mod(x, d);
    vstd::arithmetic::div_mod::lemma_mod_bound(x, d);
    let r = x % d;
    let t = x / d;
    assert((x < q * d) <==> (t < q)) by (nonlinear_arith)
        requires x == d * t + r, 0 <= r < d, d > 0;
    if x >= q * d && q >= 0 {
        assert(x - q * d == (t - q) * d + r) by (nonlinear_arith)
            requires x == d * t + r;
        vstd::arithmetic::div_mod::lemma_fundamental_div_mod_converse(x - q * d, d, t - q, r);
    }
}

/// Exclusive-or with a constant keeps indices in one aligned block of
/// `2^m` in one block.
pub proof fn lemma_xor_keeps_block(a: usize, b: usize, c: usize, m: nat)
    requires
        m <= 16,
        a as int / pow2(m) as int == b as int / pow2(m) as int,
    ensures
        (a ^ c) as int / pow2(m) as int == (b ^ c) as int / pow2(m) as int,
{
    let s = m as usize;
    vstd::bits::lemma_usize_shr_is_div(a, s);
    vstd::bits::lemma_usize_shr_is_div(b, s);
    vstd::bits::lemma_usize_shr_is_div(a ^ c, s);
    vstd::bits::lemma_usize_shr_is_div(b ^ c, s);
    assert((a ^ c) >> s == (b ^ c) >> s) by (bit_vector)
        requires
            a >> s == b >> s,
    ;
}

/// Each coordinate of every aligned block of `2^m` points among the first
/// `2^n` points is stratified: distinct points of one block lie in distinct
/// intervals of width `2^(32 - m)`.
proof fn lemma_pmj_blocks_stratified(n: nat, k: int)
    requires
        n <= 16,
        0 <= k < 2,
    ensures
        forall|m: nat, i: int, j: int|
            #![trigger stratum(pmj_points(n)[i][k], m), stratum(pmj_points(n)[j][k], m)]
            m <= n && 0 <= i < pow2(n) && 0 <= j < pow2(n) && i != j && i / pow2(m) as int == j
                / pow2(m) as int ==> stratum(pmj_points(n)[i][k], m) != stratum(pmj_points(n)[j][k], m),
    decreases n,
{
    lemma2_to64();
    lemma_pmj_level_stratified(n, k);
    if n > 0 {
        let l = (n - 1) as nat;
        lemma_pmj_blocks_stratified(l, k);
        lemma_pmj_points_len(l);
        lemma_pmj_points_len(n);
        lemma_pow2_unfold(n);
        let p = pmj_points(l);
        let q = pmj_points(n);
        let half = pow2(l) as int;
        assert(q =~= p + Seq::new(pow2(l), |i1: int| pmj_next_point(p, l, i1))) by {
            reveal(pmj_points);
        }
        if l < 15 {
            vstd::arithmetic::power2::lemma_pow2_strictly_increases(l, 15);
        }
        assert forall|m: nat, i: int, j: int|
            #![trigger stratum(q[i][k], m), stratum(q[j][k], m)]
            m <= n && 0 <= i < pow2(n) && 0 <= j < pow2(n) && i != j && i / pow2(m) as int == j
                / pow2(m) as int implies stratum(q[i][k], m) != stratum(q[j][k], m) by {
            if m < n {
                let d = pow2(m) as int;
                let blocks = pow2((l - m) as nat) as int;
                lemma_pow2_pos(m);
                vstd::arithmetic::power2::lemma_pow2_adds(m, (l - m) as nat);
                assert(half == blocks * d) by (nonlinear_arith)
                    requires half == d * blocks;
                lemma_below_multiple(i, d, blocks);
                lemma_below_multiple(j, d, blocks);
                if i >= half {
                    let i1 = i - half;
                    let j1 = j - half;
                    let x = PMJ_XORS[k][l as int] as usize;
                    let pi = ((i1 as usize) ^ x) as int;
                    let pj = ((j1 as usize) ^ x) as int;
                    lemma_pmj_xors_bound(k, l as int);
                    lemma_xor_below(i1 as usize, x, l);
                    lemma_xor_below(j1 as usize, x, l);
                    lemma_xor_keeps_block(i1 as usize, j1 as usize, x, m);
                    lemma_parent_distinct(i1 as usize, j1 as usize, x);
                    assert(stratum(p[pi][k], m) != stratum(p[pj][k], m));
                    lemma_new_coord_stratum(p[pi][k], pmj_draw((2 * i + k) as nat), l as u32);
                    lemma_new_coord_stratum(p[pj][k], pmj_draw((2 * j + k) as nat), l as u32);
                    lemma_new_coord_stratum(q[i][k], 0, l as u32);
                    lemma_new_coord_stratum(q[j][k], 0, l as u32);
                    lemma_stratum_coarsen(q[i][k], m, l);
                    lemma_stratum_coarsen(q[j][k], m, l);
                    lemma_stratum_coarsen(p[pi][k], m, l);
                    lemma_stratum_coarsen(p[pj][k], m, l);
                } else {
                    assert(stratum(p[i][k], m) != stratum(p[j][k], m));
                }
            }
        }
    }
}

/// Each coordinate of the first `2^m` points (`m <= n <= 16`) of the
/// progressive sequence is stratified: distinct points lie in distinct
/// intervals of width `2^(32 - m)`, one point in each.
pub proof fn lemma_pmj_points_stratified(n: nat, m: nat, k: int, i: int, j: int)
    requires
        m <= n <= 16,
        0 <= k < 2,
        0 <= i < pow2(m),
        0 <= j < pow2(m),
        i != j,
    ensures
        stratum(pmj_points(n)[i][k], m) != stratum(pmj_points(n)[j][k], m),
{
    lemma_pmj_level_stratified(m, k);
    lemma_pmj_points_prefix(m, n, i);
    lemma_pmj_points_prefix(m, n, j);
}

/// Fill `table` (length at least `nsamples`, each a 4D sample) with a
/// progressive multi-jittered (0,2) sequence.
///
/// `nsamples` must be `2^16`: the final randomised lookup shuffles indices
/// across the full 16-bit range, so a smaller table would be indexed out of
/// bounds.
pub fn stochastic_pmj_init(nsamples: usize, table: &mut [[u32; 4]])
    requires
        nsamples == pmj_size(),
        old(table)@.len() >= nsamples,
    ensures
        final(table)@.len() == old(table)@.len(),
        forall|i: int| 0 <= i < nsamples ==> #[trigger] final(table)@[i] == pmj_row(i as u32),
        forall|i: int| nsamples <= i < old(table)@.len() ==> #[trigger] final(table)@[i] == old(table)@[i],
{
    let mut buffer: Vec<[u32; 2]> = vec![[0u32; 2]; nsamples];

    let mut state = init();
    let ghost st0 = state;
    let first = rng(&mut state);
    proof { lemma_stream_step(pcg_init_state(), 0, st0, state); }
    let ghost st1 = state;
    let second = rng(&mut state);
    proof { lemma_stream_step(pcg_init_state(), 1, st1, state); }
    buffer.set(0, [first, second]);
    proof {
        lemma2_to64();
        reveal(pmj_points);
        assert(pmj_points(0)[0] == [pmj_draw(0), pmj_draw(1)]);
        assert(pmj_points(0).len() == 1);
    }

    let mut prev_len: usize = 1;
    let mut log_n: u32 = 0;
    while prev_len < nsamples
        invariant
            nsamples == pmj_size(),
            buffer@.len() == nsamples,
            log_n <= 16,
            prev_len == pow2(log_n as nat),
            1 <= prev_len <= nsamples,
            state == pcg_advance(pcg_init_state(), 2 * prev_len as nat),
            pmj_points(log_n as nat).len() == prev_len,
            forall|i: int| 0 <= i < prev_len ==> #[trigger] buffer@[i] == pmj_points(log_n as nat)[i],
        decreases nsamples - prev_len,
    {
        proof {
            lemma_level_bounds(log_n as nat);
        }
        let ghost points = pmj_points(log_n as nat);
        pmj_fill_level(&mut buffer, log_n, &mut state, Ghost(points));
        proof {
            lemma_pmj_points_step(log_n as nat, buffer@);
        }
        prev_len = prev_len * 2;
        log_n += 1;
    }
    proof {
        lemma_level_bounds(log_n as nat);
    }

    proof {
        assert(buffer@ =~= pmj_points(16));
    }
    fill_pmj_table(table, buffer.as_slice());
}

/// Each of the four coordinates of every aligned block of `2^m` rows
/// (`1 <= m <= 16`) of the PMJ table is stratified: distinct rows of one block
/// lie in distinct intervals of width `2^(32 - m)`.
pub proof fn lemma_pmj_table_stratified(i: u32, j: u32, m: nat, d: int)
    requires
        1 <= m <= 16,
        i != j,
        i as int / pow2(m) as int == j as int / pow2(m) as int,
        0 <= d < 4,
    ensures
        stratum(pmj_row(i)[d], m) != stratum(pmj_row(j)[d], m),
{
    lemma2_to64();
    let h = if d < 2 { pcg_output(pcg_transition(0)) } else { pcg_output(pcg_transition(1)) };
    let c = if d < 2 { d } else { d - 2 };
    lemma_lookup_rows_keep_blocks(i, j, h, m);
    lemma_lookup_row_bound(i, h);
    lemma_lookup_row_bound(j, h);
    lemma_pmj_blocks_stratified(16, c);
    let ri = lookup_row(i, h);
    let rj = lookup_row(j, h);
    assert(stratum(pmj_points(16)[ri][c], m) != stratum(pmj_points(16)[rj][c], m));
    lemma_stratum_xor(pmj_points(16)[ri][c], pmj_points(16)[rj][c], lookup_scramble(h, c), m);
    assert(pmj_row(i)[d] == pmj_lookup(i, h, c));
    assert(pmj_row(j)[d] == pmj_lookup(j, h, c));
}

} // verus!
