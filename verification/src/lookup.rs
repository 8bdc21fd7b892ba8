//! Randomised table lookups: a single pre-computed table can serve many
//! domains by shuffling the index and XOR-scrambling the value (random digit
//! scramble, Kollig & Keller).
use vstd::prelude::*;
use crate::permute::{owen_shuffle, shuffle, lemma_shuffle_keeps_blocks};
use crate::bits::{mask64, lemma_agree_mask, lemma_mask64_value, lemma_injective_reaches_all};
use vstd::arithmetic::power2::{pow2, lemma2_to64};
use crate::rotate::{rotate_right32, byte_distance, rotate_bytes};

verus! {

/// Random digit scramble: XOR the value with a random number. The seed must be
/// constant for a given sequence.
pub fn random_digit_scramble(value: u32, hash: u32) -> (r: u32)
    ensures
        r == value ^ hash,
{
    value ^ hash
}

/// The table row that a lookup reads: the shuffled index, wrapped to 16 bits.
pub open spec fn lookup_row(index: u32, hash: u32) -> int {
    (owen_shuffle(index, hash) & 0xffff) as int
}

/// A lookup reads one of the first 2^16 rows.
pub proof fn lemma_lookup_row_bound(index: u32, hash: u32)
    ensures
        0 <= lookup_row(index, hash) < 0x1_0000,
{
    let s = owen_shuffle(index, hash);
    assert(s & 0xffff < 0x1_0000) by (bit_vector);
}

/// The 16-bit wrap of two values in one aligned block of `2^m` (`m <= 16`)
/// that differ in their low `m` bits.
proof fn lemma_wrap_keeps_block(s1: u32, s2: u32, m: u64)
    requires
        m <= 16,
        (s1 as u64) >> m == (s2 as u64) >> m,
        (s1 as u64) & mask64(m) != (s2 as u64) & mask64(m),
    ensures
        ((s1 & 0xffff) as u64) >> m == ((s2 & 0xffff) as u64) >> m,
        (s1 & 0xffff) != (s2 & 0xffff),
{
    assert(((s1 & 0xffff) as u64) >> m == ((s2 & 0xffff) as u64) >> m && (s1 & 0xffff) != (s2 & 0xffff))
        by (bit_vector)
        requires
            m <= 16,
            (s1 as u64) >> m == (s2 as u64) >> m,
            (s1 as u64) & (((1u64 << m) - 1) as u64) != (s2 as u64) & (((1u64 << m) - 1) as u64),
    ;
}

/// The rows that the indices of an aligned block of `2^m` (`1 <= m <= 16`)
/// read are distinct and lie in one aligned block of `2^m` rows.
pub proof fn lemma_lookup_rows_keep_blocks(i: u32, j: u32, hash: u32, m: nat)
    requires
        1 <= m <= 16,
        i != j,
        i as int / pow2(m) as int == j as int / pow2(m) as int,
    ensures
        lookup_row(i, hash) / pow2(m) as int == lookup_row(j, hash) / pow2(m) as int,
        lookup_row(i, hash) != lookup_row(j, hash),
{
    let mm = m as u64;
    lemma_shuffle_keeps_blocks(i, j, hash, m);
    let x = owen_shuffle(i, hash);
    let y = owen_shuffle(j, hash);
    lemma_agree_mask(x, y, m);
    lemma_mask64_value(m);
    vstd::bits::lemma_u64_shr_is_div(x as u64, mm);
    vstd::bits::lemma_u64_shr_is_div(y as u64, mm);
    lemma_wrap_keeps_block(x, y, mm);
    vstd::bits::lemma_u64_shr_is_div((x & 0xffff) as u64, mm);
    vstd::bits::lemma_u64_shr_is_div((y & 0xffff) as u64, mm);
}

/// Distinct indices below `2^16` read distinct rows.
pub proof fn lemma_lookup_rows_distinct(i: u32, j: u32, hash: u32)
    requires
        i < 0x1_0000,
        j < 0x1_0000,
        i != j,
    ensures
        lookup_row(i, hash) != lookup_row(j, hash),
{
    lemma2_to64();
    lemma_lookup_rows_keep_blocks(i, j, hash, 16);
}

/// An index of `2^16` or more reuses the row of an index below `2^16`: the
/// indices below `2^16` read every row.
pub proof fn lemma_lookup_rows_repeat(index: u32, hash: u32)
    ensures
        exists|i: u32| i < 0x1_0000 && #[trigger] lookup_row(i, hash) == lookup_row(index, hash),
{
    let f = |k: int| lookup_row(k as u32, hash);
    assert forall|k: int, l: int| 0 <= k < 0x1_0000 && 0 <= l < 0x1_0000 && k != l implies #[trigger] f(k)
        != #[trigger] f(l) by {
        lemma_lookup_rows_distinct(k as u32, l as u32, hash);
    }
    assert forall|k: int| 0 <= k < 0x1_0000 implies 0 <= #[trigger] f(k) < 0x1_0000 by {
        lemma_lookup_row_bound(k as u32, hash);
    }
    lemma_lookup_row_bound(index, hash);
    lemma_injective_reaches_all(f, 0x1_0000, lookup_row(index, hash));
    let k = choose|k: int| 0 <= k < 0x1_0000 && #[trigger] f(k) == lookup_row(index, hash);
    assert(lookup_row(k as u32, hash) == lookup_row(index, hash));
}

/// The scramble applied to output `i` of a lookup.
pub open spec fn lookup_scramble(hash: u32, i: int) -> u32 {
    rotate_right32(hash, byte_distance(i as i32))
}

/// Compute a randomised value from a pre-computed table.
///
/// `TABLE` is the row width of the table, `DEPTH` (1..=4, `<= TABLE`) the
/// output count. The index is shuffled progressively; an index beyond the table
/// length wraps (mask to 16 bits) and reuses samples.
pub fn shuffled_scrambled_lookup<const TABLE: usize, const DEPTH: usize>(
    index: u32,
    hash: u32,
    table: &[[u32; TABLE]],
) -> (r: [u32; DEPTH])
    requires
        TABLE >= DEPTH,
        1 <= DEPTH <= 4,
        lookup_row(index, hash) < table@.len(),
    ensures
        forall|i: int|
            0 <= i < DEPTH ==> #[trigger] r[i] == table@[lookup_row(index, hash)][i]
                ^ lookup_scramble(hash, i),
{
    let shuffled = shuffle(index, hash);
    let row_index = (shuffled & 0xffff) as usize;

    let mut sample = [0u32; DEPTH];
    let mut i: usize = 0;
    while i < DEPTH
        invariant
            DEPTH <= 4,
            TABLE >= DEPTH,
            i <= DEPTH,
            sample@.len() == DEPTH,
            row_index == lookup_row(index, hash),
            row_index < table@.len(),
            forall|j: int|
                0 <= j < i ==> #[trigger] sample[j] == table@[row_index as int][j]
                    ^ lookup_scramble(hash, j),
        decreases DEPTH - i,
    {
        let row = &table[row_index];
        sample[i] = random_digit_scramble(row[i], rotate_bytes(hash, i as i32));
        i += 1;
    }
    sample
}

} // verus!
