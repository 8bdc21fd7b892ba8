//! Blue-noise key/rank tables used to give the base samplers a spatial
//! blue-noise error distribution (generalising Belcour & Heitz). A single table
//! pair serves all domains: the lookup is shifted toroidally per domain by a
//! random offset.
use vstd::prelude::*;
use crate::encode::{EncodeKey, decode16, encode16, decode_bits16, encode_bits16};
use crate::pcg::{self, pcg_output};
use crate::state::{State64Bit, state_new_domain};
use crate::stochastic::{lemma_xor_keeps_block, lemma_parent_distinct};
use vstd::arithmetic::power2::pow2;

verus! {

/// Pixel-x precision for the tables (256 pixels).
pub const XBITS: u32 = 8;

/// Pixel-y precision for the tables (256 pixels).
pub const YBITS: u32 = 8;

/// Table length (2^16).
pub const SIZE: usize = 65536;

/// A key/rank pair used to randomise a sequence.
#[derive(Clone, Copy, Debug, PartialEq, Eq, Structural)]
pub struct TableReturnValue {
    /// Scramble key for the sequence at this pixel.
    pub key: u32,
    /// Sample-index rank (XORed into the index) for this pixel.
    pub rank: u32,
}

/// A pair of blue-noise tables, one key and one rank per table entry.
#[derive(Clone, Copy, Debug)]
pub struct BnTables<'a> {
    /// Optimised blue-noise key table.
    pub key_table: &'a [u32],
    /// Optimised blue-noise rank table.
    pub rank_table: &'a [u32],
}

/// Whether a pair of tables covers every index of the 16-bit pixel encoding.
pub open spec fn bn_tables_ok(tables: BnTables) -> bool {
    tables.key_table@.len() >= SIZE && tables.rank_table@.len() >= SIZE
}

/// The table entry that a pixel reads under a shift: the pixel coordinate and
/// the shift are added axis by axis, and the sum wraps around each axis
/// (a toroidal shift).
pub open spec fn table_index(pixel: u16, shift: u16, xb: u32, yb: u32, zb: u32) -> int {
    let p = decode16(pixel, xb, yb, zb);
    let s = decode16(shift, xb, yb, zb);
    encode16(
        EncodeKey { x: (p.x + s.x) as i32, y: (p.y + s.y) as i32, z: (p.z + s.z) as i32 },
        xb,
        yb,
        zb,
    ) as int
}

/// Look up a key/rank pair, shifting the pixel coordinate toroidally by `shift`.
pub fn table_value<const XB: u32, const YB: u32, const ZB: u32>(
    pixel: u16,
    shift: u16,
    key_table: &[u32],
    rank_table: &[u32],
) -> (r: TableReturnValue)
    requires
        XB + YB + ZB <= 16,
        table_index(pixel, shift, XB, YB, ZB) < key_table@.len(),
        table_index(pixel, shift, XB, YB, ZB) < rank_table@.len(),
    ensures
        r.key == key_table@[table_index(pixel, shift, XB, YB, ZB)],
        r.rank == rank_table@[table_index(pixel, shift, XB, YB, ZB)],
{
    let p = decode_bits16::<XB, YB, ZB>(pixel);
    let s = decode_bits16::<XB, YB, ZB>(shift);
    proof {
        crate::encode::lemma_decode_bounds(pixel, XB, YB, ZB);
        crate::encode::lemma_decode_bounds(shift, XB, YB, ZB);
    }
    let index = encode_bits16::<XB, YB, ZB>(EncodeKey { x: p.x + s.x, y: p.y + s.y, z: p.z + s.z }) as usize;

    TableReturnValue { key: key_table[index], rank: rank_table[index] }
}

/// The blue-noise table entry of a state: the pixel shifted toroidally by the
/// low 16 bits of the pattern's output.
pub open spec fn bn_index(state: State64Bit) -> int {
    table_index(state.pixel_id, pcg_output(state.pattern_id) as u16, 8, 8, 0)
}

/// The key/rank pair of a state in a pair of tables.
pub open spec fn bn_entry(state: State64Bit, tables: BnTables) -> TableReturnValue {
    TableReturnValue {
        key: tables.key_table@[bn_index(state)],
        rank: tables.rank_table@[bn_index(state)],
    }
}

/// The state of a blue-noise domain's pseudo-random values: the domain keyed
/// by its own pixel.
pub open spec fn bn_rnd_state(state: State64Bit) -> State64Bit {
    state_new_domain(state, state.pixel_id as i32)
}

/// Look up the key/rank pair of a state.
pub fn bn_lookup(state: &State64Bit, tables: &BnTables) -> (r: TableReturnValue)
    requires
        bn_tables_ok(*tables),
    ensures
        r == bn_entry(*state, *tables),
{
    table_value::<8, 8, 0>(
        state.pixel_id,
        pcg::output(state.pattern_id) as u16,
        tables.key_table,
        tables.rank_table,
    )
}

/// Exclusive-or with a rank moves an aligned block of `2^m` (`m <= 16`)
/// sample indices to an aligned block of `2^m`, keeping distinct indices
/// distinct.
pub proof fn lemma_rank_keeps_blocks(p: u32, q: u32, rank: u32, m: nat)
    requires
        m <= 16,
        p as int / pow2(m) as int == q as int / pow2(m) as int,
    ensures
        (p ^ rank) as int / pow2(m) as int == (q ^ rank) as int / pow2(m) as int,
        p != q ==> p ^ rank != q ^ rank,
{
    assert((p ^ rank) as usize == (p as usize) ^ (rank as usize));
    assert((q ^ rank) as usize == (q as usize) ^ (rank as usize));
    lemma_xor_keeps_block(p as usize, q as usize, rank as usize, m);
    lemma_parent_distinct(p as usize, q as usize, rank as usize);
}

/// The little-endian 32-bit word at bytes `4 i .. 4 i + 4`.
pub open spec fn le_word(bytes: Seq<u8>, i: int) -> u32 {
    (bytes[4 * i] + 0x100 * bytes[4 * i + 1] + 0x1_0000 * bytes[4 * i + 2] + 0x100_0000 * bytes[4
        * i + 3]) as u32
}

/// Decode a table stored as little-endian 32-bit words.
pub fn decode_table(bytes: &[u8]) -> (r: Vec<u32>)
    requires
        bytes@.len() == SIZE * 4,
    ensures
        r@.len() == SIZE,
        forall|i: int| 0 <= i < SIZE ==> #[trigger] r@[i] == le_word(bytes@, i),
{
    let mut out: Vec<u32> = Vec::new();
    let mut i: usize = 0;
    while i < SIZE
        invariant
            i <= SIZE,
            bytes@.len() == SIZE * 4,
            out@.len() == i,
            forall|j: int| 0 <= j < i ==> #[trigger] out@[j] == le_word(bytes@, j),
        decreases SIZE - i,
    {
        let b0 = bytes[4 * i] as u32;
        let b1 = bytes[4 * i + 1] as u32;
        let b2 = bytes[4 * i + 2] as u32;
        let b3 = bytes[4 * i + 3] as u32;
        out.push(b0 + 0x100 * b1 + 0x1_0000 * b2 + 0x100_0000 * b3);
        i += 1;
    }
    out
}

} // verus!
