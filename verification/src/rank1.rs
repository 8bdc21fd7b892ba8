//! A rank-1 lattice (Hickernell et al., "Weighted Compound Integration Rules
//! with Higher Order Convergence for all N") made progressive with a radical
//! inversion of the sample index, and randomised with toroidal shifts.
use vstd::prelude::*;
use crate::bits::{wrapping_add32, wrapping_mul32, agree_low, lemma_agree_mask, lemma_mask64_value};
use vstd::arithmetic::power2::pow2;
use crate::pcg::{pcg_output, pcg_draw, pcg_advance, output, rng, lemma_stream_step};
use crate::permute::{
    laine_karras, reverse_and_shuffle, lemma_laine_karras_low_bits, lemma_laine_karras_injective,
    lemma_reverse_block_low_agree,
};
use crate::reverse::{reverse32, lemma_reverse32_involution};

verus! {

/// Generator vector from the Hickernell et al. publication.
pub const LATTICE: [u32; 4] = [1, 364981, 245389, 97823];

/// Toroidal shift: offset a value, relying on integer wraparound.
fn rotate(value: u32, distance: u32) -> (r: u32)
    ensures
        r == wrapping_add32(value, distance),
{
    value.wrapping_add(distance)
}

/// Rank-1 lattice value at a bit-reversed index for a given dimension (0..4).
pub fn lattice_reversed_index(index: u32, dimension: usize) -> (r: u32)
    requires
        dimension <= 3,
    ensures
        r == wrapping_mul32(LATTICE[dimension as int], index),
{
    LATTICE[dimension].wrapping_mul(index)
}

/// Dimension `dimension` of the randomised lattice point at `index` for the
/// pattern `pattern_id`: the generator times the shuffled index, shifted by
/// the `dimension`-th value of the stream seeded with `pattern_id`.
pub open spec fn lattice_sample(index: u32, pattern_id: u32, dimension: int) -> u32 {
    let shuffled = laine_karras(reverse32(index), pcg_output(pattern_id));
    wrapping_add32(
        wrapping_mul32(LATTICE[dimension], shuffled),
        pcg_draw(pattern_id, dimension as nat),
    )
}

/// Compute a randomised rank-1 lattice value.
///
/// `DEPTH` is the dimensional output count (1..=4). `pattern_id` seeds the
/// randomisation and must be constant for a given lattice.
pub fn shuffled_rotated_lattice<const DEPTH: usize>(index: u32, pattern_id: u32) -> (r: [u32; DEPTH])
    requires
        1 <= DEPTH <= 4,
    ensures
        forall|i: int| 0 <= i < DEPTH ==> #[trigger] r[i] == lattice_sample(index, pattern_id, i),
{
    let shuffled = reverse_and_shuffle(index, output(pattern_id));
    let mut state = pattern_id;

    let mut sample = [0u32; DEPTH];
    let mut i: usize = 0;
    while i < DEPTH
        invariant
            DEPTH <= 4,
            i <= DEPTH,
            sample@.len() == DEPTH,
            shuffled == laine_karras(reverse32(index), pcg_output(pattern_id)),
            state == pcg_advance(pattern_id, i as nat),
            forall|j: int| 0 <= j < i ==> #[trigger] sample[j] == lattice_sample(index, pattern_id, j),
        decreases DEPTH - i,
    {
        let ghost before = state;
        // `rng` advances the state and returns a fresh shift each iteration.
        let shift = rng(&mut state);
        proof {
            lemma_stream_step(pattern_id, i as nat, before, state);
        }
        sample[i] = rotate(lattice_reversed_index(shuffled, i), shift);
        i += 1;
    }
    sample
}

/// The shuffled index of sample `index` in the pattern `pattern_id`.
pub open spec fn lattice_index(index: u32, pattern_id: u32) -> u32 {
    laine_karras(reverse32(index), pcg_output(pattern_id))
}

/// The points of every aligned block of `2^m` samples of a pattern
/// (`m <= 32`), the first `2^m` among them, lie on the rank-1 lattice with
/// spacing `2^(32 - m)`, shifted by one offset per dimension: distinct samples
/// of one block have distinct shuffled indices that differ by a multiple of
/// `2^(32 - m)`, and each dimension of their points differs by the generator
/// times that difference.
pub proof fn lemma_lattice_blocks(i: u32, j: u32, pattern_id: u32, m: nat, d: int)
    requires
        m <= 32,
        i as int / pow2(m) as int == j as int / pow2(m) as int,
        0 <= d < 4,
    ensures
        agree_low(lattice_index(i, pattern_id), lattice_index(j, pattern_id), (32 - m) as nat),
        i != j ==> lattice_index(i, pattern_id) != lattice_index(j, pattern_id),
        (lattice_sample(i, pattern_id, d) - lattice_sample(j, pattern_id, d)) % 0x1_0000_0000 == (
        LATTICE[d] * (lattice_index(i, pattern_id) - lattice_index(j, pattern_id))) % 0x1_0000_0000,
{
    let h = pcg_output(pattern_id);
    lemma_reverse32_involution(i);
    lemma_reverse32_involution(j);
    lemma_mask64_value(m);
    vstd::bits::lemma_u64_shr_is_div(i as u64, m as u64);
    vstd::bits::lemma_u64_shr_is_div(j as u64, m as u64);
    lemma_reverse_block_low_agree(i, j, m as u64);
    lemma_agree_mask(reverse32(i), reverse32(j), (32 - m) as nat);
    lemma_laine_karras_low_bits(reverse32(i), reverse32(j), h, (32 - m) as nat);
    lemma_laine_karras_injective(reverse32(i), reverse32(j), h);
    let si = lattice_index(i, pattern_id);
    let sj = lattice_index(j, pattern_id);
    let g = LATTICE[d];
    let shift = pcg_draw(pattern_id, d as nat);
    let md = 0x1_0000_0000int;
    let a = (g * si) % md;
    let b = (g * sj) % md;
    vstd::arithmetic::div_mod::lemma_mod_twice(a + shift, md);
    vstd::arithmetic::div_mod::lemma_mod_twice(b + shift, md);
    vstd::arithmetic::div_mod::lemma_sub_mod_noop(a + shift, b + shift, md);
    vstd::arithmetic::div_mod::lemma_sub_mod_noop(g * si, g * sj, md);
    vstd::arithmetic::div_mod::lemma_mod_twice(g * si, md);
    vstd::arithmetic::div_mod::lemma_mod_twice(g * sj, md);
    assert(g * si - g * sj == g * (si - sj)) by (nonlinear_arith);
}

} // verus!
