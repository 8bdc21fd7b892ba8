//! The generic 8-byte sampler state shared by all sampler implementations:
//! pattern, sample and pixel identifiers, and the domain-tree mutations.
use vstd::prelude::*;
use crate::bits::wrapping_add32;
use crate::encode::{EncodeKey, encode16, encode_bits16, lemma_encode_round_trip};
use crate::pcg::{
    self, Rng, pcg_draw, pcg_advance, pcg_init_state, pcg_transition, lemma_stream_step,
    lemma_transition_injective, lemma_hash_is_first_draw,
};
use crate::bits::{lemma_add_agree, lemma_agree_all};
use vstd::arithmetic::power2::{pow2, lemma2_to64, lemma_pow2_pos, lemma_pow2_adds};
use vstd::arithmetic::div_mod::{
    lemma_div_denominator, lemma_breakdown, lemma_fundamental_div_mod, lemma_fundamental_div_mod_converse,
    lemma_mod_bound,
};

verus! {

/// 2^16 sample-index upper limit (bit size).
pub const MAX_INDEX_BIT_SIZE: u32 = 16;

/// 2^16 sample-index upper limit.
pub const MAX_INDEX_SIZE: usize = 65536;

/// Pixel-x encoding precision (256 pixels).
pub const SPATIAL_ENCODE_BITS_X: u32 = 8;

/// Pixel-y encoding precision (256 pixels).
pub const SPATIAL_ENCODE_BITS_Y: u32 = 8;

/// Top 16 bits of a sample index (the domain key for indices >= 2^16):
/// `index / 2^16`, rounded down.
pub fn compute_index_key(index: i32) -> (r: i32)
    ensures
        r as int == index as int / 65536,
{
    let r = index >> MAX_INDEX_BIT_SIZE;
    assert(r as int == index as int / 65536) by (bit_vector)
        requires r == index >> 16u32;
    r
}

/// Bottom 16 bits of a sample index: `index mod 2^16`.
pub fn compute_index_id(index: i32) -> (r: i32)
    ensures
        r as int == index as int % 65536,
{
    let r = index & (MAX_INDEX_SIZE as i32 - 1);
    assert(r as int == index as int % 65536) by (bit_vector)
        requires r == index & 65535i32;
    r
}

/// Generic sampler state.
#[derive(Clone, Copy, Debug, PartialEq, Eq, Structural)]
pub struct State64Bit {
    /// Identifier for the domain pattern.
    pub pattern_id: u32,
    /// Identifier for the sample index.
    pub sample_id: u16,
    /// Identifier for the pixel position.
    pub pixel_id: u16,
}

/// The state that `State64Bit::new` builds: the pattern is seeded with the
/// frame plus the high bits of the index, the sample is the low 16 bits of the
/// index, and the pixel is the coordinate packed into 8 + 8 bits.
pub open spec fn state_new(x: i32, y: i32, frame: i32, index: i32) -> State64Bit {
    State64Bit {
        pattern_id: wrapping_add32(pcg_init_state(), (frame + index / 65536) as u32),
        sample_id: (index % 65536) as u16,
        pixel_id: encode16(EncodeKey { x, y, z: 0 }, 8, 8, 0),
    }
}

/// Whether `State64Bit::new` accepts its arguments: a non-negative index, and
/// a frame plus index key that fits an `i32`.
pub open spec fn state_new_ok(frame: i32, index: i32) -> bool {
    index >= 0 && frame + index / 65536 <= i32::MAX
}

/// The child domain with key `key`: one LCG step of the pattern offset by the
/// key; the sample and the pixel are kept.
pub open spec fn state_new_domain(s: State64Bit, key: i32) -> State64Bit {
    State64Bit { pattern_id: pcg_transition(wrapping_add32(s.pattern_id, key as u32)), ..s }
}

/// The combined index of a split domain.
pub open spec fn split_index(s: State64Bit, size: i32, index: i32) -> int {
    s.sample_id * size + index
}

/// Whether `new_domain_split` accepts its arguments.
pub open spec fn state_split_ok(s: State64Bit, size: i32, index: i32) -> bool {
    size > 0 && index >= 0 && split_index(s, size, index) <= i32::MAX
}

/// The split domain: two nested domains (by `key`, then by the high bits of
/// the combined index), with the low 16 bits of the combined index as sample.
pub open spec fn state_new_domain_split(s: State64Bit, key: i32, size: i32, index: i32) -> State64Bit {
    let combined = split_index(s, size, index);
    State64Bit {
        sample_id: (combined % 65536) as u16,
        ..state_new_domain(state_new_domain(s, key), (combined / 65536) as i32)
    }
}

/// The distributed domain: three nested domains (by `key`, by the high bits of
/// `index`, by the parent sample), with the low 16 bits of `index` as sample.
pub open spec fn state_new_domain_distrib(s: State64Bit, key: i32, index: i32) -> State64Bit {
    State64Bit {
        sample_id: (index % 65536) as u16,
        ..state_new_domain(
            state_new_domain(state_new_domain(s, key), (index / 65536) as i32),
            s.sample_id as i32,
        )
    }
}

/// The seed of the pseudo-random values of a state: pattern plus sample.
pub open spec fn state_seed(s: State64Bit) -> u32 {
    wrapping_add32(s.pattern_id, s.sample_id as u32)
}

/// The pseudo-random block of a state: the first four values of its stream.
pub open spec fn state_rnd_block(state: State64Bit) -> Seq<u32> {
    Seq::new(4, |d: int| pcg_draw(state_seed(state), d as nat))
}

impl State64Bit {
    /// Construct from pixel, frame and sample indices. Pixels are correlated by
    /// default; call `pixel_decorrelate` to separate them.
    pub fn new(x: i32, y: i32, frame: i32, index: i32) -> (r: State64Bit)
        requires
            state_new_ok(frame, index),
        ensures
            r == state_new(x, y, frame, index),
    {
        let index_key = compute_index_key(index);
        let index_id = compute_index_id(index);

        let pixel_id = encode_bits16::<SPATIAL_ENCODE_BITS_X, SPATIAL_ENCODE_BITS_Y, 0>(
            EncodeKey { x, y, z: 0 },
        );

        State64Bit {
            pattern_id: pcg::init_seed((frame + index_key) as u32),
            sample_id: index_id as u16,
            pixel_id,
        }
    }

    /// Decorrelate the state between pixels using the pixel identifier.
    pub fn pixel_decorrelate(&self) -> (r: State64Bit)
        ensures
            r == state_new_domain(*self, self.pixel_id as i32),
    {
        self.new_domain(self.pixel_id as i32)
    }

    /// Derive a child domain with an independent 4D pattern.
    pub fn new_domain(&self, key: i32) -> (r: State64Bit)
        ensures
            r == state_new_domain(*self, key),
            r.sample_id == self.sample_id,
            r.pixel_id == self.pixel_id,
    {
        let mut ret = *self;
        ret.pattern_id = pcg::state_transition(self.pattern_id.wrapping_add(key as u32));
        ret
    }

    /// Derive a split domain with a fixed sample-rate multiplier (`size`).
    pub fn new_domain_split(&self, key: i32, size: i32, index: i32) -> (r: State64Bit)
        requires
            state_split_ok(*self, size, index),
        ensures
            r == state_new_domain_split(*self, key, size, index),
    {
        proof {
            assert(0 <= self.sample_id * size <= split_index(*self, size, index)) by (nonlinear_arith)
                requires self.sample_id >= 0, size > 0, index >= 0,
                    split_index(*self, size, index) == self.sample_id * size + index;
        }
        let combined = self.sample_id as i32 * size + index;
        let index_key = compute_index_key(combined);
        let index_id = compute_index_id(combined);

        let mut ret = self.new_domain(key).new_domain(index_key);
        ret.sample_id = index_id as u16;
        ret
    }

    /// Derive a split domain with an adaptive (local) distribution.
    pub fn new_domain_distrib(&self, key: i32, index: i32) -> (r: State64Bit)
        requires
            index >= 0,
        ensures
            r == state_new_domain_distrib(*self, key, index),
    {
        let index_key = compute_index_key(index);
        let index_id = compute_index_id(index);

        let mut ret = self.new_domain(key).new_domain(index_key).new_domain(self.sample_id as i32);
        ret.sample_id = index_id as u16;
        ret
    }

    /// Draw `N` low-quality pseudo-random values: the first `N` values of the
    /// stream seeded with `pattern_id + sample_id`.
    pub fn draw_rnd<const N: usize>(&self) -> (r: [u32; N])
        ensures
            forall|i: int| 0 <= i < N ==> #[trigger] r[i] == pcg_draw(state_seed(*self), i as nat),
    {
        let mut rng_state = self.pattern_id.wrapping_add(self.sample_id as u32);
        let ghost seed = rng_state;
        let mut rnd = [0u32; N];
        let mut i: usize = 0;
        while i < N
            invariant
                i <= N,
                rnd@.len() == N,
                seed == state_seed(*self),
                rng_state == pcg_advance(seed, i as nat),
                forall|j: int| 0 <= j < i ==> #[trigger] rnd[j] == pcg_draw(seed, j as nat),
            decreases N - i,
        {
            let ghost before = rng_state;
            rnd[i] = pcg::rng(&mut rng_state);
            proof {
                lemma_stream_step(seed, i as nat, before, rng_state);
            }
            i += 1;
        }
        rnd
    }

    /// A sequential stream seeded from this state (the same seed
    /// `pattern_id + sample_id` that `draw_rnd` uses). Use it for unbounded
    /// random streams.
    pub fn rng(&self) -> (r: Rng)
        ensures
            r@ == state_seed(*self),
    {
        Rng::new(self.pattern_id.wrapping_add(self.sample_id as u32))
    }
}

/// Indices of `2^16` and more fold their high bits into the frame: a state
/// for `index` is the state for `index mod 2^16` in frame
/// `frame + index / 2^16`.
pub proof fn lemma_index_folds_into_frame(x: i32, y: i32, frame: i32, index: i32)
    requires
        state_new_ok(frame, index),
    ensures
        state_new_ok((frame + index / 65536) as i32, (index % 65536) as i32),
        state_new(x, y, frame, index) == state_new(x, y, (frame + index / 65536) as i32, (index % 65536) as i32),
{
}

/// The sample indices of one aligned block of `2^m` (`m <= 16`) share their
/// pattern: their root states differ in the sample only, and the samples lie
/// in one aligned block of `2^m`, distinct for distinct indices.
pub proof fn lemma_index_block_states(x: i32, y: i32, frame: i32, i: i32, j: i32, m: nat)
    requires
        state_new_ok(frame, i),
        state_new_ok(frame, j),
        m <= 16,
        i as int / pow2(m) as int == j as int / pow2(m) as int,
    ensures
        state_new(x, y, frame, i).pattern_id == state_new(x, y, frame, j).pattern_id,
        state_new(x, y, frame, i).pixel_id == state_new(x, y, frame, j).pixel_id,
        state_new(x, y, frame, i).sample_id as int / pow2(m) as int == state_new(x, y, frame, j).sample_id as int
            / pow2(m) as int,
        i != j ==> state_new(x, y, frame, i).sample_id != state_new(x, y, frame, j).sample_id,
{
    let d = pow2(m) as int;
    let e = pow2((16 - m) as nat) as int;
    lemma2_to64();
    lemma_pow2_pos(m);
    lemma_pow2_pos((16 - m) as nat);
    lemma_pow2_adds(m, (16 - m) as nat);
    assert(d * e == 65536);
    let t = i as int / d;
    lemma_div_denominator(i as int, d, e);
    lemma_div_denominator(j as int, d, e);
    lemma_breakdown(i as int, d, e);
    lemma_breakdown(j as int, d, e);
    lemma_fundamental_div_mod(i as int, d);
    lemma_fundamental_div_mod(j as int, d);
    lemma_mod_bound(i as int, d);
    lemma_mod_bound(j as int, d);
    lemma_fundamental_div_mod_converse(i as int % 65536, d, t % e, i as int % d);
    lemma_fundamental_div_mod_converse(j as int % 65536, d, t % e, j as int % d);
    lemma_fundamental_div_mod(i as int, 65536);
    lemma_fundamental_div_mod(j as int, 65536);
}

/// The stream of `rng()` starts with the values of `draw_rnd`: after `n`
/// calls of `next_u32` on a stream whose state is `pcg_advance(seed, n)`,
/// the next call yields `pcg_draw(seed, n)`.
pub proof fn lemma_rng_continues_draw_rnd(s: State64Bit, n: nat, before: Rng, after: Rng)
    requires
        before@ == pcg_advance(state_seed(s), n),
        after@ == pcg_transition(before@),
    ensures
        after@ == pcg_advance(state_seed(s), n + 1),
        crate::pcg::pcg_output(after@) == pcg_draw(state_seed(s), n),
{
    lemma_stream_step(state_seed(s), n, before@, after@);
}

/// Child domains of distinct keys have distinct patterns: the offset by the
/// key and the LCG step are both one-to-one.
pub proof fn lemma_new_domain_keys_distinct(s: State64Bit, k1: i32, k2: i32)
    requires
        k1 != k2,
    ensures
        state_new_domain(s, k1).pattern_id != state_new_domain(s, k2).pattern_id,
{
    let a = k1 as u32;
    let b = k2 as u32;
    assert(a != b) by (bit_vector)
        requires
            a == k1 as u32,
            b == k2 as u32,
            k1 != k2,
    ;
    let pa = wrapping_add32(s.pattern_id, a);
    let pb = wrapping_add32(s.pattern_id, b);
    assert(wrapping_add32(a, s.pattern_id) == pa && wrapping_add32(b, s.pattern_id) == pb);
    lemma_add_agree(a, b, s.pattern_id, 32);
    lemma_agree_all(a, b);
    lemma_agree_all(pa, pb);
    lemma_transition_injective(pa, pb);
}

/// Pixel decorrelation separates the pixels of a 256 x 256 tile: distinct
/// pixels of the same frame and index get distinct patterns.
pub proof fn lemma_pixel_decorrelate_distinct(x1: i32, y1: i32, x2: i32, y2: i32, frame: i32, index: i32)
    requires
        0 <= x1 < 256,
        0 <= y1 < 256,
        0 <= x2 < 256,
        0 <= y2 < 256,
        x1 != x2 || y1 != y2,
    ensures
        ({
            let s1 = state_new(x1, y1, frame, index);
            let s2 = state_new(x2, y2, frame, index);
            state_new_domain(s1, s1.pixel_id as i32).pattern_id != state_new_domain(s2, s2.pixel_id as i32).pattern_id
        }),
{
    let s1 = state_new(x1, y1, frame, index);
    let s2 = state_new(x2, y2, frame, index);
    assert((1u32 << 8u32) == 256 && (1u32 << 0u32) == 1) by (bit_vector);
    lemma_encode_round_trip(EncodeKey { x: x1, y: y1, z: 0 }, 8, 8, 0);
    lemma_encode_round_trip(EncodeKey { x: x2, y: y2, z: 0 }, 8, 8, 0);
    assert(s1.pixel_id != s2.pixel_id);
    lemma_new_domain_keys_distinct(s1, s1.pixel_id as i32, s2.pixel_id as i32);
}

/// Two states of one pattern with distinct samples have distinct seeds, and
/// their pseudo-random streams start with distinct values.
pub proof fn lemma_state_seeds_distinct(s1: State64Bit, s2: State64Bit)
    requires
        s1.pattern_id == s2.pattern_id,
        s1.sample_id != s2.sample_id,
    ensures
        state_seed(s1) != state_seed(s2),
        pcg_draw(state_seed(s1), 0) != pcg_draw(state_seed(s2), 0),
{
    let p = s1.pattern_id as int;
    let a = s1.sample_id as int;
    let b = s2.sample_id as int;
    if state_seed(s1) == state_seed(s2) {
        vstd::arithmetic::div_mod::lemma_fundamental_div_mod(p + a, 0x1_0000_0000);
        vstd::arithmetic::div_mod::lemma_fundamental_div_mod(p + b, 0x1_0000_0000);
        assert(false);
    }
    lemma_hash_is_first_draw(state_seed(s1));
    lemma_hash_is_first_draw(state_seed(s2));
    lemma_transition_injective(state_seed(s1), state_seed(s2));
    crate::pcg::lemma_output_injective(pcg_transition(state_seed(s1)), pcg_transition(state_seed(s2)));
}

} // verus!
