//! The progressive multi-jittered (0,2) sampler.
//!
//! A base 4D pattern for all 2^16 sample indices is pre-computed once (see
//! `stochastic`), then looked up and XOR-scrambled at draw time. The first pair
//! of dimensions integrates as well as the Sobol sampler; the second pair is a
//! randomisation of the first. The table is built by the caller and borrowed by
//! the sampler.
use vstd::prelude::*;
use crate::state::lemma_new_domain_keys_distinct;
use crate::bits::wrapping_add32;
use crate::pcg::pcg_draw;
use crate::state::{lemma_pixel_decorrelate_distinct, lemma_state_seeds_distinct};
use crate::lookup::{
    lookup_row, lookup_scramble, lemma_lookup_row_bound, lemma_lookup_rows_keep_blocks,
    shuffled_scrambled_lookup,
};
use crate::bits::{stratum, lemma_stratum_xor};
use crate::stochastic::{pmj_row, lemma_pmj_table_stratified};
use crate::pmj02::{lemma_stratum_unxor, lemma_pmj_table_is_02_net};
use vstd::arithmetic::power2::pow2;
use crate::pcg::{self, Rng, pcg_output};
use crate::sampler::{Sampler, SamplerImpl};
use crate::state::{
    MAX_INDEX_SIZE, State64Bit, state_new, state_new_domain, state_new_domain_split,
    state_new_domain_distrib, state_split_ok, state_seed, state_rnd_block, state_new_ok,
    lemma_index_block_states,
};

verus! {

/// The block that a lookup into the pre-computed `table` gives for sample
/// index `index` under `hash`.
pub open spec fn table_block(table: Seq<[u32; 4]>, index: u32, hash: u32) -> Seq<u32> {
    Seq::new(4, |d: int| table[lookup_row(index, hash)][d] ^ lookup_scramble(hash, d))
}

/// With the table that `stochastic_pmj_init` builds, the blocks of the
/// sample indices of an aligned block of `2^m` (`1 <= m <= 16`) under one hash
/// are stratified in each of the four dimensions: distinct samples lie in
/// distinct intervals of width `2^(32 - m)`. In particular the first `2^m`
/// samples of every PMJ domain are.
pub proof fn lemma_pmj_draws_stratified(table: Seq<[u32; 4]>, hash: u32, i: u32, j: u32, m: nat, d: int)
    requires
        table.len() >= MAX_INDEX_SIZE,
        forall|r: int| 0 <= r < MAX_INDEX_SIZE ==> #[trigger] table[r] == pmj_row(r as u32),
        1 <= m <= 16,
        i != j,
        i as int / pow2(m) as int == j as int / pow2(m) as int,
        0 <= d < 4,
    ensures
        stratum(table_block(table, i, hash)[d], m) != stratum(table_block(table, j, hash)[d], m),
{
    lemma_lookup_rows_keep_blocks(i, j, hash, m);
    lemma_lookup_row_bound(i, hash);
    lemma_lookup_row_bound(j, hash);
    let ri = lookup_row(i, hash);
    let rj = lookup_row(j, hash);
    assert(table[ri] == pmj_row(ri as u32));
    assert(table[rj] == pmj_row(rj as u32));
    lemma_pmj_table_stratified(ri as u32, rj as u32, m, d);
    lemma_stratum_xor(table[ri][d], table[rj][d], lookup_scramble(hash, d), m);
}

/// With the table that `stochastic_pmj_init` builds, each pair of dimensions
/// (`0, 1` for `pair == 0`, `2, 3` for `pair == 1`) of the blocks of the sample
/// indices of an aligned block of `2^(a + b)` under one hash is a (0,2) net:
/// two distinct samples never share both their first interval of width
/// `2^(32 - a)` and their second of width `2^(32 - b)`.
pub proof fn lemma_pmj_draws_are_02_net(
    table: Seq<[u32; 4]>,
    hash: u32,
    i: u32,
    j: u32,
    a: nat,
    b: nat,
    pair: int,
)
    requires
        table.len() >= MAX_INDEX_SIZE,
        forall|r: int| 0 <= r < MAX_INDEX_SIZE ==> #[trigger] table[r] == pmj_row(r as u32),
        a + b <= 16,
        i != j,
        i as int / pow2(a + b) as int == j as int / pow2(a + b) as int,
        0 <= pair < 2,
    ensures
        !(stratum(table_block(table, i, hash)[2 * pair], a) == stratum(table_block(table, j, hash)[2 * pair], a)
            && stratum(table_block(table, i, hash)[2 * pair + 1], b) == stratum(
            table_block(table, j, hash)[2 * pair + 1],
            b,
        )),
{
    vstd::arithmetic::power2::lemma2_to64();
    let m = a + b;
    if m >= 1 {
        lemma_lookup_rows_keep_blocks(i, j, hash, m);
        lemma_lookup_row_bound(i, hash);
        lemma_lookup_row_bound(j, hash);
        let ri = lookup_row(i, hash);
        let rj = lookup_row(j, hash);
        assert(table[ri] == pmj_row(ri as u32));
        assert(table[rj] == pmj_row(rj as u32));
        let d0 = 2 * pair;
        let d1 = 2 * pair + 1;
        if stratum(table_block(table, i, hash)[d0], a) == stratum(table_block(table, j, hash)[d0], a) && stratum(
            table_block(table, i, hash)[d1],
            b,
        ) == stratum(table_block(table, j, hash)[d1], b) {
            lemma_stratum_unxor(table[ri][d0], table[rj][d0], lookup_scramble(hash, d0), a);
            lemma_stratum_unxor(table[ri][d1], table[rj][d1], lookup_scramble(hash, d1), b);
            lemma_pmj_table_is_02_net(ri as u32, rj as u32, a, b, pair);
        }
    } else {
        assert(i as int / pow2(0) as int == i);
        assert(j as int / pow2(0) as int == j);
    }
}

/// Whether a pre-computed table covers every row a lookup can read.
pub open spec fn pmj_table_ok(table: Seq<[u32; 4]>) -> bool {
    table.len() >= MAX_INDEX_SIZE
}

/// Implementation behind `PmjSampler`. Use it through `Sampler`.
#[derive(Clone, Copy, Debug)]
pub struct PmjImpl<'a> {
    /// The domain state.
    pub state: State64Bit,
    /// The pre-computed 4D PMJ pattern table, one row per sample index.
    pub cache: &'a [[u32; 4]],
}

impl<'a> SamplerImpl for PmjImpl<'a> {
    type Tables = &'a [[u32; 4]];

    open spec fn tables_ok(tables: &'a [[u32; 4]]) -> bool {
        pmj_table_ok(tables@)
    }

    open spec fn inv(&self) -> bool {
        pmj_table_ok(self.cache@)
    }

    open spec fn spec_from_pixel(x: i32, y: i32, frame: i32, index: i32, tables: &'a [[u32; 4]]) -> PmjImpl<'a> {
        let s = state_new(x, y, frame, index);
        PmjImpl { state: state_new_domain(s, s.pixel_id as i32), cache: tables }
    }

    open spec fn spec_new_domain(&self, key: i32) -> PmjImpl<'a> {
        PmjImpl { state: state_new_domain(self.state, key), ..*self }
    }

    open spec fn split_ok(&self, size: i32, index: i32) -> bool {
        state_split_ok(self.state, size, index)
    }

    open spec fn spec_new_domain_split(&self, key: i32, size: i32, index: i32) -> PmjImpl<'a> {
        PmjImpl { state: state_new_domain_split(self.state, key, size, index), ..*self }
    }

    open spec fn spec_new_domain_distrib(&self, key: i32, index: i32) -> PmjImpl<'a> {
        PmjImpl { state: state_new_domain_distrib(self.state, key, index), ..*self }
    }

    open spec fn block(&self) -> Seq<u32> {
        table_block(self.cache@, self.state.sample_id as u32, pcg_output(self.state.pattern_id))
    }

    open spec fn rnd_block(&self) -> Seq<u32> {
        state_rnd_block(self.state)
    }

    open spec fn rng_seed(&self) -> u32 {
        state_seed(self.state)
    }

    fn from_pixel(x: i32, y: i32, frame: i32, index: i32, tables: &'a [[u32; 4]]) -> (r: PmjImpl<'a>) {
        PmjImpl { state: State64Bit::new(x, y, frame, index).pixel_decorrelate(), cache: tables }
    }

    fn new_domain(&self, key: i32) -> (r: PmjImpl<'a>) {
        PmjImpl { state: self.state.new_domain(key), cache: self.cache }
    }

    fn new_domain_split(&self, key: i32, size: i32, index: i32) -> (r: PmjImpl<'a>) {
        PmjImpl { state: self.state.new_domain_split(key, size, index), cache: self.cache }
    }

    fn new_domain_distrib(&self, key: i32, index: i32) -> (r: PmjImpl<'a>) {
        PmjImpl { state: self.state.new_domain_distrib(key, index), cache: self.cache }
    }

    fn draw_block(&self) -> (r: [u32; 4]) {
        let hash = pcg::output(self.state.pattern_id);
        proof {
            lemma_lookup_row_bound(self.state.sample_id as u32, hash);
        }
        let r = shuffled_scrambled_lookup::<4, 4>(self.state.sample_id as u32, hash, self.cache);
        assert(r@ =~= table_block(self.cache@, self.state.sample_id as u32, hash));
        r
    }

    fn draw_rnd_block(&self) -> (r: [u32; 4]) {
        let r = self.state.draw_rnd::<4>();
        assert(r@ =~= state_rnd_block(self.state));
        r
    }

    fn rng(&self) -> (r: Rng) {
        self.state.rng()
    }
}

/// Each pair of dimensions (`0, 1` for `pair == 0`, `2, 3` for `pair == 1`) of
/// a domain of the PMJ sampler, reading the table that `stochastic_pmj_init`
/// builds, is a (0,2) sequence over the sample index: two distinct sample
/// indices of one aligned block of `2^(a + b)` never share both their first
/// interval of width `2^(32 - a)` and their second of width `2^(32 - b)`.
pub proof fn lemma_pmj_sampler_is_02_net<'a>(
    x: i32,
    y: i32,
    frame: i32,
    key: i32,
    i: i32,
    j: i32,
    a: nat,
    b: nat,
    pair: int,
    tables: &'a [[u32; 4]],
)
    requires
        state_new_ok(frame, i),
        state_new_ok(frame, j),
        a + b <= 16,
        i != j,
        i as int / pow2(a + b) as int == j as int / pow2(a + b) as int,
        0 <= pair < 2,
        tables@.len() >= MAX_INDEX_SIZE,
        forall|r: int| 0 <= r < MAX_INDEX_SIZE ==> #[trigger] tables@[r] == pmj_row(r as u32),
    ensures
        ({
            let bi = PmjImpl::spec_from_pixel(x, y, frame, i, tables).spec_new_domain(key).block();
            let bj = PmjImpl::spec_from_pixel(x, y, frame, j, tables).spec_new_domain(key).block();
            !(stratum(bi[2 * pair], a) == stratum(bj[2 * pair], a) && stratum(bi[2 * pair + 1], b) == stratum(
                bj[2 * pair + 1],
                b,
            ))
        }),
{
    lemma_index_block_states(x, y, frame, i, j, a + b);
    let si = PmjImpl::spec_from_pixel(x, y, frame, i, tables).spec_new_domain(key).state;
    let sj = PmjImpl::spec_from_pixel(x, y, frame, j, tables).spec_new_domain(key).state;
    lemma_pmj_draws_are_02_net(
        tables@,
        pcg_output(si.pattern_id),
        si.sample_id as u32,
        sj.sample_id as u32,
        a,
        b,
        pair,
    );
}

/// Progressive multi-jittered (0,2) sampler (Helmer et al.).
///
/// Draws from a 2^16-entry 4D table (built with `stochastic_pmj_init`), so the
/// per-draw cost is a cheap lookup.
pub type PmjSampler<'a> = Sampler<PmjImpl<'a>>;

/// Pixel decorrelation: distinct pixels of a 256 x 256 tile (same frame and
/// sample index) get distinct patterns, so each draws its own randomisation.
pub proof fn lemma_pmj_pixels_decorrelated<'a>(
    x1: i32,
    y1: i32,
    x2: i32,
    y2: i32,
    frame: i32,
    index: i32,
    tables: &'a [[u32; 4]],
)
    requires
        0 <= x1 < 256,
        0 <= y1 < 256,
        0 <= x2 < 256,
        0 <= y2 < 256,
        x1 != x2 || y1 != y2,
    ensures
        PmjImpl::spec_from_pixel(x1, y1, frame, index, tables).state.pattern_id != PmjImpl::spec_from_pixel(
            x2,
            y2,
            frame,
            index,
            tables,
        ).state.pattern_id,
{
    lemma_pixel_decorrelate_distinct(x1, y1, x2, y2, frame, index);
}

/// The pseudo-random values of a domain: its stream is seeded with its
/// pattern plus its sample, `draw_rnd` gives the first four values of that
/// stream, and distinct samples of one pattern get distinct seeds and distinct
/// first values.
pub proof fn lemma_pmj_rnd_streams<'a>(a: PmjImpl<'a>, b: PmjImpl<'a>)
    ensures
        a.rng_seed() == wrapping_add32(a.state.pattern_id, a.state.sample_id as u32),
        a.rnd_block().len() == 4,
        forall|d: int| 0 <= d < 4 ==> #[trigger] a.rnd_block()[d] == pcg_draw(a.rng_seed(), d as nat),
        a.state.pattern_id == b.state.pattern_id && a.state.sample_id != b.state.sample_id ==> a.rng_seed()
            != b.rng_seed() && a.rnd_block()[0] != b.rnd_block()[0],
{
    if a.state.pattern_id == b.state.pattern_id && a.state.sample_id != b.state.sample_id {
        lemma_state_seeds_distinct(a.state, b.state);
    }
}

/// A PMJ domain draws, at its sample, the table row that the lookup of the
/// sample reads under the output of its pattern, scrambled with that output.
pub proof fn lemma_pmj_block<'a>(a: PmjImpl<'a>)
    ensures
        a.block().len() == 4,
        ({
            let h = pcg_output(a.state.pattern_id);
            forall|d: int|
                0 <= d < 4 ==> #[trigger] a.block()[d] == a.cache@[lookup_row(a.state.sample_id as u32, h)][d]
                    ^ lookup_scramble(h, d)
        }),
{
}

/// Child domains: distinct keys give distinct patterns, and a child keeps its
/// parent's sample and pixel.
pub proof fn lemma_pmj_new_domain<'a>(a: PmjImpl<'a>, k1: i32, k2: i32)
    ensures
        a.spec_new_domain(k1).state.sample_id == a.state.sample_id,
        a.spec_new_domain(k1).state.pixel_id == a.state.pixel_id,
        k1 != k2 ==> a.spec_new_domain(k1).state.pattern_id != a.spec_new_domain(k2).state.pattern_id,
{
    if k1 != k2 {
        lemma_new_domain_keys_distinct(a.state, k1, k2);
    }
}

} // verus!
