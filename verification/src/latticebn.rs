//! The blue-noise variant of the rank-1 lattice sampler: the same sequence,
//! plus spatial blue-noise dithering between pixels. It does not decorrelate the state
//! between pixels; the per-pixel key/rank table lookup does that.
use vstd::prelude::*;
use crate::state::lemma_new_domain_keys_distinct;
use crate::bits::wrapping_add32;
use crate::pcg::{pcg_draw, pcg_output, pcg_transition};
use crate::bntables::table_index;
use crate::state::lemma_state_seeds_distinct;
use crate::bntables::{BnTables, bn_tables_ok, bn_entry, bn_lookup, bn_rnd_state};
use crate::rank1::{lattice_sample, shuffled_rotated_lattice};
use crate::pcg::Rng;
use crate::sampler::{Sampler, SamplerImpl};
use crate::state::{
    State64Bit, state_new, state_new_domain, state_new_domain_split, state_new_domain_distrib,
    state_split_ok, state_seed, state_rnd_block,
};

verus! {

/// Implementation behind `LatticeBnSampler`. Use it through `Sampler`.
#[derive(Clone, Copy, Debug)]
pub struct LatticeBnImpl<'a> {
    /// The domain state.
    pub state: State64Bit,
    /// The blue-noise key and rank tables.
    pub tables: BnTables<'a>,
}

impl<'a> SamplerImpl for LatticeBnImpl<'a> {
    type Tables = BnTables<'a>;

    open spec fn tables_ok(tables: BnTables<'a>) -> bool {
        bn_tables_ok(tables)
    }

    open spec fn inv(&self) -> bool {
        bn_tables_ok(self.tables)
    }

    open spec fn spec_from_pixel(x: i32, y: i32, frame: i32, index: i32, tables: BnTables<'a>) -> LatticeBnImpl<'a> {
        LatticeBnImpl { state: state_new(x, y, frame, index), tables }
    }

    open spec fn spec_new_domain(&self, key: i32) -> LatticeBnImpl<'a> {
        LatticeBnImpl { state: state_new_domain(self.state, key), ..*self }
    }

    open spec fn split_ok(&self, size: i32, index: i32) -> bool {
        state_split_ok(self.state, size, index)
    }

    open spec fn spec_new_domain_split(&self, key: i32, size: i32, index: i32) -> LatticeBnImpl<'a> {
        LatticeBnImpl { state: state_new_domain_split(self.state, key, size, index), ..*self }
    }

    open spec fn spec_new_domain_distrib(&self, key: i32, index: i32) -> LatticeBnImpl<'a> {
        LatticeBnImpl { state: state_new_domain_distrib(self.state, key, index), ..*self }
    }

    open spec fn block(&self) -> Seq<u32> {
        let t = bn_entry(self.state, self.tables);
        Seq::new(4, |d: int| lattice_sample(self.state.sample_id as u32 ^ t.rank, t.key, d))
    }

    open spec fn rnd_block(&self) -> Seq<u32> {
        state_rnd_block(bn_rnd_state(self.state))
    }

    open spec fn rng_seed(&self) -> u32 {
        state_seed(bn_rnd_state(self.state))
    }

    fn from_pixel(x: i32, y: i32, frame: i32, index: i32, tables: BnTables<'a>) -> (r: LatticeBnImpl<'a>) {
        LatticeBnImpl { state: State64Bit::new(x, y, frame, index), tables }
    }

    fn new_domain(&self, key: i32) -> (r: LatticeBnImpl<'a>) {
        LatticeBnImpl { state: self.state.new_domain(key), tables: self.tables }
    }

    fn new_domain_split(&self, key: i32, size: i32, index: i32) -> (r: LatticeBnImpl<'a>) {
        LatticeBnImpl { state: self.state.new_domain_split(key, size, index), tables: self.tables }
    }

    fn new_domain_distrib(&self, key: i32, index: i32) -> (r: LatticeBnImpl<'a>) {
        LatticeBnImpl { state: self.state.new_domain_distrib(key, index), tables: self.tables }
    }

    fn draw_block(&self) -> (r: [u32; 4]) {
        let t = bn_lookup(&self.state, &self.tables);
        let r = shuffled_rotated_lattice::<4>(self.state.sample_id as u32 ^ t.rank, t.key);
        assert(r@ =~= self.block());
        r
    }

    fn draw_rnd_block(&self) -> (r: [u32; 4]) {
        let r = self.state.new_domain(self.state.pixel_id as i32).draw_rnd::<4>();
        assert(r@ =~= self.rnd_block());
        r
    }

    fn rng(&self) -> (r: Rng) {
        self.state.new_domain(self.state.pixel_id as i32).rng()
    }
}

/// Blue-noise variant of the rank-1 lattice sampler.
pub type LatticeBnSampler<'a> = Sampler<LatticeBnImpl<'a>>;

/// A blue-noise lattice domain draws, at sample `s`, the lattice point of
/// index `s` XOR the rank of the table entry that its pixel reads (shifted by
/// its pattern), randomised with that entry's key.
pub proof fn lemma_lattice_bn_block<'a>(a: LatticeBnImpl<'a>)
    ensures
        a.block().len() == 4,
        ({
            let e = table_index(a.state.pixel_id, pcg_output(a.state.pattern_id) as u16, 8, 8, 0);
            forall|d: int|
                0 <= d < 4 ==> #[trigger] a.block()[d] == lattice_sample(
                    a.state.sample_id as u32 ^ a.tables.rank_table@[e],
                    a.tables.key_table@[e],
                    d,
                )
        }),
{
}

/// The pseudo-random values of a blue-noise domain: its stream is that of the
/// child domain keyed by its pixel, seeded with that child's pattern plus the
/// sample; `draw_rnd` gives the first four values of that stream, and distinct
/// samples of one pattern and pixel get distinct seeds and distinct first
/// values.
pub proof fn lemma_lattice_bn_rnd_streams<'a>(a: LatticeBnImpl<'a>, b: LatticeBnImpl<'a>)
    ensures
        a.rng_seed() == wrapping_add32(
            pcg_transition(wrapping_add32(a.state.pattern_id, a.state.pixel_id as u32)),
            a.state.sample_id as u32,
        ),
        a.rnd_block().len() == 4,
        forall|d: int| 0 <= d < 4 ==> #[trigger] a.rnd_block()[d] == pcg_draw(a.rng_seed(), d as nat),
        a.state.pattern_id == b.state.pattern_id && a.state.pixel_id == b.state.pixel_id && a.state.sample_id
            != b.state.sample_id ==> a.rng_seed() != b.rng_seed() && a.rnd_block()[0] != b.rnd_block()[0],
{
    if a.state.pattern_id == b.state.pattern_id && a.state.pixel_id == b.state.pixel_id && a.state.sample_id
        != b.state.sample_id {
        lemma_state_seeds_distinct(bn_rnd_state(a.state), bn_rnd_state(b.state));
    }
}

/// Child domains: distinct keys give distinct patterns, and a child keeps its
/// parent's sample and pixel.
pub proof fn lemma_lattice_bn_new_domain<'a>(a: LatticeBnImpl<'a>, k1: i32, k2: i32)
    ensures
        a.spec_new_domain(k1).state.sample_id == a.state.sample_id,
        a.spec_new_domain(k1).state.pixel_id == a.state.pixel_id,
        k1 != k2 ==> a.spec_new_domain(k1).state.pattern_id != a.spec_new_domain(k2).state.pattern_id,
{
    if k1 != k2 {
        lemma_new_domain_keys_distinct(a.state, k1, k2);
    }
}

} // verus!
