//! The Owen-scrambled Sobol sampler. No table: all samples are computed on the
//! fly. The per-draw cost is higher than the other samplers, but Owen
//! scrambling gives a very high rate of integration for smooth functions.
use vstd::prelude::*;
use crate::state::lemma_new_domain_keys_distinct;
use crate::bits::wrapping_add32;
use crate::pcg::pcg_draw;
use crate::state::{lemma_pixel_decorrelate_distinct, lemma_state_seeds_distinct};
use crate::owen::{sobol_sample, shuffled_scrambled_sobol, lemma_sobol_is_02_net};
use crate::bits::stratum;
use vstd::arithmetic::power2::pow2;
use crate::pcg::{self, Rng, pcg_output};
use crate::sampler::{Sampler, SamplerImpl};
use crate::state::{
    State64Bit, state_new, state_new_domain, state_new_domain_split,
    state_new_domain_distrib, state_split_ok, state_seed, state_rnd_block, state_new_ok,
    lemma_index_block_states,
};

verus! {

/// Implementation behind `SobolSampler`. Use it through `Sampler`.
#[derive(Clone, Copy, Debug)]
pub struct SobolImpl {
    /// The domain state.
    pub state: State64Bit,
}

/// The Sobol block of a state: the Owen-scrambled Sobol point at the sample
/// index, seeded with the output of the pattern.
pub open spec fn sobol_block(state: State64Bit) -> Seq<u32> {
    Seq::new(4, |d: int| sobol_sample(state.sample_id as u32, pcg_output(state.pattern_id), d))
}

impl SamplerImpl for SobolImpl {
    type Tables = ();

    open spec fn tables_ok(tables: ()) -> bool {
        true
    }

    open spec fn inv(&self) -> bool {
        true
    }

    open spec fn spec_from_pixel(x: i32, y: i32, frame: i32, index: i32, tables: ()) -> SobolImpl {
        let s = state_new(x, y, frame, index);
        SobolImpl { state: state_new_domain(s, s.pixel_id as i32) }
    }

    open spec fn spec_new_domain(&self, key: i32) -> SobolImpl {
        SobolImpl { state: state_new_domain(self.state, key) }
    }

    open spec fn split_ok(&self, size: i32, index: i32) -> bool {
        state_split_ok(self.state, size, index)
    }

    open spec fn spec_new_domain_split(&self, key: i32, size: i32, index: i32) -> SobolImpl {
        SobolImpl { state: state_new_domain_split(self.state, key, size, index) }
    }

    open spec fn spec_new_domain_distrib(&self, key: i32, index: i32) -> SobolImpl {
        SobolImpl { state: state_new_domain_distrib(self.state, key, index) }
    }

    open spec fn block(&self) -> Seq<u32> {
        sobol_block(self.state)
    }

    open spec fn rnd_block(&self) -> Seq<u32> {
        state_rnd_block(self.state)
    }

    open spec fn rng_seed(&self) -> u32 {
        state_seed(self.state)
    }

    fn from_pixel(x: i32, y: i32, frame: i32, index: i32, tables: ()) -> (r: SobolImpl) {
        SobolImpl { state: State64Bit::new(x, y, frame, index).pixel_decorrelate() }
    }

    fn new_domain(&self, key: i32) -> (r: SobolImpl) {
        SobolImpl { state: self.state.new_domain(key) }
    }

    fn new_domain_split(&self, key: i32, size: i32, index: i32) -> (r: SobolImpl) {
        SobolImpl { state: self.state.new_domain_split(key, size, index) }
    }

    fn new_domain_distrib(&self, key: i32, index: i32) -> (r: SobolImpl) {
        SobolImpl { state: self.state.new_domain_distrib(key, index) }
    }

    fn draw_block(&self) -> (r: [u32; 4]) {
        let r = shuffled_scrambled_sobol::<4>(self.state.sample_id as u32, pcg::output(self.state.pattern_id));
        assert(r@ =~= sobol_block(self.state));
        r
    }

    fn draw_rnd_block(&self) -> (r: [u32; 4]) {
        let r = self.state.draw_rnd::<4>();
        assert(r@ =~= state_rnd_block(self.state));
        r
    }

    fn rng(&self) -> (r: Rng) {
        self.state.rng()
    }
}

/// The first two dimensions of a domain of the Sobol sampler are a (0,2)
/// sequence over the sample index: two distinct sample indices of one aligned
/// block of `2^(a + b)` never share both their first interval of width
/// `2^(32 - a)` and their second of width `2^(32 - b)`.
pub proof fn lemma_sobol_sampler_is_02_net(
    x: i32,
    y: i32,
    frame: i32,
    key: i32,
    i: i32,
    j: i32,
    a: nat,
    b: nat,
)
    requires
        state_new_ok(frame, i),
        state_new_ok(frame, j),
        a + b <= 16,
        i != j,
        i as int / pow2(a + b) as int == j as int / pow2(a + b) as int,
    ensures
        ({
            let bi = SobolImpl::spec_from_pixel(x, y, frame, i, ()).spec_new_domain(key).block();
            let bj = SobolImpl::spec_from_pixel(x, y, frame, j, ()).spec_new_domain(key).block();
            !(stratum(bi[0], a) == stratum(bj[0], a) && stratum(bi[1], b) == stratum(bj[1], b))
        }),
{
    lemma_index_block_states(x, y, frame, i, j, a + b);
    let si = SobolImpl::spec_from_pixel(x, y, frame, i, ()).spec_new_domain(key).state;
    let sj = SobolImpl::spec_from_pixel(x, y, frame, j, ()).spec_new_domain(key).state;
    lemma_sobol_is_02_net(si.sample_id as u32, sj.sample_id as u32, pcg_output(si.pattern_id), a, b);
}

/// Owen-scrambled Sobol sampler.
pub type SobolSampler = Sampler<SobolImpl>;

/// Pixel decorrelation: distinct pixels of a 256 x 256 tile (same frame and
/// sample index) get distinct patterns, so each draws its own randomisation.
pub proof fn lemma_sobol_pixels_decorrelated(
    x1: i32,
    y1: i32,
    x2: i32,
    y2: i32,
    frame: i32,
    index: i32,
)
    requires
        0 <= x1 < 256,
        0 <= y1 < 256,
        0 <= x2 < 256,
        0 <= y2 < 256,
        x1 != x2 || y1 != y2,
    ensures
        SobolImpl::spec_from_pixel(x1, y1, frame, index, ()).state.pattern_id != SobolImpl::spec_from_pixel(
            x2,
            y2,
            frame,
            index,
            (),
        ).state.pattern_id,
{
    lemma_pixel_decorrelate_distinct(x1, y1, x2, y2, frame, index);
}

/// The pseudo-random values of a domain: its stream is seeded with its
/// pattern plus its sample, `draw_rnd` gives the first four values of that
/// stream, and distinct samples of one pattern get distinct seeds and distinct
/// first values.
pub proof fn lemma_sobol_rnd_streams(a: SobolImpl, b: SobolImpl)
    ensures
        a.rng_seed() == wrapping_add32(a.state.pattern_id, a.state.sample_id as u32),
        a.rnd_block().len() == 4,
        forall|d: int| 0 <= d < 4 ==> #[trigger] a.rnd_block()[d] == pcg_draw(a.rng_seed(), d as nat),
        a.state.pattern_id == b.state.pattern_id && a.state.sample_id != b.state.sample_id ==> a.rng_seed()
            != b.rng_seed() && a.rnd_block()[0] != b.rnd_block()[0],
{
    if a.state.pattern_id == b.state.pattern_id && a.state.sample_id != b.state.sample_id {
        lemma_state_seeds_distinct(a.state, b.state);
    }
}

/// A Sobol domain draws, at its sample, the scrambled Sobol point seeded with
/// the output of its pattern.
pub proof fn lemma_sobol_block(a: SobolImpl)
    ensures
        a.block().len() == 4,
        forall|d: int|
            0 <= d < 4 ==> #[trigger] a.block()[d] == sobol_sample(
                a.state.sample_id as u32,
                pcg_output(a.state.pattern_id),
                d,
            ),
{
}

/// Child domains: distinct keys give distinct patterns, and a child keeps its
/// parent's sample and pixel.
pub proof fn lemma_sobol_new_domain(a: SobolImpl, k1: i32, k2: i32)
    ensures
        a.spec_new_domain(k1).state.sample_id == a.state.sample_id,
        a.spec_new_domain(k1).state.pixel_id == a.state.pixel_id,
        k1 != k2 ==> a.spec_new_domain(k1).state.pattern_id != a.spec_new_domain(k2).state.pattern_id,
{
    if k1 != k2 {
        lemma_new_domain_keys_distinct(a.state, k1, k2);
    }
}

} // verus!
