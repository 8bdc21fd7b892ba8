//! The rank-1 lattice sampler. No table: samples are computed on the fly with a
//! low per-draw cost, though the rate of integration per pixel can be lower
//! than that of the Sobol or PMJ samplers.
use vstd::prelude::*;
use crate::state::lemma_new_domain_keys_distinct;
use crate::bits::wrapping_add32;
use crate::pcg::pcg_draw;
use crate::state::{lemma_pixel_decorrelate_distinct, lemma_state_seeds_distinct};
use crate::rank1::{LATTICE, lattice_sample, lattice_index, shuffled_rotated_lattice, lemma_lattice_blocks};
use crate::bits::agree_low;
use vstd::arithmetic::power2::pow2;
use crate::pcg::Rng;
use crate::sampler::{Sampler, SamplerImpl};
use crate::state::{
    State64Bit, state_new, state_new_domain, state_new_domain_split,
    state_new_domain_distrib, state_split_ok, state_seed, state_rnd_block, state_new_ok,
    lemma_index_block_states,
};

verus! {

/// Implementation behind `LatticeSampler`. Use it through `Sampler`.
#[derive(Clone, Copy, Debug)]
pub struct LatticeImpl {
    /// The domain state.
    pub state: State64Bit,
}

/// The lattice block of a state: the randomised lattice point at the sample
/// index, for the raw pattern identifier.
pub open spec fn lattice_block(state: State64Bit) -> Seq<u32> {
    Seq::new(4, |d: int| lattice_sample(state.sample_id as u32, state.pattern_id, d))
}

impl SamplerImpl for LatticeImpl {
    type Tables = ();

    open spec fn tables_ok(tables: ()) -> bool {
        true
    }

    open spec fn inv(&self) -> bool {
        true
    }

    open spec fn spec_from_pixel(x: i32, y: i32, frame: i32, index: i32, tables: ()) -> LatticeImpl {
        let s = state_new(x, y, frame, index);
        LatticeImpl { state: state_new_domain(s, s.pixel_id as i32) }
    }

    open spec fn spec_new_domain(&self, key: i32) -> LatticeImpl {
        LatticeImpl { state: state_new_domain(self.state, key) }
    }

    open spec fn split_ok(&self, size: i32, index: i32) -> bool {
        state_split_ok(self.state, size, index)
    }

    open spec fn spec_new_domain_split(&self, key: i32, size: i32, index: i32) -> LatticeImpl {
        LatticeImpl { state: state_new_domain_split(self.state, key, size, index) }
    }

    open spec fn spec_new_domain_distrib(&self, key: i32, index: i32) -> LatticeImpl {
        LatticeImpl { state: state_new_domain_distrib(self.state, key, index) }
    }

    open spec fn block(&self) -> Seq<u32> {
        lattice_block(self.state)
    }

    open spec fn rnd_block(&self) -> Seq<u32> {
        state_rnd_block(self.state)
    }

    open spec fn rng_seed(&self) -> u32 {
        state_seed(self.state)
    }

    fn from_pixel(x: i32, y: i32, frame: i32, index: i32, tables: ()) -> (r: LatticeImpl) {
        LatticeImpl { state: State64Bit::new(x, y, frame, index).pixel_decorrelate() }
    }

    fn new_domain(&self, key: i32) -> (r: LatticeImpl) {
        LatticeImpl { state: self.state.new_domain(key) }
    }

    fn new_domain_split(&self, key: i32, size: i32, index: i32) -> (r: LatticeImpl) {
        LatticeImpl { state: self.state.new_domain_split(key, size, index) }
    }

    fn new_domain_distrib(&self, key: i32, index: i32) -> (r: LatticeImpl) {
        LatticeImpl { state: self.state.new_domain_distrib(key, index) }
    }

    fn draw_block(&self) -> (r: [u32; 4]) {
        // The lattice takes the raw pattern identifier: it applies the output
        // permutation and the stream itself.
        let r = shuffled_rotated_lattice::<4>(self.state.sample_id as u32, self.state.pattern_id);
        assert(r@ =~= lattice_block(self.state));
        r
    }

    fn draw_rnd_block(&self) -> (r: [u32; 4]) {
        let r = self.state.draw_rnd::<4>();
        assert(r@ =~= state_rnd_block(self.state));
        r
    }

    fn rng(&self) -> (r: Rng) {
        self.state.rng()
    }
}

/// The draws of a domain of the lattice sampler for the sample indices of one
/// aligned block of `2^m` (`m <= 16`) lie on the rank-1 lattice with spacing
/// `2^(32 - m)`: the samples share their pattern, distinct samples have
/// distinct shuffled indices that agree in their low `32 - m` bits, and each
/// dimension of their draws differs by the generator times the difference of
/// the shuffled indices.
pub proof fn lemma_lattice_sampler_blocks(x: i32, y: i32, frame: i32, key: i32, i: i32, j: i32, m: nat, d: int)
    requires
        state_new_ok(frame, i),
        state_new_ok(frame, j),
        m <= 16,
        i as int / pow2(m) as int == j as int / pow2(m) as int,
        0 <= d < 4,
    ensures
        ({
            let di = LatticeImpl::spec_from_pixel(x, y, frame, i, ()).spec_new_domain(key);
            let dj = LatticeImpl::spec_from_pixel(x, y, frame, j, ()).spec_new_domain(key);
            let li = lattice_index(di.state.sample_id as u32, di.state.pattern_id);
            let lj = lattice_index(dj.state.sample_id as u32, dj.state.pattern_id);
            &&& di.state.pattern_id == dj.state.pattern_id
            &&& agree_low(li, lj, (32 - m) as nat)
            &&& (i != j ==> li != lj)
            &&& (di.block()[d] - dj.block()[d]) % 0x1_0000_0000 == (LATTICE[d] * (li - lj)) % 0x1_0000_0000
        }),
{
    lemma_index_block_states(x, y, frame, i, j, m);
    let si = LatticeImpl::spec_from_pixel(x, y, frame, i, ()).spec_new_domain(key).state;
    let sj = LatticeImpl::spec_from_pixel(x, y, frame, j, ()).spec_new_domain(key).state;
    lemma_lattice_blocks(si.sample_id as u32, sj.sample_id as u32, si.pattern_id, m, d);
}

/// Rank-1 lattice sampler.
pub type LatticeSampler = Sampler<LatticeImpl>;

/// Pixel decorrelation: distinct pixels of a 256 x 256 tile (same frame and
/// sample index) get distinct patterns, so each draws its own randomisation.
pub proof fn lemma_lattice_pixels_decorrelated(
    x1: i32,
    y1: i32,
    x2: i32,
    y2: i32,
    frame: i32,
    index: i32,
)
    requires
        0 <= x1 < 256,
        0 <= y1 < 256,
        0 <= x2 < 256,
        0 <= y2 < 256,
        x1 != x2 || y1 != y2,
    ensures
        LatticeImpl::spec_from_pixel(x1, y1, frame, index, ()).state.pattern_id != LatticeImpl::spec_from_pixel(
            x2,
            y2,
            frame,
            index,
            (),
        ).state.pattern_id,
{
    lemma_pixel_decorrelate_distinct(x1, y1, x2, y2, frame, index);
}

/// The pseudo-random values of a domain: its stream is seeded with its
/// pattern plus its sample, `draw_rnd` gives the first four values of that
/// stream, and distinct samples of one pattern get distinct seeds and distinct
/// first values.
pub proof fn lemma_lattice_rnd_streams(a: LatticeImpl, b: LatticeImpl)
    ensures
        a.rng_seed() == wrapping_add32(a.state.pattern_id, a.state.sample_id as u32),
        a.rnd_block().len() == 4,
        forall|d: int| 0 <= d < 4 ==> #[trigger] a.rnd_block()[d] == pcg_draw(a.rng_seed(), d as nat),
        a.state.pattern_id == b.state.pattern_id && a.state.sample_id != b.state.sample_id ==> a.rng_seed()
            != b.rng_seed() && a.rnd_block()[0] != b.rnd_block()[0],
{
    if a.state.pattern_id == b.state.pattern_id && a.state.sample_id != b.state.sample_id {
        lemma_state_seeds_distinct(a.state, b.state);
    }
}

/// A lattice domain draws, at its sample, the randomised lattice point of its
/// pattern.
pub proof fn lemma_lattice_block(a: LatticeImpl)
    ensures
        a.block().len() == 4,
        forall|d: int|
            0 <= d < 4 ==> #[trigger] a.block()[d] == lattice_sample(a.state.sample_id as u32, a.state.pattern_id, d),
{
}

/// Child domains: distinct keys give distinct patterns, and a child keeps its
/// parent's sample and pixel.
pub proof fn lemma_lattice_new_domain(a: LatticeImpl, k1: i32, k2: i32)
    ensures
        a.spec_new_domain(k1).state.sample_id == a.state.sample_id,
        a.spec_new_domain(k1).state.pixel_id == a.state.pixel_id,
        k1 != k2 ==> a.spec_new_domain(k1).state.pattern_id != a.spec_new_domain(k2).state.pattern_id,
{
    if k1 != k2 {
        lemma_new_domain_keys_distinct(a.state, k1, k2);
    }
}

} // verus!
