//! The public sampler interface. Each implementation computes a full
//! 4-dimensional block; the wrapper's `draw_*::<N>` methods return its first
//! `N` values, which is what computing `N` values directly gives (each output
//! dimension is independent of the requested depth).
//!
//! The tables that some implementations read (the PMJ samples, the blue-noise
//! key and rank tables) are handed in at construction and borrowed for the
//! sampler's lifetime.
use vstd::prelude::*;
use crate::pcg::Rng;
use crate::range::{scale_to_range, uint_to_range};
use crate::state::state_new_ok;

verus! {

/// Internal sampler implementation. Not called directly: use `Sampler`.
pub trait SamplerImpl: Sized + Copy {
    /// The tables the implementation reads (`()` when it reads none).
    type Tables;

    /// Whether `tables` are large enough for every lookup.
    spec fn tables_ok(tables: Self::Tables) -> bool;

    /// The invariant of a value of the implementation.
    spec fn inv(&self) -> bool;

    /// What `from_pixel` builds.
    spec fn spec_from_pixel(x: i32, y: i32, frame: i32, index: i32, tables: Self::Tables) -> Self;

    /// What `new_domain` derives.
    spec fn spec_new_domain(&self, key: i32) -> Self;

    /// Whether `new_domain_split` accepts its arguments.
    spec fn split_ok(&self, size: i32, index: i32) -> bool;

    /// What `new_domain_split` derives.
    spec fn spec_new_domain_split(&self, key: i32, size: i32, index: i32) -> Self;

    /// What `new_domain_distrib` derives.
    spec fn spec_new_domain_distrib(&self, key: i32, index: i32) -> Self;

    /// The high-quality 4D block of the domain.
    spec fn block(&self) -> Seq<u32>;

    /// The low-quality pseudo-random 4D block of the domain.
    spec fn rnd_block(&self) -> Seq<u32>;

    /// The seed of the domain's sequential stream.
    spec fn rng_seed(&self) -> u32;

    /// Construct from pixel/frame/sample indices (index must be `>= 0`).
    fn from_pixel(x: i32, y: i32, frame: i32, index: i32, tables: Self::Tables) -> (r: Self)
        requires
            state_new_ok(frame, index),
            Self::tables_ok(tables),
        ensures
            r == Self::spec_from_pixel(x, y, frame, index, tables),
            r.inv(),
    ;

    /// Derive a child domain (independent 4D pattern).
    fn new_domain(&self, key: i32) -> (r: Self)
        requires
            self.inv(),
        ensures
            r == self.spec_new_domain(key),
            r.inv(),
    ;

    /// Derive a fixed-rate split domain.
    fn new_domain_split(&self, key: i32, size: i32, index: i32) -> (r: Self)
        requires
            self.inv(),
            self.split_ok(size, index),
        ensures
            r == self.spec_new_domain_split(key, size, index),
            r.inv(),
    ;

    /// Derive an adaptive-rate (local) split domain.
    fn new_domain_distrib(&self, key: i32, index: i32) -> (r: Self)
        requires
            self.inv(),
            index >= 0,
        ensures
            r == self.spec_new_domain_distrib(key, index),
            r.inv(),
    ;

    /// Compute the 4D high-quality sample block for this domain.
    fn draw_block(&self) -> (r: [u32; 4])
        requires
            self.inv(),
        ensures
            r@ == self.block(),
    ;

    /// Compute the 4D low-quality pseudo-random block for this domain.
    fn draw_rnd_block(&self) -> (r: [u32; 4])
        requires
            self.inv(),
        ensures
            r@ == self.rnd_block(),
    ;

    /// A sequential stream for this domain (for unbounded draws).
    fn rng(&self) -> (r: Rng)
        requires
            self.inv(),
        ensures
            r@ == self.rng_seed(),
    ;
}

/// The first `N` values of a block.
fn take<const N: usize>(block: [u32; 4]) -> (out: [u32; N])
    requires
        1 <= N <= 4,
    ensures
        forall|i: int| 0 <= i < N ==> #[trigger] out[i] == block[i],
{
    let mut out = [0u32; N];
    let mut i: usize = 0;
    while i < N
        invariant
            N <= 4,
            i <= N,
            out@.len() == N,
            forall|j: int| 0 <= j < i ==> #[trigger] out[j] == block[j],
        decreases N - i,
    {
        out[i] = block[i];
        i += 1;
    }
    out
}

/// The public sampler. Different implementations are interchangeable at every
/// call site.
///
/// A sampler is immutable: derive children with `new_domain*`, draw values
/// with `draw_*`. Deriving a domain is cheap (an LCG state transition); drawing
/// is where the sequence work happens.
#[derive(Copy, Debug)]
pub struct Sampler<T: SamplerImpl> {
    imp: T,
}

impl<T: SamplerImpl> Clone for Sampler<T> {
    fn clone(&self) -> (r: Self)
        ensures
            r == *self,
    {
        *self
    }
}

impl<T: SamplerImpl> View for Sampler<T> {
    type V = T;

    /// The implementation value the sampler wraps.
    closed spec fn view(&self) -> T {
        self.imp
    }
}

impl<T: SamplerImpl> Sampler<T> {
    #[verifier::type_invariant]
    closed spec fn wf(&self) -> bool {
        self.imp.inv()
    }

    /// Construct from pixel coordinate, frame and sample index (`index >= 0`),
    /// reading `tables`.
    pub fn new(x: i32, y: i32, frame: i32, index: i32, tables: T::Tables) -> (r: Self)
        requires
            state_new_ok(frame, index),
            T::tables_ok(tables),
        ensures
            r@ == T::spec_from_pixel(x, y, frame, index, tables),
    {
        Sampler { imp: T::from_pixel(x, y, frame, index, tables) }
    }

    /// Derive a child domain with an independent 4D pattern.
    pub fn new_domain(&self, key: i32) -> (r: Self)
        ensures
            r@ == self@.spec_new_domain(key),
    {
        proof {
            use_type_invariant(self);
        }
        Sampler { imp: self.imp.new_domain(key) }
    }

    /// Derive a split domain with a fixed sample-rate multiplier.
    pub fn new_domain_split(&self, key: i32, size: i32, index: i32) -> (r: Self)
        requires
            self@.split_ok(size, index),
        ensures
            r@ == self@.spec_new_domain_split(key, size, index),
    {
        proof {
            use_type_invariant(self);
        }
        Sampler { imp: self.imp.new_domain_split(key, size, index) }
    }

    /// Derive a split domain with a local (adaptive) distribution.
    pub fn new_domain_distrib(&self, key: i32, index: i32) -> (r: Self)
        requires
            index >= 0,
        ensures
            r@ == self@.spec_new_domain_distrib(key, index),
    {
        proof {
            use_type_invariant(self);
        }
        Sampler { imp: self.imp.new_domain_distrib(key, index) }
    }

    /// Derive a split domain with a global (adaptive) distribution:
    /// `new_domain(key).new_domain(index)`.
    pub fn new_domain_chain(&self, key: i32, index: i32) -> (r: Self)
        requires
            index >= 0,
        ensures
            r@ == self@.spec_new_domain(key).spec_new_domain(index),
    {
        self.new_domain(key).new_domain(index)
    }

    /// Draw `N` (1..=4) high-quality integer sample values, each in `[0, 2^32)`.
    pub fn draw_sample<const N: usize>(&self) -> (r: [u32; N])
        requires
            1 <= N <= 4,
        ensures
            forall|i: int| 0 <= i < N ==> #[trigger] r[i] == self@.block()[i],
    {
        proof {
            use_type_invariant(self);
        }
        take(self.imp.draw_block())
    }

    /// Draw `N` high-quality sample values within `[0, range)`.
    pub fn draw_sample_range<const N: usize>(&self, range: u32) -> (r: [u32; N])
        requires
            1 <= N <= 4,
            range > 0,
        ensures
            forall|i: int|
                0 <= i < N ==> #[trigger] r[i] == scale_to_range(self@.block()[i], range) && r[i] < range,
    {
        let block = self.draw_sample::<N>();
        let mut out = [0u32; N];
        let mut i: usize = 0;
        while i < N
            invariant
                N <= 4,
                range > 0,
                i <= N,
                out@.len() == N,
                forall|j: int| 0 <= j < N ==> #[trigger] block[j] == self@.block()[j],
                forall|j: int|
                    0 <= j < i ==> #[trigger] out[j] == scale_to_range(self@.block()[j], range) && out[j] < range,
            decreases N - i,
        {
            out[i] = uint_to_range(block[i], range);
            i += 1;
        }
        out
    }

    /// Draw `N` (1..=4) low-quality pseudo-random integer values, each in
    /// `[0, 2^32)`.
    pub fn draw_rnd<const N: usize>(&self) -> (r: [u32; N])
        requires
            1 <= N <= 4,
        ensures
            forall|i: int| 0 <= i < N ==> #[trigger] r[i] == self@.rnd_block()[i],
    {
        proof {
            use_type_invariant(self);
        }
        take(self.imp.draw_rnd_block())
    }

    /// Draw `N` low-quality pseudo-random values within `[0, range)`.
    pub fn draw_rnd_range<const N: usize>(&self, range: u32) -> (r: [u32; N])
        requires
            1 <= N <= 4,
            range > 0,
        ensures
            forall|i: int|
                0 <= i < N ==> #[trigger] r[i] == scale_to_range(self@.rnd_block()[i], range) && r[i] < range,
    {
        let block = self.draw_rnd::<N>();
        let mut out = [0u32; N];
        let mut i: usize = 0;
        while i < N
            invariant
                N <= 4,
                range > 0,
                i <= N,
                out@.len() == N,
                forall|j: int| 0 <= j < N ==> #[trigger] block[j] == self@.rnd_block()[j],
                forall|j: int|
                    0 <= j < i ==> #[trigger] out[j] == scale_to_range(self@.rnd_block()[j], range) && out[j] < range,
            decreases N - i,
        {
            out[i] = uint_to_range(block[i], range);
            i += 1;
        }
        out
    }

    /// A sequential stream seeded from this domain, for unbounded random draws
    /// (Russian roulette, delta tracking) where stratification does not apply.
    pub fn rng(&self) -> (r: Rng)
        ensures
            r@ == self@.rng_seed(),
    {
        proof {
            use_type_invariant(self);
        }
        self.imp.rng()
    }
}

} // verus!
