//! Quasi-Monte Carlo sampling: Owen-scrambled Sobol, rank-1 lattice and
//! progressive multi-jittered samplers with blue-noise variants, behind a
//! pass-by-value domain-tree API.
use vstd::prelude::*;

pub mod bits;
pub mod bntables;
pub mod encode;
pub mod lattice;
pub mod latticebn;
pub mod lookup;
pub mod owen;
pub mod pcg;
pub mod permute;
pub mod pmj;
pub mod pmj02;
pub mod pmjbn;
pub mod range;
pub mod rank1;
pub mod reverse;
pub mod rotate;
pub mod sampler;
pub mod sobol;
pub mod sobolbn;
pub mod state;
pub mod stochastic;

pub use sampler::{Sampler, SamplerImpl};
pub use state::State64Bit;

pub use lattice::LatticeSampler;
pub use latticebn::LatticeBnSampler;
pub use pmj::PmjSampler;
pub use pmjbn::PmjBnSampler;
pub use sobol::SobolSampler;
pub use sobolbn::SobolBnSampler;

verus! {

} // verus!
