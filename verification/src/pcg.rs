//! The PCG-RXS-M-XS-32 generator by Melissa O'Neill, used both as a classic
//! sequential generator and (through `hash`) as a stateless hash function.
use vstd::prelude::*;
use crate::bits::{wrapping_add32, wrapping_mul32, lemma_add_agree, lemma_odd_mul_agree, lemma_agree_all};

verus! {

/// The LCG step: `747796405 * state + 2891336453` modulo 2^32.
pub open spec fn pcg_transition(state: u32) -> u32 {
    ((747796405 * state + 2891336453) % 0x1_0000_0000) as u32
}

/// The RXS-M-XS output permutation of a state.
pub open spec fn pcg_output(state: u32) -> u32 {
    let a = state ^ (state >> ((4 + (state >> 28u32)) as u32));
    let b = ((a * 277803737) % 0x1_0000_0000) as u32;
    b ^ (b >> 22u32)
}

/// The state after `n` LCG steps from `state`.
pub open spec fn pcg_advance(state: u32, n: nat) -> u32
    decreases n,
{
    if n == 0 {
        state
    } else {
        pcg_transition(pcg_advance(state, (n - 1) as nat))
    }
}

/// The `i`-th value (from 0) that a generator seeded with `state` yields.
pub open spec fn pcg_draw(state: u32, i: nat) -> u32 {
    pcg_output(pcg_advance(state, i + 1))
}

/// The default state: one step from zero.
pub open spec fn pcg_init_state() -> u32 {
    pcg_transition(0)
}

/// LCG state-transition: advance the index along the sequence.
pub fn state_transition(state: u32) -> (r: u32)
    ensures
        r == pcg_transition(state),
{
    let m = state.wrapping_mul(747796405);
    let r = m.wrapping_add(2891336453);
    proof {
        vstd::arithmetic::div_mod::lemma_add_mod_noop(state * 747796405, 2891336453, 0x1_0000_0000);
        vstd::arithmetic::div_mod::lemma_mod_twice(2891336453, 0x1_0000_0000);
        assert(m == (state * 747796405) % 0x1_0000_0000);
        assert(r == (m + 2891336453) % 0x1_0000_0000);
    }
    r
}

/// Output permutation of the state (the RXS-M-XS steps), giving a usable value.
pub fn output(state: u32) -> (r: u32)
    ensures
        r == pcg_output(state),
{
    proof {
        vstd::bits::lemma_u32_shr_is_div(state, 28);
        vstd::arithmetic::power2::lemma2_to64();
        assert(state / 0x1000_0000 < 16) by (nonlinear_arith)
            requires state < 0x1_0000_0000;
    }
    let mut s = state;
    s = s ^ (s >> (4 + (s >> 28)));
    s = s.wrapping_mul(277803737);
    s = s ^ (s >> 22);
    s
}

/// Default-initialise the generator state (zero seed).
pub fn init() -> (r: u32)
    ensures
        r == pcg_init_state(),
{
    state_transition(0)
}

/// Initialise the generator state from a seed.
pub fn init_seed(seed: u32) -> (r: u32)
    ensures
        r == (pcg_init_state() + seed) % 0x1_0000_0000,
{
    init().wrapping_add(seed)
}

/// Stateless hash of an input key.
pub fn hash(key: u32) -> (r: u32)
    ensures
        r == pcg_output(pcg_transition(key)),
{
    output(state_transition(key))
}

/// Advance `state` and return the next value in the sequence.
pub fn rng(state: &mut u32) -> (r: u32)
    ensures
        *final(state) == pcg_transition(*old(state)),
        r == pcg_output(*final(state)),
{
    *state = state_transition(*state);
    output(*state)
}

/// A sequential PCG stream.
#[derive(Clone, Copy, Debug)]
pub struct Rng {
    state: u32,
}

impl View for Rng {
    type V = u32;

    /// The running state of the stream.
    closed spec fn view(&self) -> u32 {
        self.state
    }
}

impl Rng {
    /// Seed a stream. The seed is used directly as the running state.
    pub fn new(seed: u32) -> (r: Rng)
        ensures
            r@ == seed,
    {
        Rng { state: seed }
    }

    /// Next raw 32-bit value.
    pub fn next_u32(&mut self) -> (r: u32)
        ensures
            final(self)@ == pcg_transition(old(self)@),
            r == pcg_output(final(self)@),
    {
        rng(&mut self.state)
    }
}

/// Advancing `n + 1` times is one more step after advancing `n` times.
pub proof fn lemma_advance_succ(state: u32, n: nat)
    ensures
        pcg_advance(state, n + 1) == pcg_transition(pcg_advance(state, n)),
{
}

/// The default state is the state seeded with zero.
pub proof fn lemma_init_is_zero_seed()
    ensures
        (pcg_init_state() + 0) % 0x1_0000_0000 == pcg_init_state(),
{
}

/// Hashing a key gives the first value that a generator in state `key` yields.
pub proof fn lemma_hash_is_first_draw(key: u32)
    ensures
        pcg_output(pcg_transition(key)) == pcg_draw(key, 0),
{
    assert(pcg_advance(key, 1) == pcg_transition(pcg_advance(key, 0)));
}

/// Each `next_u32` of a stream seeded with `seed` yields the next value of
/// the sequence: after `n` calls the state is `pcg_advance(seed, n)`, and the
/// `n`-th call returns `pcg_draw(seed, n)`.
pub proof fn lemma_stream_step(seed: u32, n: nat, before: u32, after: u32)
    requires
        before == pcg_advance(seed, n),
        after == pcg_transition(before),
    ensures
        after == pcg_advance(seed, n + 1),
        pcg_output(after) == pcg_draw(seed, n),
{
}

/// The LCG step is a multiply by an odd constant and an add, modulo 2^32.
proof fn lemma_transition_wrapping(state: u32)
    ensures
        pcg_transition(state) == wrapping_add32(wrapping_mul32(state, 747796405), 2891336453),
{
    vstd::arithmetic::div_mod::lemma_add_mod_noop(state * 747796405, 2891336453, 0x1_0000_0000);
    vstd::arithmetic::div_mod::lemma_mod_twice(state * 747796405, 0x1_0000_0000);
    vstd::arithmetic::div_mod::lemma_mod_twice(2891336453, 0x1_0000_0000);
}

/// The LCG step is one-to-one: distinct states have distinct successors.
pub proof fn lemma_transition_injective(a: u32, b: u32)
    ensures
        pcg_transition(a) == pcg_transition(b) ==> a == b,
{
    lemma_transition_wrapping(a);
    lemma_transition_wrapping(b);
    let ma = wrapping_mul32(a, 747796405);
    let mb = wrapping_mul32(b, 747796405);
    lemma_add_agree(ma, mb, 2891336453, 32);
    lemma_odd_mul_agree(a, b, 747796405, 32);
    lemma_agree_all(a, b);
    lemma_agree_all(ma, mb);
    lemma_agree_all(wrapping_add32(ma, 2891336453), wrapping_add32(mb, 2891336453));
}

/// The output permutation is one-to-one: distinct states give distinct
/// outputs.
pub proof fn lemma_output_injective(a: u32, b: u32)
    ensures
        pcg_output(a) == pcg_output(b) ==> a == b,
{
    let xa = a ^ (a >> ((4 + (a >> 28u32)) as u32));
    let xb = b ^ (b >> ((4 + (b >> 28u32)) as u32));
    let ma = ((xa * 277803737) % 0x1_0000_0000) as u32;
    let mb = ((xb * 277803737) % 0x1_0000_0000) as u32;
    assert((ma ^ (ma >> 22u32) == mb ^ (mb >> 22u32)) ==> ma == mb) by (bit_vector);
    lemma_odd_mul_agree(xa, xb, 277803737, 32);
    lemma_agree_all(xa, xb);
    lemma_agree_all(ma, mb);
    assert(xa == xb ==> a == b) by (bit_vector)
        requires
            xa == a ^ (a >> ((4 + (a >> 28u32)) as u32)),
            xb == b ^ (b >> ((4 + (b >> 28u32)) as u32)),
    ;
}

} // verus!
