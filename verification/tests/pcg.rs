use openqmc::pcg::{hash, init, init_seed, output, rng, state_transition, Rng};

const PRIMES: [u32; 20] = [
    2, 3, 5, 7, 11, 13, 17, 19, 23, 29, 31, 37, 41, 43, 47, 53, 59, 61, 67, 71,
];

#[test]
fn state_transition_changes() {
    assert_ne!(state_transition(0), 0);
    for p in PRIMES {
        assert_ne!(state_transition(p), p);
    }
}

#[test]
fn output_permutation_fixes_zero() {
    assert_eq!(output(0), 0);
    for p in PRIMES {
        assert_ne!(output(p), p);
    }
}

#[test]
fn init_default_equals_zero_seed() {
    assert_eq!(init(), init_seed(0));
}

#[test]
fn hash_equals_rng_on_init() {
    // hash(state) == rng(state) when state is freshly initialised.
    for seed in PRIMES {
        let mut state = init_seed(seed);
        let h = hash(state);
        let r = rng(&mut state);
        assert_eq!(h, r);
    }
}

#[test]
fn rng_stream_is_deterministic() {
    let mut a = Rng::new(0xC0FF_EE00);
    let mut b = Rng::new(0xC0FF_EE00);
    for _ in 0..16 {
        assert_eq!(a.next_u32(), b.next_u32());
    }
}

#[test]
fn transition_is_the_lcg_step() {
    assert_eq!(state_transition(0), 2891336453);
    assert_eq!(state_transition(1), 747796405u32.wrapping_add(2891336453));
    assert_eq!(
        state_transition(0xffff_ffff),
        ((0xffff_ffffu64 * 747796405 + 2891336453) % (1u64 << 32)) as u32
    );
    assert_eq!(init(), 2891336453);
    assert_eq!(init_seed(5), 2891336458);
}

#[test]
fn output_of_known_states() {
    // RXS: 1 ^ (1 >> 4) = 1; M: 277803737; XS: x ^ (x >> 22).
    let m = 277803737u32;
    assert_eq!(output(1), m ^ (m >> 22));
    let s = 0xf000_0000u32;
    let a = s ^ (s >> 19);
    let b = a.wrapping_mul(277803737);
    assert_eq!(output(s), b ^ (b >> 22));
}

#[test]
fn stream_values_follow_the_state() {
    let mut r = Rng::new(42);
    let mut state = 42u32;
    for _ in 0..8 {
        state = state_transition(state);
        assert_eq!(r.next_u32(), output(state));
    }
}

#[test]
fn transition_and_output_are_one_to_one_on_a_sample() {
    let mut t: Vec<u32> = (0..1u32 << 16).map(|s| state_transition(s * 65537)).collect();
    let mut o: Vec<u32> = (0..1u32 << 16).map(|s| output(s * 65537)).collect();
    t.sort();
    t.dedup();
    o.sort();
    o.dedup();
    assert_eq!(t.len(), 1 << 16);
    assert_eq!(o.len(), 1 << 16);
}
