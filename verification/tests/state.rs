use openqmc::pcg::{self, Rng};
use openqmc::state::{compute_index_id, compute_index_key, State64Bit, MAX_INDEX_SIZE};

const FRAME: i32 = 2;
const INDEX: i32 = 3;
const PIXEL_X: i32 = 5;
const PIXEL_Y: i32 = 7;
const PRIMES: [i32; 20] = [
    2, 3, 5, 7, 11, 13, 17, 19, 23, 29, 31, 37, 41, 43, 47, 53, 59, 61, 67, 71,
];

fn default_state() -> State64Bit {
    State64Bit::new(PIXEL_X, PIXEL_Y, FRAME, INDEX)
}

#[test]
fn is_eight_bytes() {
    assert_eq!(std::mem::size_of::<State64Bit>(), 8);
}

#[test]
fn alter_sample() {
    let d = default_state();
    for prime in PRIMES {
        let s = State64Bit::new(PIXEL_X, PIXEL_Y, FRAME, prime);
        assert_eq!(s.pattern_id, d.pattern_id);
        assert_eq!(s.pixel_id, d.pixel_id);
        if prime == INDEX {
            assert_eq!(s.sample_id, d.sample_id);
        } else {
            assert_ne!(s.sample_id, d.sample_id);
        }
    }

    let a = State64Bit::new(PIXEL_X, PIXEL_Y, FRAME, MAX_INDEX_SIZE as i32);
    let b = State64Bit::new(PIXEL_X, PIXEL_Y, FRAME, MAX_INDEX_SIZE as i32 - 1);
    assert_eq!(a.sample_id, 0);
    assert_eq!(b.sample_id, (MAX_INDEX_SIZE - 1) as u16);
    assert_ne!(a.pattern_id, b.pattern_id);
}

#[test]
fn alter_pixel() {
    let base = State64Bit::new(0, 0, 0, INDEX);
    let base_dec = base.pixel_decorrelate();
    for x in 1..11 {
        let s = State64Bit::new(x, 0, 0, INDEX);
        assert_eq!(s.pattern_id, base.pattern_id);
        assert_eq!(s.sample_id, base.sample_id);
        assert_ne!(s.pixel_id, base.pixel_id);
        assert_ne!(s.pixel_decorrelate().pattern_id, base_dec.pattern_id);
    }
}

#[test]
fn new_domain_distinct() {
    let d = default_state();
    let mut seen_state = Vec::new();
    let mut seen_distr = Vec::new();
    let mut seen_split = Vec::new();
    for prime in PRIMES {
        let state = d.new_domain(prime);
        let distr = d.new_domain_distrib(prime, 0);
        let split = d.new_domain_split(prime, 11, 0);

        assert_ne!(state.pattern_id, d.pattern_id);
        assert_ne!(distr.pattern_id, d.pattern_id);
        assert_ne!(split.pattern_id, d.pattern_id);

        assert_eq!(state.sample_id, d.sample_id);
        assert_eq!(distr.sample_id, 0);
        assert!(split.sample_id >= d.sample_id);

        assert_eq!(state.pixel_id, d.pixel_id);
        assert_ne!(state.pattern_id, distr.pattern_id);
        assert_ne!(state.pattern_id, split.pattern_id);

        assert!(!seen_state.contains(&state.pattern_id));
        assert!(!seen_distr.contains(&distr.pattern_id));
        assert!(!seen_split.contains(&split.pattern_id));
        seen_state.push(state.pattern_id);
        seen_distr.push(distr.pattern_id);
        seen_split.push(split.pattern_id);
    }
}

#[test]
fn index_key_and_id_split_the_index() {
    assert_eq!(compute_index_key(0x12_3456), 0x12);
    assert_eq!(compute_index_id(0x12_3456), 0x3456);
    assert_eq!(compute_index_key(-1), -1);
    assert_eq!(compute_index_id(-1), 0xffff);
    assert_eq!(compute_index_key(65535), 0);
}

#[test]
fn new_builds_the_documented_fields() {
    let s = State64Bit::new(3, 4, 10, 0x2_0005);
    assert_eq!(s.pattern_id, pcg::init_seed(12));
    assert_eq!(s.sample_id, 5);
    assert_eq!(s.pixel_id, 3 | (4 << 8));
}

#[test]
fn large_indices_fold_into_the_frame() {
    for index in [0x1_0000, 0x1_0003, 0x5_ffff, 0x7fff_ffff] {
        let a = State64Bit::new(PIXEL_X, PIXEL_Y, FRAME, index);
        let b = State64Bit::new(PIXEL_X, PIXEL_Y, FRAME + (index >> 16), index & 0xffff);
        assert_eq!(a, b);
    }
}

#[test]
fn new_domain_is_one_lcg_step() {
    let d = default_state();
    let c = d.new_domain(9);
    assert_eq!(c.pattern_id, pcg::state_transition(d.pattern_id.wrapping_add(9)));
    let n = d.new_domain(-1);
    assert_eq!(n.pattern_id, pcg::state_transition(d.pattern_id.wrapping_sub(1)));
}

#[test]
fn split_and_distrib_nest_domains() {
    let d = State64Bit::new(1, 2, 3, 0x1234);
    let split = d.new_domain_split(7, 100, 5);
    let combined = 0x1234 * 100 + 5;
    let expected = d.new_domain(7).new_domain(combined >> 16);
    assert_eq!(split.pattern_id, expected.pattern_id);
    assert_eq!(split.sample_id as i32, combined & 0xffff);

    let distr = d.new_domain_distrib(7, 0x3_0002);
    let expected = d.new_domain(7).new_domain(3).new_domain(0x1234);
    assert_eq!(distr.pattern_id, expected.pattern_id);
    assert_eq!(distr.sample_id, 2);
}

#[test]
fn rng_stream_starts_with_draw_rnd() {
    let d = default_state().new_domain(4);
    let values = d.draw_rnd::<6>();
    let mut stream: Rng = d.rng();
    for v in values {
        assert_eq!(stream.next_u32(), v);
    }
    let mut seed = d.pattern_id.wrapping_add(d.sample_id as u32);
    assert_eq!(values[0], pcg::rng(&mut seed));
}

#[test]
fn distinct_keys_give_distinct_patterns() {
    let d = default_state();
    let mut seen = Vec::new();
    for key in -50..50 {
        let p = d.new_domain(key).pattern_id;
        assert!(!seen.contains(&p));
        seen.push(p);
    }
}

#[test]
fn pixels_of_a_tile_decorrelate() {
    let mut seen = std::collections::HashSet::new();
    for x in 0..256 {
        for y in (0..256).step_by(17) {
            assert!(seen.insert(State64Bit::new(x, y, 1, 2).pixel_decorrelate().pattern_id));
        }
    }
}
