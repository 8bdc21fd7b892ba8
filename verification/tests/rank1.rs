use openqmc::pcg::{self, Rng};
use openqmc::permute::reverse_and_shuffle;
use openqmc::rank1::{lattice_reversed_index, shuffled_rotated_lattice, LATTICE};

#[test]
fn deterministic() {
    let a = shuffled_rotated_lattice::<4>(7, pcg::hash(3));
    let b = shuffled_rotated_lattice::<4>(7, pcg::hash(3));
    assert_eq!(a, b);
}

#[test]
fn dimension0_generator_is_one() {
    // LATTICE[0] == 1, so dim0 is a pure radical-inverse + shift.
    assert_eq!(lattice_reversed_index(12345, 0), 12345);
}

#[test]
fn lattice_points_are_generator_times_index_plus_shift() {
    let index = 11u32;
    let pattern = 0xabcd_ef01u32;
    let shuffled = reverse_and_shuffle(index, pcg::output(pattern));
    let mut stream = Rng::new(pattern);
    let got = shuffled_rotated_lattice::<4>(index, pattern);
    for d in 0..4 {
        let expected = LATTICE[d].wrapping_mul(shuffled).wrapping_add(stream.next_u32());
        assert_eq!(got[d], expected);
    }
    assert_eq!(lattice_reversed_index(3, 1), 364981 * 3);
    assert_eq!(lattice_reversed_index(0x10000, 3), 97823u32.wrapping_mul(0x10000));
}

#[test]
fn blocks_lie_on_the_lattice() {
    let pattern = pcg::hash(8);
    let m = 5u32;
    let step = 1u32 << (32 - m);
    for block in [0u32, 3] {
        let first = shuffled_rotated_lattice::<4>(block << m, pattern);
        let s0 = reverse_and_shuffle(block << m, pcg::output(pattern));
        for i in (block << m)..((block + 1) << m) {
            let s = reverse_and_shuffle(i, pcg::output(pattern));
            let diff = s.wrapping_sub(s0);
            assert_eq!(diff % step, 0);
            let p = shuffled_rotated_lattice::<4>(i, pattern);
            for d in 0..4 {
                assert_eq!(p[d].wrapping_sub(first[d]), LATTICE[d].wrapping_mul(diff));
            }
        }
    }
}
