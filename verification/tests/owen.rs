use openqmc::owen::{scramble_and_reverse, shuffled_scrambled_sobol, sobol_reversed_index};
use openqmc::pcg;
use openqmc::permute::laine_karras_permutation;
use openqmc::reverse::{reverse_bits16, reverse_bits32};

#[test]
fn dim0_is_van_der_corput() {
    // Dimension 0 of the Sobol sequence is the radical inverse (bit reversal).
    for index in [0u16, 1, 2, 3, 255, 12345, 65535] {
        assert_eq!(sobol_reversed_index(index, 0), reverse_bits16(index));
    }
}

#[test]
fn first_sample_is_origin() {
    let s = shuffled_scrambled_sobol::<4>(0, pcg::hash(0));
    let s2 = shuffled_scrambled_sobol::<4>(0, pcg::hash(0));
    assert_eq!(s, s2);
}

// The first Sobol pair is a (0,2)-net: for every axis-aligned power-of-two
// stratification of n=2^m points, each stratum holds exactly one point.
#[test]
fn is_02_net() {
    const M: u32 = 8;
    const N: u32 = 1 << M;
    let seed = pcg::hash(0);

    for i in 0..=M {
        let x_res = 1u32 << i;
        let y_res = 1u32 << (M - i);
        assert_eq!(x_res * y_res, N);

        let x_width = u32::MAX / x_res;
        let y_width = u32::MAX / y_res;

        let mut strata = vec![false; N as usize];
        for index in 0..N {
            let out = shuffled_scrambled_sobol::<2>(index, seed);
            let x = out[0] / x_width;
            let y = out[1] / y_width;
            let cell = (y * x_res + x) as usize;
            assert!(!strata[cell], "stratum {cell} occupied twice");
            strata[cell] = true;
        }
        assert!(strata.iter().all(|&b| b));
    }
}

#[test]
fn matrix_dimensions_are_xor_of_directions() {
    // Single-bit indices pick one direction vector.
    assert_eq!(sobol_reversed_index(1, 1), 0b1111111111111111);
    assert_eq!(sobol_reversed_index(1 << 15, 2), 0b0000000000000001);
    assert_eq!(sobol_reversed_index(0b11, 3), 0b1010000011000011 ^ 0b0100000001000001);
    assert_eq!(sobol_reversed_index(0, 2), 0);
}

#[test]
fn dim0_matches_reversal_everywhere() {
    for index in 0..=u16::MAX {
        assert_eq!(sobol_reversed_index(index, 0), reverse_bits16(index));
    }
}

#[test]
fn scramble_and_reverse_composes() {
    for v in [0u32, 7, 0xdead_beef] {
        for seed in [1u32, 99, 0x1234_5678] {
            assert_eq!(scramble_and_reverse(v, seed), reverse_bits32(laine_karras_permutation(v, seed)));
        }
    }
}

#[test]
fn depth_does_not_change_values() {
    for index in [0u32, 1, 77, 65535, 70000] {
        let seed = pcg::hash(3);
        let four = shuffled_scrambled_sobol::<4>(index, seed);
        let two = shuffled_scrambled_sobol::<2>(index, seed);
        let one = shuffled_scrambled_sobol::<1>(index, seed);
        assert_eq!(two, [four[0], four[1]]);
        assert_eq!(one, [four[0]]);
    }
}

#[test]
fn later_blocks_are_02_nets() {
    const M: u32 = 6;
    const N: u32 = 1 << M;
    let seed = pcg::hash(17);
    for block in [1u32, 5, 1000] {
        for a in 0..=M {
            let b = M - a;
            let mut cells = std::collections::HashSet::new();
            for index in block * N..(block + 1) * N {
                let out = shuffled_scrambled_sobol::<2>(index, seed);
                let x = if a == 0 { 0 } else { out[0] >> (32 - a) };
                let y = if b == 0 { 0 } else { out[1] >> (32 - b) };
                assert!(cells.insert((x, y)));
            }
        }
    }
}

#[test]
fn indices_beyond_the_table_repeat_points() {
    let seed = pcg::hash(5);
    let mut seen = std::collections::HashMap::new();
    for index in 0..(1u32 << 16) {
        seen.insert(shuffled_scrambled_sobol::<4>(index, seed), index);
    }
    assert_eq!(seen.len(), 1 << 16);
    for index in [1u32 << 16, 70_000, 1 << 20, u32::MAX] {
        assert!(seen.contains_key(&shuffled_scrambled_sobol::<4>(index, seed)));
    }
}
