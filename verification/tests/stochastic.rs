use openqmc::lookup::shuffled_scrambled_lookup;
use openqmc::pcg;
use openqmc::stochastic::stochastic_pmj_init;

const FULL: usize = 1 << 16;

#[test]
fn init_is_deterministic() {
    let mut a = vec![[0u32; 4]; FULL];
    let mut b = vec![[0u32; 4]; FULL];
    stochastic_pmj_init(FULL, &mut a);
    stochastic_pmj_init(FULL, &mut b);
    assert_eq!(a, b);
}

// The first pair of a PMJ(0,2) sequence is a (0,2)-net: for a 2^M prefix,
// every power-of-two stratification holds exactly one point.
#[test]
fn first_pair_is_02_net() {
    const M: u32 = 8;
    const N: usize = 1 << M;
    let mut table = vec![[0u32; 4]; FULL];
    stochastic_pmj_init(FULL, &mut table);
    let table = &table[..N];

    for i in 0..=M {
        let x_res = 1u32 << i;
        let y_res = 1u32 << (M - i);
        let x_width = u32::MAX / x_res;
        let y_width = u32::MAX / y_res;

        let mut strata = vec![false; N];
        for s in table {
            let x = s[0] / x_width;
            let y = s[1] / y_width;
            let cell = (x + y * x_res) as usize;
            assert!(!strata[cell], "stratum {cell} occupied twice");
            strata[cell] = true;
        }
        assert!(strata.iter().all(|&b| b));
    }
}

#[test]
fn rows_past_the_sequence_are_untouched() {
    let mut table = vec![[7u32; 4]; FULL + 3];
    stochastic_pmj_init(FULL, &mut table);
    assert_eq!(table[FULL], [7; 4]);
    assert_eq!(table[FULL + 2], [7; 4]);
}

#[test]
fn table_rows_are_lookups_of_the_sequence() {
    // Rows are built from a 2D sequence with lookups under hash(0) and hash(1);
    // reading the table back with the same scrambles undoes nothing, but the
    // two halves of a row come from lookups of the same sequence.
    let mut table = vec![[0u32; 4]; FULL];
    stochastic_pmj_init(FULL, &mut table);
    let pairs: Vec<[u32; 2]> = table.iter().map(|r| [r[0], r[1]]).collect();
    let other: Vec<[u32; 2]> = table.iter().map(|r| [r[2], r[3]]).collect();
    assert_ne!(pairs, other);
    let x = shuffled_scrambled_lookup::<4, 2>(5, pcg::hash(9), &table);
    assert_eq!(x.len(), 2);
}

#[test]
fn table_blocks_are_stratified_per_coordinate() {
    let mut table = vec![[0u32; 4]; FULL];
    stochastic_pmj_init(FULL, &mut table);
    for m in [1u32, 4, 8, 12] {
        let n = 1usize << m;
        for start in [0usize, n, 7 * n, FULL - n] {
            for d in 0..4 {
                let mut strata: Vec<u32> = table[start..start + n].iter().map(|r| r[d] >> (32 - m)).collect();
                strata.sort();
                strata.dedup();
                assert_eq!(strata.len(), n);
            }
        }
    }
}

#[test]
fn table_blocks_are_02_nets_in_both_pairs() {
    let mut table = vec![[0u32; 4]; FULL];
    stochastic_pmj_init(FULL, &mut table);
    for m in [1u32, 5, 10] {
        let n = 1usize << m;
        for start in [0usize, 3 * n, FULL - n] {
            for pair in 0..2 {
                for a in 0..=m {
                    let b = m - a;
                    let mut cells: Vec<(u64, u64)> = table[start..start + n]
                        .iter()
                        .map(|r| ((r[2 * pair] as u64) >> (32 - a), (r[2 * pair + 1] as u64) >> (32 - b)))
                        .collect();
                    cells.sort();
                    cells.dedup();
                    assert_eq!(cells.len(), n);
                }
            }
        }
    }
}
