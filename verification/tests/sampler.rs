use openqmc::bntables::{BnTables, SIZE};
use openqmc::lattice::LatticeImpl;
use openqmc::pmjbn::PmjBnTables;
use openqmc::sobol::SobolImpl;
use openqmc::stochastic::stochastic_pmj_init;
use openqmc::{
    LatticeBnSampler, LatticeSampler, PmjBnSampler, PmjSampler, SamplerImpl, SobolBnSampler,
    SobolSampler, State64Bit,
};

fn bn_tables() -> (Vec<u32>, Vec<u32>) {
    let keys: Vec<u32> = (0..SIZE as u32).map(|i| i.wrapping_mul(0x9e37_79b9)).collect();
    let ranks: Vec<u32> = (0..SIZE as u32).map(|i| i.wrapping_mul(40503) & 0xffff).collect();
    (keys, ranks)
}

fn pmj_table() -> Vec<[u32; 4]> {
    let mut table = vec![[0u32; 4]; SIZE];
    stochastic_pmj_init(SIZE, &mut table);
    table
}

#[test]
fn sobol_draws_are_prefixes_of_the_block() {
    let root = SobolSampler::new(12, 34, 0, 7, ());
    let camera = root.new_domain(0);
    let four = camera.draw_sample::<4>();
    let two = camera.draw_sample::<2>();
    assert_eq!(two, [four[0], four[1]]);
    let rnd4 = camera.draw_rnd::<4>();
    let rnd1 = camera.draw_rnd::<1>();
    assert_eq!(rnd1, [rnd4[0]]);
}

#[test]
fn sobol_sampler_decorrelates_pixels() {
    let imp = SobolImpl::from_pixel(12, 34, 0, 7, ());
    let state = State64Bit::new(12, 34, 0, 7).pixel_decorrelate();
    assert_eq!(imp.state, state);
}

#[test]
fn chain_is_two_nested_domains() {
    let root = LatticeSampler::new(1, 2, 3, 4, ());
    let a = root.new_domain_chain(5, 6).draw_sample::<4>();
    let b = root.new_domain(5).new_domain(6).draw_sample::<4>();
    assert_eq!(a, b);
}

#[test]
fn ranged_draws_stay_in_range() {
    let root = SobolSampler::new(3, 3, 1, 100, ());
    for d in 0..16 {
        let s = root.new_domain(d);
        for v in s.draw_sample_range::<4>(7) {
            assert!(v < 7);
        }
        for v in s.draw_rnd_range::<3>(1) {
            assert_eq!(v, 0);
        }
    }
}

#[test]
fn rng_continues_draw_rnd() {
    let root = LatticeSampler::new(9, 9, 9, 9, ());
    let s = root.new_domain(2);
    let values = s.draw_rnd::<4>();
    let mut stream = s.rng();
    for v in values {
        assert_eq!(stream.next_u32(), v);
    }
}

#[test]
fn lattice_draws_match_the_implementation() {
    let imp = LatticeImpl::from_pixel(7, 8, 0, 1, ());
    let s = LatticeSampler::new(7, 8, 0, 1, ());
    assert_eq!(s.draw_sample::<4>(), imp.draw_block());
    assert_eq!(s.draw_rnd::<4>(), imp.draw_rnd_block());
}

#[test]
fn split_domains_differ_per_sub_sample() {
    let root = SobolSampler::new(0, 0, 0, 5, ());
    let a = root.new_domain_split(1, 4, 0).draw_sample::<2>();
    let b = root.new_domain_split(1, 4, 1).draw_sample::<2>();
    assert_ne!(a, b);
    let c = root.new_domain_distrib(1, 0).draw_sample::<2>();
    let d = root.new_domain_distrib(1, 1).draw_sample::<2>();
    assert_ne!(c, d);
}

#[test]
fn pmj_samplers_read_the_table() {
    let table = pmj_table();
    let root = PmjSampler::new(12, 34, 0, 7, &table);
    let [u, v] = root.new_domain(0).draw_sample::<2>();
    let again = PmjSampler::new(12, 34, 0, 7, &table).new_domain(0).draw_sample::<2>();
    assert_eq!([u, v], again);

    let (keys, ranks) = bn_tables();
    let bn = BnTables { key_table: &keys, rank_table: &ranks };
    let tables = PmjBnTables { samples: &table, bn };
    let root = PmjBnSampler::new(12, 34, 0, 7, tables);
    let x = root.new_domain(0).draw_sample::<4>();
    let y = root.new_domain(1).draw_sample::<4>();
    assert_ne!(x, y);
}

#[test]
fn blue_noise_samplers_draw() {
    let (keys, ranks) = bn_tables();
    let bn = BnTables { key_table: &keys, rank_table: &ranks };
    let s = SobolBnSampler::new(1, 2, 0, 3, bn);
    let l = LatticeBnSampler::new(1, 2, 0, 3, bn);
    assert_eq!(s.draw_sample::<4>(), SobolBnSampler::new(1, 2, 0, 3, bn).draw_sample::<4>());
    assert_ne!(s.draw_sample::<4>(), l.draw_sample::<4>());
    let r = s.draw_rnd::<4>();
    let mut stream = s.rng();
    assert_eq!(stream.next_u32(), r[0]);
}

#[test]
fn table_free_samplers_are_eight_bytes() {
    assert_eq!(std::mem::size_of::<SobolSampler>(), 8);
    assert_eq!(std::mem::size_of::<LatticeSampler>(), 8);
}

#[test]
fn pmj_draws_are_stratified() {
    let table = pmj_table();
    let m = 6u32;
    let n = 1 << m;
    let imp: Vec<[u32; 4]> = (0..n)
        .map(|i| PmjSampler::new(5, 6, 0, i, &table).new_domain(3).draw_sample::<4>())
        .collect();
    for d in 0..4 {
        let mut strata: Vec<u32> = imp.iter().map(|p| p[d] >> (32 - m)).collect();
        strata.sort();
        strata.dedup();
        assert_eq!(strata.len(), n as usize);
    }
}

#[test]
fn pmj_draws_are_02_nets() {
    let table = pmj_table();
    let m = 6u32;
    let n = 1 << m;
    let draws: Vec<[u32; 4]> = (0..n)
        .map(|i| PmjSampler::new(5, 6, 0, i, &table).new_domain(3).draw_sample::<4>())
        .collect();
    for pair in 0..2 {
        for a in 0..=m {
            let b = m - a;
            let mut cells: Vec<(u64, u64)> = draws
                .iter()
                .map(|p| ((p[2 * pair] as u64) >> (32 - a), (p[2 * pair + 1] as u64) >> (32 - b)))
                .collect();
            cells.sort();
            cells.dedup();
            assert_eq!(cells.len(), n as usize);
        }
    }
}

#[test]
fn sobol_draws_are_02_nets() {
    let m = 7u32;
    let n = 1i32 << m;
    for start in [0i32, 3 * n, 70_000] {
        let start = start - start % n;
        let draws: Vec<[u32; 2]> = (start..start + n)
            .map(|i| SobolSampler::new(11, 4, 2, i, ()).new_domain(9).draw_sample::<2>())
            .collect();
        for a in 0..=m {
            let b = m - a;
            let mut cells: Vec<(u64, u64)> =
                draws.iter().map(|p| ((p[0] as u64) >> (32 - a), (p[1] as u64) >> (32 - b))).collect();
            cells.sort();
            cells.dedup();
            assert_eq!(cells.len(), n as usize);
        }
    }
}

fn count_cells(draws: &[[u32; 4]], pair: usize, a: u32, b: u32) -> usize {
    let mut cells: Vec<(u64, u64)> = draws
        .iter()
        .map(|p| ((p[2 * pair] as u64) >> (32 - a), (p[2 * pair + 1] as u64) >> (32 - b)))
        .collect();
    cells.sort();
    cells.dedup();
    cells.len()
}

#[test]
fn blue_noise_draws_are_02_nets() {
    let table = pmj_table();
    let (keys, ranks) = bn_tables();
    let bn = BnTables { key_table: &keys, rank_table: &ranks };
    let tables = PmjBnTables { samples: &table, bn };
    let m = 5u32;
    let n = 1i32 << m;
    let start = 5 * n;
    let sobol: Vec<[u32; 4]> = (start..start + n)
        .map(|i| SobolBnSampler::new(40, 17, 1, i, bn).new_domain(2).draw_sample::<4>())
        .collect();
    let pmj: Vec<[u32; 4]> = (start..start + n)
        .map(|i| PmjBnSampler::new(40, 17, 1, i, tables).new_domain(2).draw_sample::<4>())
        .collect();
    for a in 0..=m {
        let b = m - a;
        assert_eq!(count_cells(&sobol, 0, a, b), n as usize);
        assert_eq!(count_cells(&pmj, 0, a, b), n as usize);
        assert_eq!(count_cells(&pmj, 1, a, b), n as usize);
    }
}

#[test]
fn lattice_block_draws_lie_on_the_lattice() {
    let m = 6u32;
    let n = 1i32 << m;
    let start = 9 * n;
    let draws: Vec<[u32; 4]> = (start..start + n)
        .map(|i| LatticeSampler::new(3, 8, 0, i, ()).new_domain(4).draw_sample::<4>())
        .collect();
    // Dimension 0 has generator 1: the points are one grid of spacing 2^(32 - m).
    let spacing = 1u32 << (32 - m);
    let offset = draws[0][0] % spacing;
    assert!(draws.iter().all(|p| p[0] % spacing == offset));
    let mut firsts: Vec<u32> = draws.iter().map(|p| p[0]).collect();
    firsts.sort();
    firsts.dedup();
    assert_eq!(firsts.len(), n as usize);
}
