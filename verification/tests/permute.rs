use openqmc::permute::{laine_karras_permutation, reverse_and_shuffle, shuffle};
use openqmc::reverse::reverse_bits32;

const PRIMES: [u32; 20] = [
    2, 3, 5, 7, 11, 13, 17, 19, 23, 29, 31, 37, 41, 43, 47, 53, 59, 61, 67, 71,
];

#[test]
fn reverse_matches_composition() {
    let values: [u32; 3] = [
        0b01010101010101010011001100110011,
        0b11111111000000001111000011110000,
        0b11111111111111110000000011111111,
    ];
    for value in values {
        for prime in PRIMES {
            let reversed = reverse_bits32(value);
            let v2 = laine_karras_permutation(reversed, prime);
            assert_eq!(reverse_and_shuffle(value, prime), v2);
        }
    }
}

// Over a 4-bit range the low nibble of `shuffle` is a bijection.
#[test]
fn full_permutation_is_bijection() {
    const SIZE: usize = 1 << 4;
    for prime in PRIMES {
        let mut seen = [false; SIZE];
        for i in 0..SIZE as u32 {
            let permuted = reverse_bits32(reverse_and_shuffle(i, prime));
            assert_eq!(permuted, shuffle(i, prime));
            let index = (permuted & (SIZE as u32 - 1)) as usize;
            assert!(!seen[index]);
            seen[index] = true;
        }
        assert!(seen.iter().all(|&b| b));
    }
}

#[test]
fn permutation_of_known_values() {
    let v = 0u32;
    let seed = 5u32;
    // 0 ^ 0 = 0; + 5 = 5; * ((5 >> 16) | 1) = 5; then the two xorshift steps.
    let c = 5u32;
    let d = c ^ c.wrapping_mul(0x05526c56);
    let e = d ^ d.wrapping_mul(0x53a22864);
    assert_eq!(laine_karras_permutation(v, seed), e);
}

#[test]
fn low_bits_follow_low_bits() {
    // Inputs that agree in their low 12 bits give outputs that agree in their
    // low 12 bits, and the lowest differing bit stays the lowest one.
    for seed in PRIMES {
        let a = 0x0000_0abcu32;
        let b = 0x1234_5abcu32;
        let pa = laine_karras_permutation(a, seed);
        let pb = laine_karras_permutation(b, seed);
        assert_eq!(pa & 0xfff, pb & 0xfff);
        assert_eq!((pa ^ pb).trailing_zeros(), (a ^ b).trailing_zeros());
    }
}

#[test]
fn shuffle_low_byte_is_a_permutation() {
    for seed in [0u32, 1, 0xdead_beef, 0x8000_0000] {
        let mut seen = [false; 256];
        for i in 0..256u32 {
            let low = (shuffle(i, seed) & 0xff) as usize;
            assert!(!seen[low]);
            seen[low] = true;
        }
    }
}

#[test]
fn permutation_is_injective_on_a_sample() {
    let seed = 0x9e37_79b9u32;
    let mut outs: Vec<u32> = (0..4096u32).map(|v| laine_karras_permutation(v * 0x10001, seed)).collect();
    outs.sort();
    outs.dedup();
    assert_eq!(outs.len(), 4096);
}
