use openqmc::reverse::{reverse_bits16, reverse_bits32};

#[test]
fn reverse_32bit() {
    let inputs: [u32; 5] = [
        0b01010101010101010011001100110011,
        0b11111111000000001111000011110000,
        0b11111111111111110000000011111111,
        0b11111111111111111111111111111111,
        0b00000000000000000000000000000000,
    ];
    let outputs: [u32; 5] = [
        0b11001100110011001010101010101010,
        0b00001111000011110000000011111111,
        0b11111111000000001111111111111111,
        0b11111111111111111111111111111111,
        0b00000000000000000000000000000000,
    ];
    for i in 0..5 {
        assert_eq!(inputs[i], reverse_bits32(outputs[i]));
    }
}

#[test]
fn reverse_16bit() {
    let inputs: [u16; 5] = [
        0b0101010100110011,
        0b0000000011110000,
        0b1111111100000000,
        0b1111111111111111,
        0b0000000000000000,
    ];
    let outputs: [u16; 5] = [
        0b1100110010101010,
        0b0000111100000000,
        0b0000000011111111,
        0b1111111111111111,
        0b0000000000000000,
    ];
    for i in 0..5 {
        assert_eq!(inputs[i], reverse_bits16(outputs[i]));
    }
}

#[test]
fn reverse_twice_is_identity() {
    for v in [0u32, 1, 0x8000_0000, 0x1234_5678, 0xdead_beef, u32::MAX, 0x0f0f_0f0f] {
        assert_eq!(reverse_bits32(reverse_bits32(v)), v);
    }
    for v in [0u16, 1, 0x8000, 0x1234, 0xbeef, u16::MAX] {
        assert_eq!(reverse_bits16(reverse_bits16(v)), v);
    }
}

#[test]
fn reverse_moves_single_bits() {
    for i in 0..32u32 {
        assert_eq!(reverse_bits32(1u32 << i), 1u32 << (31 - i));
    }
    for i in 0..16u16 {
        assert_eq!(reverse_bits16(1u16 << i), 1u16 << (15 - i));
    }
}
