use openqmc::rotate::{rotate_bits, rotate_bytes};

#[test]
fn rotates_right() {
    assert_eq!(rotate_bits(0x1234_5678, 8), 0x7812_3456);
    assert_eq!(rotate_bits(1, 1), 0x8000_0000);
    assert_eq!(rotate_bits(0xdead_beef, 0), 0xdead_beef);
    assert_eq!(rotate_bits(0xdead_beef, 32), 0xdead_beef);
}

#[test]
fn rotation_wraps_every_32_bits() {
    for d in 0..40u32 {
        assert_eq!(rotate_bits(0x0123_4567, d + 32), rotate_bits(0x0123_4567, d));
    }
}

#[test]
fn byte_rotation_wraps_every_4_bytes() {
    let v = 0xa1b2_c3d4;
    assert_eq!(rotate_bytes(v, 1), 0xd4a1_b2c3);
    assert_eq!(rotate_bytes(v, 5), rotate_bytes(v, 1));
    assert_eq!(rotate_bytes(v, -1), rotate_bytes(v, 3));
    assert_eq!(rotate_bytes(v, 4), v);
}
