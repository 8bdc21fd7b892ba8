use openqmc::encode::{decode_bits16, encode_bits16, EncodeKey};

#[test]
fn round_trips_within_precision() {
    // 8/8/0 split (the pixel encoding used by State64Bit), values < 256.
    for x in [0, 1, 5, 42, 200, 255] {
        for y in [0, 3, 128, 255] {
            let k = EncodeKey { x, y, z: 0 };
            let e = encode_bits16::<8, 8, 0>(k);
            assert_eq!(decode_bits16::<8, 8, 0>(e), k);
        }
    }
}

#[test]
fn masks_out_of_range_bits() {
    // x is only 8 bits wide, so bit 8+ is dropped.
    let e = encode_bits16::<8, 8, 0>(EncodeKey { x: 256, y: 0, z: 0 });
    assert_eq!(e, 0);
}

#[test]
fn encode_places_each_axis() {
    let e = encode_bits16::<4, 5, 6>(EncodeKey { x: 0xa, y: 0x13, z: 0x2c });
    assert_eq!(e, 0xa | (0x13 << 4) | (0x2c << 9));
    assert_eq!(decode_bits16::<4, 5, 6>(e), EncodeKey { x: 0xa, y: 0x13, z: 0x2c });
}

#[test]
fn negative_coordinates_wrap_to_their_low_bits() {
    let e = encode_bits16::<8, 8, 0>(EncodeKey { x: -1, y: -256, z: 7 });
    assert_eq!(e, 0x00ff);
    assert_eq!(decode_bits16::<8, 8, 0>(e), EncodeKey { x: 255, y: 0, z: 0 });
}

#[test]
fn decode_then_encode_is_identity() {
    for v in [0u16, 1, 0x1234, 0x7fff, 0x3ff] {
        let k = decode_bits16::<5, 5, 5>(v);
        assert_eq!(encode_bits16::<5, 5, 5>(k), v);
    }
}
