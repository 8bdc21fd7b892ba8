use openqmc::bntables::{decode_table, table_value, SIZE};

fn tables() -> (Vec<u32>, Vec<u32>) {
    let keys: Vec<u32> = (0..SIZE as u32).map(|i| i.wrapping_mul(2654435761)).collect();
    let ranks: Vec<u32> = (0..SIZE as u32).collect();
    (keys, ranks)
}

#[test]
fn lookup_without_shift_reads_the_pixel_entry() {
    let (keys, ranks) = tables();
    let pixel = 3u16 | (4u16 << 8);
    let t = table_value::<8, 8, 0>(pixel, 0, &keys, &ranks);
    assert_eq!(t.rank, pixel as u32);
    assert_eq!(t.key, keys[pixel as usize]);
}

#[test]
fn shift_wraps_around_each_axis() {
    let (keys, ranks) = tables();
    let pixel = 250u16 | (10u16 << 8);
    let shift = 10u16 | (250u16 << 8);
    let t = table_value::<8, 8, 0>(pixel, shift, &keys, &ranks);
    // x: 250 + 10 = 260 -> 4; y: 10 + 250 = 260 -> 4.
    assert_eq!(t.rank, 4 | (4 << 8));
}

#[test]
fn decodes_little_endian_words() {
    let mut bytes = vec![0u8; SIZE * 4];
    bytes[0] = 0x78;
    bytes[1] = 0x56;
    bytes[2] = 0x34;
    bytes[3] = 0x12;
    bytes[SIZE * 4 - 1] = 0xff;
    let t = decode_table(&bytes);
    assert_eq!(t.len(), SIZE);
    assert_eq!(t[0], 0x1234_5678);
    assert_eq!(t[1], 0);
    assert_eq!(t[SIZE - 1], 0xff00_0000);
}
