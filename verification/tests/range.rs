use openqmc::range::{uint_to_range, uint_to_range_between};

#[test]
fn stays_in_range() {
    for &v in &[0u32, 1, 0x4000_0000, 0x8000_0000, 0xffff_ffff] {
        for range in [1u32, 2, 3, 6, 100, 65536] {
            assert!(uint_to_range(v, range) < range);
        }
    }
}

#[test]
fn extremes() {
    assert_eq!(uint_to_range(0, 10), 0);
    assert_eq!(uint_to_range(u32::MAX, 10), 9);
    assert_eq!(uint_to_range_between(u32::MAX, 5, 15), 14);
}

#[test]
fn scales_by_the_high_bits() {
    assert_eq!(uint_to_range(0x8000_0000, 10), 5);
    assert_eq!(uint_to_range(0x4000_0000, 4), 1);
    assert_eq!(uint_to_range(0x3fff_ffff, 4), 0);
    assert_eq!(uint_to_range(u32::MAX, u32::MAX), u32::MAX - 1);
    assert_eq!(uint_to_range_between(0, 7, 8), 7);
}

#[test]
fn keeps_order() {
    let mut last = 0;
    for v in (0..=u32::MAX).step_by(1 << 20) {
        let r = uint_to_range(v, 1000);
        assert!(r >= last);
        last = r;
    }
}
