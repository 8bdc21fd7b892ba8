//! Bit and byte rotation, used to draw fresh values out of an existing hash.
use vstd::prelude::*;
use crate::bits::bit32;

verus! {

/// Right rotation of a 32-bit value by `distance` places, the distance taken
/// modulo 32.
pub open spec fn rotate_right32(value: u32, distance: u32) -> u32 {
    let s = distance % 32;
    if s == 0 {
        value
    } else {
        (value >> s) | (value << ((32 - s) as u32))
    }
}

/// Bit `i` of a right rotation by `d` is bit `(i + d) mod 32` of the input.
pub proof fn lemma_rotate_right32_bits(value: u32, distance: u32)
    ensures
        forall|i: u32|
            i < 32 ==> #[trigger] bit32(rotate_right32(value, distance), i) == bit32(
                value,
                ((i + distance % 32) % 32) as u32,
            ),
{
    assert(forall|i: u32|
        i < 32 ==> ((rotate_right32(value, distance) >> i) & 1 == 1) == ((value >> (((i
            + distance % 32) % 32) as u32)) & 1 == 1)) by (bit_vector);
}

/// Rotate the bits of a 32-bit integer right by `distance` (wrapping every 32).
pub fn rotate_bits(value: u32, distance: u32) -> (r: u32)
    ensures
        r == rotate_right32(value, distance),
{
    let s = distance % 32;
    if s == 0 {
        value
    } else {
        (value >> s) | (value << (32 - s))
    }
}

/// The bit distance that a byte rotation by `distance` stands for.
pub open spec fn byte_distance(distance: i32) -> u32 {
    (distance * 8) as u32
}

/// Rotate the bytes of a 4-byte integer right by `distance` (wrapping every 4).
pub fn rotate_bytes(value: u32, distance: i32) -> (r: u32)
    requires
        i32::MIN <= distance * 8 <= i32::MAX,
    ensures
        r == rotate_right32(value, byte_distance(distance)),
{
    rotate_bits(value, (distance * 8) as u32)
}

/// A rotation by 32 places or more wraps: rotating by `d + 32` is rotating by `d`.
pub proof fn lemma_rotate_bits_wraps(value: u32, distance: u32)
    requires
        distance + 32 <= u32::MAX,
    ensures
        rotate_right32(value, (distance + 32) as u32) == rotate_right32(value, distance),
{
}

/// A byte rotation wraps every four bytes.
pub proof fn lemma_rotate_bytes_wraps(value: u32, distance: i32)
    requires
        i32::MIN <= (distance + 4) * 8 <= i32::MAX,
        i32::MIN <= distance * 8 <= i32::MAX,
    ensures
        rotate_right32(value, byte_distance((distance + 4) as i32)) == rotate_right32(
            value,
            byte_distance(distance),
        ),
{
    let d = distance;
    assert(((d * 8 + 32) as u32) % 32 == ((d * 8) as u32) % 32) by (bit_vector)
        requires
            i32::MIN <= d * 8 + 32 <= i32::MAX,
            i32::MIN <= d * 8 <= i32::MAX,
    ;
}

} // verus!
