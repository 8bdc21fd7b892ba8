//! Pack and unpack a 3-axis integer coordinate key into a single 16-bit value.
//! The sum of the per-axis bit precisions must not exceed 16.
use vstd::prelude::*;

verus! {

/// A 3-dimensional integer coordinate key.
#[derive(Clone, Copy, Debug, PartialEq, Eq, Structural)]
pub struct EncodeKey {
    pub x: i32,
    pub y: i32,
    pub z: i32,
}

/// The mask of the low `bits` bits (for `bits <= 16`).
pub open spec fn low_mask16(bits: u32) -> u32 {
    ((1u32 << bits) - 1) as u32
}

/// The low `bits` bits of a coordinate, taken from its two's complement form.
pub open spec fn field_bits(c: i32, bits: u32) -> u32 {
    (c as u32) & low_mask16(bits)
}

/// The packed form of a key: `x` in bits `[0, XB)`, `y` in `[XB, XB+YB)`,
/// `z` in `[XB+YB, XB+YB+ZB)`, each coordinate cut to its precision.
pub open spec fn encode16(key: EncodeKey, xb: u32, yb: u32, zb: u32) -> u16 {
    (field_bits(key.x, xb) | (field_bits(key.y, yb) << xb) | (field_bits(key.z, zb) << ((xb
        + yb) as u32))) as u16
}

/// The key that a packed value holds.
pub open spec fn decode16(value: u16, xb: u32, yb: u32, zb: u32) -> EncodeKey {
    EncodeKey {
        x: ((value as u32) & low_mask16(xb)) as i32,
        y: (((value as u32) >> xb) & low_mask16(yb)) as i32,
        z: (((value as u32) >> ((xb + yb) as u32)) & low_mask16(zb)) as i32,
    }
}

/// A left shift of one by fewer than 32 places is at least one.
pub proof fn lemma_one_shl_positive(bits: u32)
    requires
        bits < 32,
    ensures
        (1u32 << bits) >= 1,
{
    assert((1u32 << bits) >= 1) by (bit_vector)
        requires bits < 32;
}

/// Encode a coordinate key into 16 bits with the given per-axis precisions.
pub fn encode_bits16<const XB: u32, const YB: u32, const ZB: u32>(key: EncodeKey) -> (r: u16)
    requires
        XB + YB + ZB <= 16,
    ensures
        r == encode16(key, XB, YB, ZB),
{
    proof {
        lemma_one_shl_positive(XB);
        lemma_one_shl_positive(YB);
        lemma_one_shl_positive(ZB);
    }
    let mask_x = (1u32 << XB) - 1;
    let mask_y = (1u32 << YB) - 1;
    let mask_z = (1u32 << ZB) - 1;

    let offset_x: u32 = 0;
    let offset_y: u32 = XB;
    let offset_z: u32 = XB + YB;

    let mut value: u32 = 0;
    value = value | ((key.x as u32 & mask_x) << offset_x);
    value = value | ((key.y as u32 & mask_y) << offset_y);
    value = value | ((key.z as u32 & mask_z) << offset_z);
    proof {
        let fx = key.x as u32 & mask_x;
        assert(((0u32 | (fx << 0u32)) == fx)) by (bit_vector);
    }
    value as u16
}

/// Decode a 16-bit value back into a coordinate key with the given precisions.
pub fn decode_bits16<const XB: u32, const YB: u32, const ZB: u32>(value: u16) -> (r: EncodeKey)
    requires
        XB + YB + ZB <= 16,
    ensures
        r == decode16(value, XB, YB, ZB),
{
    proof {
        lemma_one_shl_positive(XB);
        lemma_one_shl_positive(YB);
        lemma_one_shl_positive(ZB);
    }
    let value = value as u32;
    let mask_x = (1u32 << XB) - 1;
    let mask_y = (1u32 << YB) - 1;
    let mask_z = (1u32 << ZB) - 1;

    let offset_x: u32 = 0;
    let offset_y: u32 = XB;
    let offset_z: u32 = XB + YB;
    proof {
        assert(value >> 0u32 == value) by (bit_vector);
    }
    EncodeKey {
        x: ((value >> offset_x) & mask_x) as i32,
        y: ((value >> offset_y) & mask_y) as i32,
        z: ((value >> offset_z) & mask_z) as i32,
    }
}

/// The coordinates of a decoded key are small and non-negative.
pub proof fn lemma_decode_bounds(value: u16, xb: u32, yb: u32, zb: u32)
    requires
        xb + yb + zb <= 16,
    ensures
        0 <= decode16(value, xb, yb, zb).x < 0x1_0000,
        0 <= decode16(value, xb, yb, zb).y < 0x1_0000,
        0 <= decode16(value, xb, yb, zb).z < 0x1_0000,
{
    let v = value;
    assert({
        let w = v as u32;
        &&& 0 <= ((w & (((1u32 << xb) - 1) as u32)) as i32) < 0x1_0000
        &&& 0 <= (((w >> xb) & (((1u32 << yb) - 1) as u32)) as i32) < 0x1_0000
        &&& 0 <= (((w >> ((xb + yb) as u32)) & (((1u32 << zb) - 1) as u32)) as i32) < 0x1_0000
    }) by (bit_vector)
        requires
            xb + yb + zb <= 16,
    ;
}

/// Decoding an encoded key gives each coordinate cut to its precision.
pub proof fn lemma_decode_encode(key: EncodeKey, xb: u32, yb: u32, zb: u32)
    requires
        xb + yb + zb <= 16,
    ensures
        decode16(encode16(key, xb, yb, zb), xb, yb, zb) == (EncodeKey {
            x: field_bits(key.x, xb) as i32,
            y: field_bits(key.y, yb) as i32,
            z: field_bits(key.z, zb) as i32,
        }),
{
    let x = key.x;
    let y = key.y;
    let z = key.z;
    assert({
        let v = ((((x as u32) & (((1u32 << xb) - 1) as u32)) | (((y as u32) & (((1u32 << yb) - 1) as u32)) << xb)
            | (((z as u32) & (((1u32 << zb) - 1) as u32)) << ((xb + yb) as u32))) as u16) as u32;
        &&& (v & (((1u32 << xb) - 1) as u32)) == (x as u32) & (((1u32 << xb) - 1) as u32)
        &&& ((v >> xb) & (((1u32 << yb) - 1) as u32)) == (y as u32) & (((1u32 << yb) - 1) as u32)
        &&& ((v >> ((xb + yb) as u32)) & (((1u32 << zb) - 1) as u32)) == (z as u32) & (((1u32 << zb) - 1) as u32)
    }) by (bit_vector)
        requires
            xb + yb + zb <= 16,
    ;
}

/// A key whose coordinates fit their precisions survives a round trip.
pub proof fn lemma_encode_round_trip(key: EncodeKey, xb: u32, yb: u32, zb: u32)
    requires
        xb + yb + zb <= 16,
        0 <= key.x < (1u32 << xb),
        0 <= key.y < (1u32 << yb),
        0 <= key.z < (1u32 << zb),
    ensures
        decode16(encode16(key, xb, yb, zb), xb, yb, zb) == key,
{
    lemma_decode_encode(key, xb, yb, zb);
    let x = key.x;
    let y = key.y;
    let z = key.z;
    assert({
        &&& ((x as u32) & (((1u32 << xb) - 1) as u32)) as i32 == x
        &&& ((y as u32) & (((1u32 << yb) - 1) as u32)) as i32 == y
        &&& ((z as u32) & (((1u32 << zb) - 1) as u32)) as i32 == z
    }) by (bit_vector)
        requires
            xb <= 16,
            yb <= 16,
            zb <= 16,
            0 <= x < (1u32 << xb),
            0 <= y < (1u32 << yb),
            0 <= z < (1u32 << zb),
    ;
}

/// A value that fits the total precision survives a round trip.
pub proof fn lemma_encode_decode(value: u16, xb: u32, yb: u32, zb: u32)
    requires
        xb + yb + zb <= 16,
        (value as u32) < (1u32 << ((xb + yb + zb) as u32)),
    ensures
        encode16(decode16(value, xb, yb, zb), xb, yb, zb) == value,
{
    let v = value;
    assert({
        let w = v as u32;
        let x = (w & (((1u32 << xb) - 1) as u32)) as i32;
        let y = ((w >> xb) & (((1u32 << yb) - 1) as u32)) as i32;
        let z = ((w >> ((xb + yb) as u32)) & (((1u32 << zb) - 1) as u32)) as i32;
        ((((x as u32) & (((1u32 << xb) - 1) as u32)) | (((y as u32) & (((1u32 << yb) - 1) as u32)) << xb)
            | (((z as u32) & (((1u32 << zb) - 1) as u32)) << ((xb + yb) as u32))) as u16) == v
    }) by (bit_vector)
        requires
            xb + yb + zb <= 16,
            (v as u32) < (1u32 << ((xb + yb + zb) as u32)),
    ;
}

} // verus!
