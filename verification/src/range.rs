//! Map a full-range 32-bit integer into a bounded range with the
//! high-bits-preserving multiplication method (Lemire 2019).
use vstd::prelude::*;
use vstd::arithmetic::power2::pow2;

verus! {

/// `value * range / 2^32`, rounded down.
pub open spec fn scale_to_range(value: u32, range: u32) -> int {
    (value * range) / 0x1_0000_0000
}

/// Map `value` into `[0, range)`.
pub fn uint_to_range(value: u32, range: u32) -> (r: u32)
    requires
        range > 0,
    ensures
        r == scale_to_range(value, range),
        r < range,
{
    proof {
        assert(value * range <= 0xffff_ffff * 0xffff_ffff) by (nonlinear_arith)
            requires value <= 0xffff_ffff, range <= 0xffff_ffff;
        assert(value * range < 0x1_0000_0000 * range) by (nonlinear_arith)
            requires value < 0x1_0000_0000, range > 0;
    }
    let prod = value as u64 * range as u64;
    proof {
        vstd::bits::lemma_u64_shr_is_div(prod, 32);
        vstd::arithmetic::power2::lemma2_to64();
        assert(pow2(32) == 0x1_0000_0000);
        assert(prod >> 32u64 == prod / 0x1_0000_0000);
        assert(prod / 0x1_0000_0000 < range) by (nonlinear_arith)
            requires prod < 0x1_0000_0000 * range, range > 0;
    }
    (prod >> 32) as u32
}

/// Map `value` into `[begin, end)`.
pub fn uint_to_range_between(value: u32, begin: u32, end: u32) -> (r: u32)
    requires
        begin < end,
    ensures
        r == scale_to_range(value, (end - begin) as u32) + begin,
        begin <= r < end,
{
    uint_to_range(value, end - begin) + begin
}

/// The mapping keeps the order of its inputs.
pub proof fn lemma_scale_to_range_monotonic(a: u32, b: u32, range: u32)
    requires
        a <= b,
    ensures
        scale_to_range(a, range) <= scale_to_range(b, range),
{
    assert(a * range <= b * range) by (nonlinear_arith)
        requires a <= b, range >= 0;
    vstd::arithmetic::div_mod::lemma_div_is_ordered(a * range, b * range, 0x1_0000_0000);
}

} // verus!
