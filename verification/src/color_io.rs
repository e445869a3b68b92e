use vstd::prelude::*;

verus! {

/// Largest 10-bit channel value.
pub const MAX_10BIT: u16 = 1023;

/// A 10-bit channel value stretched over the 16-bit range: `v * 65535 / 1023`, rounded down,
/// so that 0 stays 0 and 1023 becomes 65535.
pub fn scale_10bit_to_16bit(v: u16) -> (s: u16)
    requires
        v <= MAX_10BIT,
    ensures
        s == v * 65535 / 1023,
{
    proof {
        assert(v * 65535 <= 1023 * 65535) by (nonlinear_arith)
            requires
                v <= 1023,
        ;
        vstd::arithmetic::div_mod::lemma_div_is_ordered(v * 65535, 1023int * 65535, 1023);
        vstd::arithmetic::div_mod::lemma_div_by_multiple(65535, 1023);
    }
    ((v as u32 * 65535) / 1023) as u16
}

/// Stretching 10-bit values to 16 bits keeps black black, white white, and the order of
/// values.
pub proof fn lemma_scale_10bit_endpoints_and_order(a: u16, b: u16)
    requires
        a <= b <= MAX_10BIT,
    ensures
        0u16 * 65535 / 1023 == 0,
        1023u16 * 65535 / 1023 == 65535,
        a * 65535 / 1023 <= b * 65535 / 1023,
{
    assert(a * 65535 <= b * 65535) by (nonlinear_arith)
        requires
            a <= b,
    ;
    vstd::arithmetic::div_mod::lemma_div_is_ordered(a * 65535, b * 65535, 1023);
    vstd::arithmetic::div_mod::lemma_div_by_multiple(65535, 1023);
}

} // verus!
