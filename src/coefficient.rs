//! The fixed-point encoding of a filter's smoothing factor.
use vstd::prelude::*;

verus! {

/// Number of fractional bits of the coefficient encoding.
pub const SCALE: u32 = 6;

/// Full-scale value of a coefficient: `2^(SCALE + 1)`.
pub const FULL_SCALE: u16 = 128;

/// The largest raw coefficient that the encoding accepts: it gives
/// `alpha == FULL_SCALE - 1` and a complement of zero.
pub const MAX_ALPHA_RAW: u16 = 126;

/// The weight given to a new sample, for a raw coefficient.
pub open spec fn alpha_of(alpha_raw: int) -> int {
    alpha_raw + 1
}

/// The weight given to the previous output, for a raw coefficient: the two
/// weights sum to `FULL_SCALE - 1`.
pub open spec fn one_minus_alpha_of(alpha_raw: int) -> int {
    FULL_SCALE - alpha_of(alpha_raw) - 1
}

/// Encodes a raw coefficient as the pair `(alpha, one_minus_alpha)`.
pub fn encode_coefficient(alpha_raw: u16) -> (r: (u16, u16))
    requires
        alpha_raw <= MAX_ALPHA_RAW,
    ensures
        r.0 == alpha_of(alpha_raw as int),
        r.1 == one_minus_alpha_of(alpha_raw as int),
        1 <= r.0 < FULL_SCALE,
        r.0 + r.1 == FULL_SCALE - 1,
{
    let alpha: u16 = alpha_raw + 1;
    let one_minus_alpha: u16 = FULL_SCALE - alpha - 1;
    (alpha, one_minus_alpha)
}

} // verus!
