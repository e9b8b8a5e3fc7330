//! Gamma correction of 8-bit channel intensities.
//!
//! LED brightness is perceived non-linearly; the table below maps a linear
//! intensity to the drive value that looks right on the panel (exponent 2.8).
//! Correction is applied only when a channel is shifted out to the driver
//! chip; frames always store linear values.

use vstd::prelude::*;

verus! {

/// Drive value for every linear intensity, indexed by the intensity.
pub const GAMMA: [u8; 256] = [
    0, 0, 0, 0, 0, 0, 0, 0, 0, 0, 0, 0, 0, 0, 0, 0,
    0, 0, 0, 0, 0, 0, 0, 0, 0, 0, 0, 0, 1, 1, 1, 1,
    1, 1, 1, 1, 1, 1, 1, 1, 1, 2, 2, 2, 2, 2, 2, 2,
    2, 3, 3, 3, 3, 3, 3, 3, 4, 4, 4, 4, 4, 5, 5, 5,
    5, 6, 6, 6, 6, 7, 7, 7, 7, 8, 8, 8, 9, 9, 9, 10,
    10, 10, 11, 11, 11, 12, 12, 13, 13, 13, 14, 14, 15, 15, 16, 16,
    17, 17, 18, 18, 19, 19, 20, 20, 21, 21, 22, 22, 23, 24, 24, 25,
    25, 26, 27, 27, 28, 29, 29, 30, 31, 32, 32, 33, 34, 35, 35, 36,
    37, 38, 39, 39, 40, 41, 42, 43, 44, 45, 46, 47, 48, 49, 50, 50,
    51, 52, 54, 55, 56, 57, 58, 59, 60, 61, 62, 63, 64, 66, 67, 68,
    69, 70, 72, 73, 74, 75, 77, 78, 79, 81, 82, 83, 85, 86, 87, 89,
    90, 92, 93, 95, 96, 98, 99, 101, 102, 104, 105, 107, 109, 110, 112, 114,
    115, 117, 119, 120, 122, 124, 126, 127, 129, 131, 133, 135, 137, 138, 140, 142,
    144, 146, 148, 150, 152, 154, 156, 158, 160, 162, 164, 167, 169, 171, 173, 175,
    177, 180, 182, 184, 186, 189, 191, 193, 196, 198, 200, 203, 205, 208, 210, 213,
    215, 218, 220, 223, 225, 228, 231, 233, 236, 239, 241, 244, 247, 249, 252, 255,
];

/// The gamma-corrected value of a linear intensity.
pub open spec fn gamma(x: u8) -> u8 {
    GAMMA[x as int]
}

/// Looks up the gamma-corrected value of `x`.
pub fn gamma_correct(x: u8) -> (y: u8)
    ensures
        y == gamma(x),
{
    GAMMA[x as usize]
}

/// One step up in intensity never lowers the corrected value.
proof fn lemma_gamma_step(x: u8)
    requires
        x < 255,
    ensures
        gamma(x) <= gamma((x + 1) as u8),
{
}

/// Gamma correction keeps darkness dark and full intensity full.
pub proof fn lemma_gamma_endpoints()
    ensures
        gamma(0) == 0,
        gamma(255) == 255,
{
}

/// Gamma correction preserves the order of intensities: a brighter input is
/// never shown darker than a dimmer one.
pub proof fn lemma_gamma_monotonic(a: u8, b: u8)
    requires
        a <= b,
    ensures
        gamma(a) <= gamma(b),
    decreases b - a,
{
    if a < b {
        lemma_gamma_step((b - 1) as u8);
        lemma_gamma_monotonic(a, (b - 1) as u8);
    }
}

} // verus!
