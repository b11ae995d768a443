//! Fixed-point quantities.
//!
//! Every physical quantity is an `i64` that counts millionths of the SI unit
//! it is measured in: a volume of `40 * MICRO` is 40 cubic metres, a
//! thickness of `200_000` is 0.2 metres, an emissivity of `840_000` is 0.84.
//! An area counted in millionths of a square metre is an area in square
//! millimetres, so lengths in the geometry are measured in millimetres.

use vstd::prelude::*;

verus! {

/// The number of fixed-point steps in one SI unit.
pub const MICRO: i64 = 1_000_000;

/// The quantity that stands for `whole` SI units, where it fits.
pub open spec fn units(whole: int) -> int {
    whole * 1_000_000
}

/// Converts a whole number of SI units to a fixed-point quantity, or `None`
/// where the result does not fit.
pub fn from_units(whole: i64) -> (r: Option<i64>)
    ensures
        r matches Some(q) ==> q == units(whole as int),
        r is None <==> !(i64::MIN <= units(whole as int) <= i64::MAX),
{
    whole.checked_mul(MICRO)
}

} // verus!
