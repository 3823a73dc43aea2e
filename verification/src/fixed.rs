//! Fixed-point numbers with four decimal places.
//!
//! A value `v: i64` stands for the rational number `v / SCALE`. The
//! library works on magnitudes up to `FX_LIMIT` (one hundred million
//! units), which keeps every product of three such values inside `i128`.

use vstd::prelude::*;

verus! {

/// Number of raw steps per unit: four decimal places.
pub const SCALE: i64 = 10_000;

/// Largest raw magnitude the library computes with (10^8 units).
pub const FX_LIMIT: i64 = 1_000_000_000_000;

/// A fixed-point value inside the working range.
pub open spec fn fx_ok(v: i64) -> bool {
    -FX_LIMIT <= v <= FX_LIMIT
}

/// A possibly-undefined fixed-point reading (`None` stands for NaN) inside
/// the working range.
pub open spec fn reading_ok(v: Option<i64>) -> bool {
    match v {
        Some(x) => fx_ok(x),
        None => true,
    }
}

/// `a < b` on readings: false whenever either side is undefined, like a
/// comparison with NaN.
pub open spec fn spec_lt(a: Option<i64>, b: Option<i64>) -> bool {
    match (a, b) {
        (Some(x), Some(y)) => x < y,
        _ => false,
    }
}

/// `a <= b` on readings: false whenever either side is undefined.
pub open spec fn spec_le(a: Option<i64>, b: Option<i64>) -> bool {
    match (a, b) {
        (Some(x), Some(y)) => x <= y,
        _ => false,
    }
}

/// `a < b` on readings, false when either is undefined.
pub fn lt(a: Option<i64>, b: Option<i64>) -> (r: bool)
    ensures
        r == spec_lt(a, b),
{
    match (a, b) {
        (Some(x), Some(y)) => x < y,
        _ => false,
    }
}

/// `a <= b` on readings, false when either is undefined.
pub fn le(a: Option<i64>, b: Option<i64>) -> (r: bool)
    ensures
        r == spec_le(a, b),
{
    match (a, b) {
        (Some(x), Some(y)) => x <= y,
        _ => false,
    }
}

} // verus!
