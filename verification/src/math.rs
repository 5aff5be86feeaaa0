//! Saturating fixed-point arithmetic on `i64` health values.
//!
//! Health is stored as an `i64` in tenths of a hit point. Damage and healing
//! saturate at the ends of the representable range instead of wrapping, and
//! the spec functions below state that behaviour exactly.

use vstd::prelude::*;

verus! {

/// Mathematical `a - b`, stopped at the smallest `i64` value.
pub open spec fn clamped_sub(a: int, b: int) -> int {
    if a - b >= i64::MIN {
        a - b
    } else {
        i64::MIN as int
    }
}

/// Mathematical `a + b`, stopped at the largest `i64` value.
pub open spec fn clamped_add(a: int, b: int) -> int {
    if a + b <= i64::MAX {
        a + b
    } else {
        i64::MAX as int
    }
}

/// Two successive clamped subtractions of non-negative amounts equal one
/// clamped subtraction of their sum.
pub proof fn lemma_clamped_sub_chain(h: int, x: int, y: int)
    requires
        x >= 0,
        y >= 0,
    ensures
        clamped_sub(clamped_sub(h, x), y) == clamped_sub(h, x + y),
{
}

/// Subtract a non-negative amount from `a`, saturating at `i64::MIN`.
pub fn sat_sub_i64(a: i64, b: i64) -> (r: i64)
    requires
        b >= 0,
    ensures
        r == clamped_sub(a as int, b as int),
{
    if a >= i64::MIN + b {
        a - b
    } else {
        i64::MIN
    }
}

/// Add a non-negative amount to `a`, saturating at `i64::MAX`.
pub fn sat_add_i64(a: i64, b: i64) -> (r: i64)
    requires
        b >= 0,
    ensures
        r == clamped_add(a as int, b as int),
{
    if a <= i64::MAX - b {
        a + b
    } else {
        i64::MAX
    }
}

} // verus!
