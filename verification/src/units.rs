//! Fixed-point units and the few arithmetic facts the integrators need.
//!
//! Every continuous quantity of the game is a fixed-point integer in
//! thousandths of a unit: lengths in milliunits, speeds in milliunits per
//! second, angles in milliradians, times in milliseconds.

use vstd::prelude::*;

verus! {

/// The largest magnitude allowed for a configuration value, in thousandths.
pub const PARAM_CAP: i64 = 1_000_000;

/// The longest frame delta accepted, in milliseconds.
pub const DT_MAX: u64 = 10_000;

/// The magnitude of `x`.
pub open spec fn abs_val(x: int) -> int {
    if x >= 0 {
        x
    } else {
        -x
    }
}

/// A product of values bounded by nonnegative constants is bounded by the
/// product of the constants.
pub proof fn lemma_mul_le(x: int, y: int, a: int, b: int)
    requires
        0 <= x <= a,
        0 <= y <= b,
    ensures
        0 <= x * y <= a * b,
{
    assert(0 <= x * y <= a * b) by (nonlinear_arith)
        requires
            0 <= x <= a,
            0 <= y <= b,
    ;
}

} // verus!
