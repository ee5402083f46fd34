//! Integer helpers shared by the other modules.
use vstd::prelude::*;

verus! {

/// Integer division of `a` by a positive `d` that rounds toward zero,
/// as Rust's `/` does on signed integers.
pub open spec fn div_toward_zero(a: int, d: int) -> int {
    if a >= 0 {
        a / d
    } else {
        -((-a) / d)
    }
}

pub open spec fn abs(x: int) -> int {
    if x >= 0 {
        x
    } else {
        -x
    }
}

/// Division rounding up, for a non-negative `a` and a positive `d`.
pub open spec fn div_ceil(a: int, d: int) -> int {
    (a + d - 1) / d
}

} // verus!
