//! What the bar chart draws for each band.
use vstd::prelude::*;

verus! {

/// The length of a bar for `level`: its position between `min_db` and
/// `max_db`, clamped to `[0, 1]`, times `width`, rounded down.
pub open spec fn bar_len(level: int, min_db: int, max_db: int, width: nat) -> nat {
    if level <= min_db {
        0
    } else if level >= max_db {
        width
    } else {
        ((level - min_db) * width / (max_db - min_db)) as nat
    }
}

/// One line of the chart: the band's range, its level, and its bar.
#[derive(Debug, Clone, Copy, PartialEq, Eq)]
pub struct BarRow {
    /// Lower edge of the band, in millihertz.
    pub low_mhz: u64,
    /// Upper edge of the band, in millihertz.
    pub high_mhz: u64,
    /// The band's level in this frame, in hundredths of a decibel.
    pub db: i32,
    /// How many cells the bar fills.
    pub bar_len: usize,
}

/// The bar length for `level` on a chart from `min_db` to `max_db` that is
/// `width` cells wide.
pub fn bar_length(level: i32, min_db: i32, max_db: i32, width: usize) -> (r: usize)
    requires
        min_db < max_db,
    ensures
        r == bar_len(level as int, min_db as int, max_db as int, width as nat),
        r <= width,
{
    if level <= min_db {
        return 0;
    }
    if level >= max_db {
        return width;
    }
    let above: u128 = (level as i64 - min_db as i64) as u128;
    let span: u128 = (max_db as i64 - min_db as i64) as u128;
    assert(above * width <= 0x1_0000_0000 * 0xffff_ffff_ffff_ffff) by (nonlinear_arith)
        requires
            above <= 0x1_0000_0000,
            width <= 0xffff_ffff_ffff_ffff,
    ;
    let len: u128 = above * (width as u128) / span;
    assert(len <= width) by (nonlinear_arith)
        requires
            len == (above * width) / (span as int),
            0 < above < span,
            width >= 0,
    ;
    len as usize
}

} // verus!
