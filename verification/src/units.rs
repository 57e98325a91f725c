//! The fixed-point scale shared by every module, and the arithmetic helpers
//! that keep motion and scoring total.

use vstd::prelude::*;

verus! {

/// Sub-pixel units in one pixel.
pub const UNITS_PER_PIXEL: u32 = 1000;

/// Microseconds in one second.
pub const MICROS_PER_SECOND: u32 = 1_000_000;

/// `v` brought into the range of `i64`.
pub open spec fn saturated(v: int) -> int {
    if v < i64::MIN {
        i64::MIN as int
    } else if v > i64::MAX {
        i64::MAX as int
    } else {
        v
    }
}

/// `v` brought into `[low, high]`; where the interval is empty, `low` wins
/// for values under it and `high` for all others.
pub open spec fn clamped(v: int, low: int, high: int) -> int {
    if v < low {
        low
    } else if v > high {
        high
    } else {
        v
    }
}

/// Distance, in units, covered at `speed` units per second during
/// `dt_micros` microseconds, rounded down.
pub open spec fn travel(speed: u64, dt_micros: u32) -> int {
    (speed as int * dt_micros as int) / 1_000_000
}

/// Whole pixels nearest to `length` units, halves rounding up.
pub open spec fn rounded_pixels(length: u32) -> int {
    (length as int + 500) / 1000
}

/// Brings `v` into the range of `i64`.
pub fn saturate(v: i128) -> (r: i64)
    ensures
        r as int == saturated(v as int),
{
    if v < i64::MIN as i128 {
        i64::MIN
    } else if v > i64::MAX as i128 {
        i64::MAX
    } else {
        v as i64
    }
}

/// Distance covered at `speed` during `dt_micros`, rounded down. The
/// product is formed in 128 bits, so no speed and no time can overflow it.
pub fn distance(speed: u64, dt_micros: u32) -> (d: i128)
    ensures
        d as int == travel(speed, dt_micros),
        0 <= d,
        d <= 0x1_0000_0000_0000_0000_0000_0000,
{
    let s: i128 = speed as i128;
    let t: i128 = dt_micros as i128;
    assert(0 <= s * t <= 0x1_0000_0000_0000_0000_0000_0000) by (nonlinear_arith)
        requires
            0 <= s <= 0xffff_ffff_ffff_ffff,
            0 <= t <= 0xffff_ffff,
    ;
    s * t / 1_000_000
}

/// Whole pixels nearest to `length` units, halves rounding up.
pub fn round_to_pixels(length: u32) -> (p: u32)
    ensures
        p as int == rounded_pixels(length),
        p <= 4_294_967,
{
    let wide: u64 = length as u64 + 500;
    (wide / 1000) as u32
}

} // verus!
