//! Range checks on IEEE-754 double-precision values carried as bit patterns.
//! Comparison follows IEEE-754: a NaN lies in no range, and `-0.0 == 0.0`.

use vstd::prelude::*;

verus! {

/// Bits of `0.0`.
pub const ZERO_BITS: u64 = 0;
/// Bits of `1.0`.
pub const ONE_BITS: u64 = 0x3FF0_0000_0000_0000;
/// Bits of `2.0`.
pub const TWO_BITS: u64 = 0x4000_0000_0000_0000;
/// Bits of `-2.0`.
pub const NEG_TWO_BITS: u64 = 0xC000_0000_0000_0000;
/// Bits of `100.0`.
pub const HUNDRED_BITS: u64 = 0x4059_0000_0000_0000;
/// Bits of `-100.0`.
pub const NEG_HUNDRED_BITS: u64 = 0xC059_0000_0000_0000;

/// The pattern encodes a NaN: all exponent bits set and a non-zero fraction.
pub open spec fn is_nan_bits(b: u64) -> bool {
    (b >> 52u64) & 0x7FFu64 == 0x7FFu64 && b & 0x000F_FFFF_FFFF_FFFFu64 != 0
}

/// A key that orders non-NaN patterns as their values are ordered: the
/// magnitude bits, negated when the sign bit is set.
pub open spec fn order_key(b: u64) -> int {
    let mag = (b & 0x7FFF_FFFF_FFFF_FFFFu64) as int;
    if b >> 63u64 == 0 {
        mag
    } else {
        -mag
    }
}

/// `lo <= x <= hi` in IEEE-754 arithmetic.
pub open spec fn in_closed(x: u64, lo: u64, hi: u64) -> bool {
    !is_nan_bits(x) && order_key(lo) <= order_key(x) && order_key(x) <= order_key(hi)
}

/// `lo < x <= hi` in IEEE-754 arithmetic.
pub open spec fn in_open_closed(x: u64, lo: u64, hi: u64) -> bool {
    !is_nan_bits(x) && order_key(lo) < order_key(x) && order_key(x) <= order_key(hi)
}

/// Executable NaN test.
pub fn is_nan(x: u64) -> (r: bool)
    ensures
        r == is_nan_bits(x),
{
    (x >> 52u64) & 0x7FFu64 == 0x7FFu64 && x & 0x000F_FFFF_FFFF_FFFFu64 != 0
}

/// Compares the order keys of two patterns.
pub fn key_le(a: u64, b: u64) -> (r: bool)
    ensures
        r == (order_key(a) <= order_key(b)),
{
    let ma = a & 0x7FFF_FFFF_FFFF_FFFFu64;
    let mb = b & 0x7FFF_FFFF_FFFF_FFFFu64;
    let a_neg = a >> 63u64 != 0;
    let b_neg = b >> 63u64 != 0;
    if !a_neg && !b_neg {
        ma <= mb
    } else if a_neg && b_neg {
        mb <= ma
    } else if a_neg {
        true
    } else {
        ma == 0 && mb == 0
    }
}

/// Executable `lo <= x <= hi`.
pub fn is_in_closed(x: u64, lo: u64, hi: u64) -> (r: bool)
    ensures
        r == in_closed(x, lo, hi),
{
    !is_nan(x) && key_le(lo, x) && key_le(x, hi)
}

/// Executable `lo < x <= hi`.
pub fn is_in_open_closed(x: u64, lo: u64, hi: u64) -> (r: bool)
    ensures
        r == in_open_closed(x, lo, hi),
{
    !is_nan(x) && !key_le(x, lo) && key_le(x, hi)
}

} // verus!
