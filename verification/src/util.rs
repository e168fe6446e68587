//! Saturating integer conversions.
use vstd::prelude::*;

verus! {

/// Convert a `u32` into a `usize`, falling back to `usize::MAX` if it does not fit.
pub fn as_usize(num: u32) -> (r: usize)
    ensures
        r == if num as int <= usize::MAX as int { num as int } else { usize::MAX as int },
{
    if num as u64 <= usize::MAX as u64 {
        num as usize
    } else {
        usize::MAX
    }
}

/// Convert a `usize` into a `u32`, falling back to `u32::MAX` if it does not fit.
pub fn as_u32(num: usize) -> (r: u32)
    ensures
        r == if num <= u32::MAX { num as int } else { u32::MAX as int },
{
    if num <= u32::MAX as usize {
        num as u32
    } else {
        u32::MAX
    }
}

/// Convert a `usize` into a `u16`, falling back to `u16::MAX` if it does not fit.
pub fn as_u16(num: usize) -> (r: u16)
    ensures
        r == if num <= u16::MAX { num as int } else { u16::MAX as int },
{
    if num <= u16::MAX as usize {
        num as u16
    } else {
        u16::MAX
    }
}

} // verus!
