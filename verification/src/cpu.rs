//! Bit instructions of the processor, as traits on integers.
use vstd::prelude::*;
use vstd::std_specs::bits::{u64_trailing_zeros, u64_leading_zeros};

verus! {

/// Clearing the lowest set bit.
pub trait Blsr<Rhs = Self> {
    type Output;

    /// The value with its lowest set bit cleared.
    fn blsr(&self) -> Self::Output;
}

/// Counting the leading zero bits.
pub trait LzCnt<Rhs = Self> {
    type Output;

    /// The number of zero bits above the highest set bit.
    fn lzcnt(&self) -> Self::Output;
}

/// Counting the trailing zero bits.
pub trait TzCnt<Rhs = Self> {
    type Output;

    /// The number of zero bits below the lowest set bit.
    fn tzcnt(&self) -> Self::Output;
}

impl Blsr for u64 {
    type Output = u64;

    /// `self & (self - 1)`; zero stays zero, as the processor instruction gives it.
    fn blsr(&self) -> (r: u64)
        ensures
            r == (if *self == 0 { 0u64 } else { *self & ((*self - 1) as u64) }),
    {
        if *self == 0 {
            0
        } else {
            *self & (*self - 1)
        }
    }
}

impl TzCnt for u64 {
    type Output = u32;

    /// The number of trailing zero bits (64 for zero).
    fn tzcnt(&self) -> (r: u32)
        ensures
            r == u64_trailing_zeros(*self),
    {
        self.trailing_zeros()
    }
}

impl LzCnt for u64 {
    type Output = u32;

    /// The number of leading zero bits (64 for zero).
    fn lzcnt(&self) -> (r: u32)
        ensures
            r == u64_leading_zeros(*self),
    {
        self.leading_zeros()
    }
}

} // verus!
