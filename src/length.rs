//! Layout lengths in pixels, held as the bit pattern of a single-precision float.
//!
//! The layout engine reports sizes as binary32 floats. Keeping their bits
//! keeps the value exact: a size that is applied to a window is the size that
//! layout computed, bit for bit.
use vstd::prelude::*;

verus! {

pub const SIGN_MASK: u32 = 0x8000_0000;
pub const MAGNITUDE_MASK: u32 = 0x7fff_ffff;
pub const EXPONENT_MASK: u32 = 0x7f80_0000;
pub const MANTISSA_MASK: u32 = 0x007f_ffff;

/// A length in pixels: the bits of a binary32 float.
#[derive(Clone, Copy, Debug, PartialEq, Eq, Structural)]
pub struct Length {
    pub bits: u32,
}

/// The bits encode a NaN: all exponent bits set and a non-zero mantissa.
pub open spec fn is_nan_bits(b: u32) -> bool {
    (b & EXPONENT_MASK) == EXPONENT_MASK && (b & MANTISSA_MASK) != 0
}

/// The float that the bits encode compares `<= 0.0`: it is not a NaN, and it is
/// negative or a zero of either sign.
pub open spec fn at_most_zero_bits(b: u32) -> bool {
    !is_nan_bits(b) && ((b & SIGN_MASK) != 0 || (b & MAGNITUDE_MASK) == 0)
}

impl Length {
    pub fn from_bits(bits: u32) -> (r: Length)
        ensures
            r.bits == bits,
    {
        Length { bits }
    }

    pub fn to_bits(&self) -> (r: u32)
        ensures
            r == self.bits,
    {
        self.bits
    }

    pub open spec fn at_most_zero(self) -> bool {
        at_most_zero_bits(self.bits)
    }

    /// Whether the length compares `<= 0.0`. A NaN compares false.
    pub fn is_at_most_zero(&self) -> (r: bool)
        ensures
            r == self.at_most_zero(),
    {
        let b = self.bits;
        let nan = (b & EXPONENT_MASK) == EXPONENT_MASK && (b & MANTISSA_MASK) != 0;
        !nan && ((b & SIGN_MASK) != 0 || (b & MAGNITUDE_MASK) == 0)
    }
}

/// A size in pixels along both axes.
#[derive(Clone, Copy, Debug, PartialEq, Eq, Structural)]
pub struct LayoutSize {
    pub x: Length,
    pub y: Length,
}

impl LayoutSize {
    pub fn new(x: Length, y: Length) -> (r: LayoutSize)
        ensures
            r.x == x,
            r.y == y,
    {
        LayoutSize { x, y }
    }

    /// Layout has not settled: one of the axes is zero or negative.
    pub open spec fn is_degenerate(self) -> bool {
        self.x.at_most_zero() || self.y.at_most_zero()
    }

    /// Whether the size is degenerate and must not reach a window.
    pub fn is_degenerate_size(&self) -> (r: bool)
        ensures
            r == self.is_degenerate(),
    {
        self.x.is_at_most_zero() || self.y.is_at_most_zero()
    }
}

} // verus!
