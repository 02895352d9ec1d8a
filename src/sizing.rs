//! Sizing modes of a layout node and the resizability they imply.
use vstd::prelude::*;

verus! {

/// How a layout node sizes itself along one axis.
#[derive(Clone, Copy, Debug, PartialEq, Eq, Structural)]
pub enum SizeMode {
    /// Sized from the content.
    Auto,
    /// A fixed number of pixels.
    Px,
    /// A share of the parent's size.
    Percent,
    /// A share of the viewport's width.
    Vw,
    /// A share of the viewport's height.
    Vh,
    /// A share of the viewport's smaller side.
    VMin,
    /// A share of the viewport's larger side.
    VMax,
}

impl SizeMode {
    /// Fixed or automatic: the node decides its own size along this axis.
    pub open spec fn is_self_sized(self) -> bool {
        self == SizeMode::Px || self == SizeMode::Auto
    }
}

/// The sizing modes of a layout node along both axes.
#[derive(Clone, Copy, Debug, PartialEq, Eq, Structural)]
pub struct Sizing {
    pub width: SizeMode,
    pub height: SizeMode,
}

/// A root is resizable by the user only when neither axis is fixed or automatic.
pub open spec fn resizable_spec(s: Sizing) -> bool {
    !s.width.is_self_sized() && !s.height.is_self_sized()
}

impl Sizing {
    pub fn new(width: SizeMode, height: SizeMode) -> (r: Sizing)
        ensures
            r.width == width,
            r.height == height,
    {
        Sizing { width, height }
    }

    /// Whether a window whose root is sized this way may be resized by the user.
    pub fn is_resizable(&self) -> (r: bool)
        ensures
            r == resizable_spec(*self),
    {
        let w = match self.width {
            SizeMode::Px | SizeMode::Auto => true,
            _ => false,
        };
        let h = match self.height {
            SizeMode::Px | SizeMode::Auto => true,
            _ => false,
        };
        !w && !h
    }
}

} // verus!
