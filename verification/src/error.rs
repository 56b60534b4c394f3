//! The failures the rendering stages report.

use vstd::prelude::*;

verus! {

/// Why a rendering stage refused its input.
#[derive(Clone, Copy, Debug, PartialEq, Eq, Structural)]
pub enum FractalError {
    /// A coordinate range is empty, or the two ranges describe more sample
    /// points than a buffer can hold.
    InvalidDomain,
    /// The iteration budget is zero.
    InvalidParameter,
    /// A grid is empty, or its cells do not fit the stated shape or budget.
    InvalidInput,
    /// A pixel buffer cannot be packed as a raster: an axis is too long for
    /// the raster's dimensions, or the buffer is not width times height long.
    RasterSizeMismatch,
}

} // verus!
