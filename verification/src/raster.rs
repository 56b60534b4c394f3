//! Grayscale rasters: gray levels packed for an image encoder.
//!
//! The raster is an `image::GrayImage`. Verus does not look inside it, so its
//! dimensions and samples are described by two uninterpreted functions, and
//! each operation on it is a small function whose contract is taken on trust
//! from the source of `image`.

use crate::error::FractalError;
use crate::grid::{grid_standard_layout, IntensityGrid};
use vstd::prelude::*;

verus! {

/// A single-channel 8-bit image.
///
/// Trusted: the struct is opaque to the verifier; it wraps an
/// `image::GrayImage` that only the functions of this module touch.
#[verifier::external_body]
pub struct GrayRaster {
    image: image::GrayImage,
}

/// The dimensions of the image as (width, height): what
/// `ImageBuffer::dimensions` returns.
pub uninterp spec fn raster_dimensions(raster: GrayRaster) -> (nat, nat);

/// The sample buffer of the image, row by row from the top: what
/// `ImageBuffer::into_raw` returns.
pub uninterp spec fn raster_samples(raster: GrayRaster) -> Seq<u8>;

impl View for GrayRaster {
    type V = Seq<u8>;

    /// The samples, row by row from the top.
    open spec fn view(&self) -> Seq<u8> {
        raster_samples(*self)
    }
}

impl GrayRaster {
    /// The number of pixels in a row.
    pub open spec fn width(self) -> nat {
        raster_dimensions(self).0
    }

    /// The number of rows.
    pub open spec fn height(self) -> nat {
        raster_dimensions(self).1
    }

    /// Trusted: calls `image::GrayImage::from_raw`. Claims that an image is
    /// returned exactly when the buffer holds at least `width * height`
    /// samples, and that the image then has those dimensions and keeps the
    /// whole buffer.
    #[verifier::external_body]
    fn image_from_raw(width: u32, height: u32, samples: Vec<u8>) -> (r: Option<GrayRaster>)
        ensures
            r is Some <==> width * height <= samples@.len(),
            r matches Some(raster) ==> raster_dimensions(raster) == (width as nat, height as nat)
                && raster_samples(raster) == samples@,
    {
        match image::GrayImage::from_raw(width, height, samples) {
            Some(image) => Some(GrayRaster { image }),
            None => None,
        }
    }

    /// Trusted: calls `ImageBuffer::dimensions`.
    #[verifier::external_body]
    fn image_dimensions(&self) -> (d: (u32, u32))
        ensures
            d.0 == raster_dimensions(*self).0,
            d.1 == raster_dimensions(*self).1,
    {
        self.image.dimensions()
    }

    /// Trusted: calls `ImageBuffer::into_raw`.
    #[verifier::external_body]
    fn image_into_raw(self) -> (samples: Vec<u8>)
        ensures
            samples@ == raster_samples(self),
    {
        self.image.into_raw()
    }

    /// The dimensions as (width, height).
    pub fn dimensions(&self) -> (d: (u32, u32))
        ensures
            d.0 == self.width(),
            d.1 == self.height(),
    {
        self.image_dimensions()
    }

    /// Gives up the raster for its samples, row by row from the top.
    pub fn into_samples(self) -> (samples: Vec<u8>)
        ensures
            samples@ == self@,
    {
        self.image_into_raw()
    }
}

/// The reason for which a grid stored row by row cannot be packed as a
/// raster, if there is one. The cell count is examined first, then the
/// dimensions.
pub open spec fn raster_refusal(grid: IntensityGrid) -> Option<FractalError> {
    if grid@.len() == 0 {
        Some(FractalError::InvalidInput)
    } else if grid.width() > u32::MAX || grid.height() > u32::MAX {
        Some(FractalError::RasterSizeMismatch)
    } else {
        None
    }
}

/// Packs a grid of gray levels as a grayscale image of the same width and
/// height, pixel (x, y) being the cell at row `y`, column `x`.
///
/// The grid must be in standard layout, as every grid this library makes is;
/// `IntensityGrid::is_standard_layout` tells.
///
/// Fails with `InvalidInput` when the grid has no cells; otherwise with
/// `RasterSizeMismatch` when an axis is longer than `u32::MAX`.
pub fn array_to_grayscale(arr: IntensityGrid) -> (r: Result<GrayRaster, FractalError>)
    requires
        grid_standard_layout(arr),
    ensures
        match raster_refusal(arr) {
            Some(reason) => r matches Err(e) && e == reason,
            None => r matches Ok(raster) && {
                &&& raster.width() == arr.width()
                &&& raster.height() == arr.height()
                &&& raster@ == arr@
                &&& raster@.len() == raster.width() * raster.height()
            },
        },
{
    if arr.array_len() == 0 {
        return Err(FractalError::InvalidInput);
    }
    let (height, width) = arr.array_dim();
    if width > u32::MAX as usize || height > u32::MAX as usize {
        return Err(FractalError::RasterSizeMismatch);
    }
    proof {
        assert(height * width == width * height) by (nonlinear_arith);
    }
    let raw = arr.array_into_raw_vec();
    match GrayRaster::image_from_raw(width as u32, height as u32, raw) {
        Some(raster) => Ok(raster),
        None => Err(FractalError::RasterSizeMismatch),
    }
}

} // verus!
