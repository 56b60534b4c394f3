//! Escape-time fractal rendering over a rectangular region of the complex
//! plane.
//!
//! A sample domain is built from two coordinate ranges, every sample point is
//! iterated under a caller-supplied map until a caller-supplied divergence
//! test fires (or the iteration budget runs out), and the resulting escape
//! times are rescaled to 8-bit gray levels and packed as a raster.
//!
//! The engine is generic over the coordinate type: it never does arithmetic on
//! coordinates itself, it only threads them through the map and the test.

pub mod domain;
pub mod error;
pub mod escape;
pub mod escape_laws;
pub mod grid;
pub mod intensity;
pub mod raster;
pub mod render;

pub use domain::{build_grid, Point, SampleDomain};
pub use error::FractalError;
pub use escape::{escape_time, evaluate, EscapeGrid};
pub use grid::IntensityGrid;
pub use intensity::{to_intensity, IntensityMode};
pub use raster::{array_to_grayscale, GrayRaster};
pub use render::fatou_grid;
