//! Intensity grids: two-dimensional arrays of 8-bit gray levels.
//!
//! The cells live in an `ndarray` array. Verus does not look inside it, so
//! what the array holds is described by three uninterpreted functions, and
//! each operation on it is a small function whose contract is taken on trust
//! from the documentation and source of `ndarray`.

use crate::domain::{cell_index, lemma_cell_index, max_cells};
use crate::error::FractalError;
use vstd::prelude::*;

verus! {

/// A grid of gray levels, one byte per cell.
///
/// Trusted: the struct is opaque to the verifier; it wraps an
/// `ndarray::Array2<u8>` that only the functions of this module touch.
#[verifier::external_body]
pub struct IntensityGrid {
    cells: ndarray::Array2<u8>,
}

/// The shape of the array as (rows, columns): what `ArrayBase::dim` returns.
pub uninterp spec fn grid_dim(g: IntensityGrid) -> (nat, nat);

/// The elements of the array in logical order, row by row: element
/// (`row`, `col`) stands at position `row * columns + col`.
pub uninterp spec fn grid_cells(g: IntensityGrid) -> Seq<u8>;

/// Whether the array is stored contiguously in row-major order: what
/// `ArrayBase::is_standard_layout` returns.
pub uninterp spec fn grid_standard_layout(g: IntensityGrid) -> bool;

impl View for IntensityGrid {
    type V = Seq<u8>;

    /// The cells in row-major order.
    open spec fn view(&self) -> Seq<u8> {
        grid_cells(*self)
    }
}

impl IntensityGrid {
    /// The number of rows.
    pub open spec fn height(self) -> nat {
        grid_dim(self).0
    }

    /// The number of columns.
    pub open spec fn width(self) -> nat {
        grid_dim(self).1
    }

    /// The gray level at row `row`, column `col`.
    pub open spec fn at(self, row: int, col: int) -> u8 {
        self@[cell_index(self.width() as int, row, col)]
    }

    /// Trusted: calls `ndarray::Array2::<u8>::zeros`. Claims that the new
    /// array has the requested shape, holds zero in every cell and is in
    /// standard layout. `zeros` panics when the product of the non-zero axis
    /// lengths exceeds `isize::MAX`; the precondition rules that out.
    #[verifier::external_body]
    pub(crate) fn array_zeros(height: usize, width: usize) -> (g: IntensityGrid)
        requires
            height <= isize::MAX,
            width <= isize::MAX,
            height * width <= isize::MAX,
        ensures
            grid_dim(g) == (height as nat, width as nat),
            grid_cells(g) == Seq::new((height * width) as nat, |k: int| 0u8),
            grid_standard_layout(g),
    {
        IntensityGrid { cells: ndarray::Array2::<u8>::zeros((height, width)) }
    }

    /// Trusted: calls `IndexMut::index_mut` of the array with the index
    /// `[row, col]`. Claims that exactly that cell changes and that shape and
    /// layout stay. Indexing panics out of bounds; the precondition rules
    /// that out.
    #[verifier::external_body]
    pub(crate) fn array_set(&mut self, row: usize, col: usize, value: u8)
        requires
            row < grid_dim(*old(self)).0,
            col < grid_dim(*old(self)).1,
        ensures
            grid_dim(*final(self)) == grid_dim(*old(self)),
            grid_standard_layout(*final(self)) == grid_standard_layout(*old(self)),
            grid_cells(*final(self)) == grid_cells(*old(self)).update(
                cell_index(grid_dim(*old(self)).1 as int, row as int, col as int),
                value,
            ),
    {
        self.cells[[row, col]] = value;
    }

    /// Trusted: calls `Index::index` of the array with the index
    /// `[row, col]`. Claims that it reads that cell. Indexing panics out of
    /// bounds; the precondition rules that out.
    #[verifier::external_body]
    pub(crate) fn array_get(&self, row: usize, col: usize) -> (value: u8)
        requires
            row < grid_dim(*self).0,
            col < grid_dim(*self).1,
        ensures
            value == grid_cells(*self)[cell_index(
                grid_dim(*self).1 as int,
                row as int,
                col as int,
            )],
    {
        self.cells[[row, col]]
    }

    /// Trusted: calls `ArrayBase::dim`. Claims that it returns the shape.
    #[verifier::external_body]
    pub(crate) fn array_dim(&self) -> (d: (usize, usize))
        ensures
            d.0 == grid_dim(*self).0,
            d.1 == grid_dim(*self).1,
    {
        self.cells.dim()
    }

    /// Trusted: calls `ArrayBase::len`. Claims that it returns the number of
    /// elements, which is the product of the axis lengths.
    #[verifier::external_body]
    pub(crate) fn array_len(&self) -> (n: usize)
        ensures
            n == grid_cells(*self).len(),
            n == grid_dim(*self).0 * grid_dim(*self).1,
    {
        self.cells.len()
    }

    /// Trusted: calls `ArrayBase::is_standard_layout`.
    #[verifier::external_body]
    pub(crate) fn array_is_standard_layout(&self) -> (b: bool)
        ensures
            b == grid_standard_layout(*self),
    {
        self.cells.is_standard_layout()
    }

    /// Trusted: calls `Array::into_raw_vec`, which hands out the backing
    /// buffer. Claims that for an array in standard layout the vector holds
    /// the elements in logical order. That rests on every array of this
    /// module being made by `zeros` and never sliced, so that the buffer
    /// holds the elements and nothing else.
    #[verifier::external_body]
    pub(crate) fn array_into_raw_vec(self) -> (v: Vec<u8>)
        ensures
            grid_standard_layout(self) ==> v@ == grid_cells(self),
    {
        self.cells.into_raw_vec()
    }
}

impl IntensityGrid {
    /// The shape as (rows, columns).
    pub fn shape(&self) -> (r: (usize, usize))
        ensures
            r.0 == self.height(),
            r.1 == self.width(),
    {
        self.array_dim()
    }

    /// The number of cells, which is rows times columns.
    pub fn len(&self) -> (n: usize)
        ensures
            n == self@.len(),
            n == self.height() * self.width(),
    {
        self.array_len()
    }

    /// Whether the cells are stored contiguously, row by row.
    pub fn is_standard_layout(&self) -> (b: bool)
        ensures
            b == grid_standard_layout(*self),
    {
        self.array_is_standard_layout()
    }

    /// The gray level at row `row`, column `col`, or `None` outside the grid.
    pub fn cell(&self, row: usize, col: usize) -> (r: Option<u8>)
        ensures
            r == (if row < self.height() && col < self.width() {
                Some(self.at(row as int, col as int))
            } else {
                None
            }),
    {
        let (height, width) = self.array_dim();
        if row < height && col < width {
            Some(self.array_get(row, col))
        } else {
            None
        }
    }

    /// Packs `cells`, given row by row, as a grid of `height` rows and
    /// `width` columns in standard layout.
    ///
    /// Fails with `InvalidInput` exactly when the number of cells is not
    /// `height * width`, or an axis or the number of cells exceeds
    /// `isize::MAX`.
    pub fn from_cells(height: usize, width: usize, cells: &[u8]) -> (r: Result<
        IntensityGrid,
        FractalError,
    >)
        ensures
            r is Ok <==> {
                &&& cells@.len() == height * width
                &&& height <= max_cells()
                &&& width <= max_cells()
                &&& height * width <= max_cells()
            },
            r matches Err(e) ==> e == FractalError::InvalidInput,
            r matches Ok(g) ==> {
                &&& g.height() == height
                &&& g.width() == width
                &&& grid_standard_layout(g)
                &&& g@ == cells@
            },
    {
        let limit = isize::MAX as usize;
        if height > limit || width > limit {
            return Err(FractalError::InvalidInput);
        }
        let total = match height.checked_mul(width) {
            Some(n) => n,
            None => {
                return Err(FractalError::InvalidInput);
            },
        };
        if total > limit || total != cells.len() {
            return Err(FractalError::InvalidInput);
        }
        let mut g = IntensityGrid::array_zeros(height, width);
        let mut i: usize = 0;
        while i < height
            invariant
                i <= height,
                total == height * width,
                cells@.len() == height * width,
                grid_dim(g) == (height as nat, width as nat),
                grid_standard_layout(g),
                g@.len() == height * width,
                forall|k: int| 0 <= k < i * width ==> #[trigger] g@[k] == cells@[k],
            decreases height - i,
        {
            let mut j: usize = 0;
            while j < width
                invariant
                    i < height,
                    j <= width,
                    total == height * width,
                    cells@.len() == height * width,
                    grid_dim(g) == (height as nat, width as nat),
                    grid_standard_layout(g),
                    g@.len() == height * width,
                    forall|k: int| 0 <= k < i * width + j ==> #[trigger] g@[k] == cells@[k],
                decreases width - j,
            {
                proof {
                    lemma_cell_index(width as int, height as int, i as int, j as int);
                    assert(width * height == height * width) by (nonlinear_arith);
                }
                g.array_set(i, j, cells[i * width + j]);
                j = j + 1;
            }
            proof {
                assert((i + 1) * width == i * width + width) by (nonlinear_arith);
            }
            i = i + 1;
        }
        assert(g@ =~= cells@);
        Ok(g)
    }
}

} // verus!
