//! Sample domains: the grid of points at which a fractal is evaluated.

use crate::error::FractalError;
use vstd::arithmetic::div_mod::lemma_fundamental_div_mod_converse;
use vstd::prelude::*;

verus! {

/// A point of the complex plane, `re + im·i`.
pub struct Point<T> {
    pub re: T,
    pub im: T,
}

impl<T: Copy> Clone for Point<T> {
    fn clone(&self) -> (r: Self)
        ensures
            r == *self,
    {
        *self
    }
}

impl<T: Copy> Copy for Point<T> {}

/// The most cells a grid may have: the longest buffer that can be allocated.
pub open spec fn max_cells() -> int {
    isize::MAX as int
}

/// Whether ranges of `width` and `height` coordinates describe a domain:
/// neither is empty and the grid they span fits in a buffer.
pub open spec fn domain_fits(width: int, height: int) -> bool {
    &&& 1 <= width
    &&& 1 <= height
    &&& width * height <= max_cells()
}

/// The row-major position of cell (`row`, `col`) in a grid `width` cells wide.
pub open spec fn cell_index(width: int, row: int, col: int) -> int {
    row * width + col
}

/// Cells inside a `height` by `width` grid have positions inside its buffer,
/// and the position determines the cell.
pub proof fn lemma_cell_index(width: int, height: int, row: int, col: int)
    requires
        0 <= row < height,
        0 <= col < width,
    ensures
        0 <= row * width,
        0 <= cell_index(width, row, col) < width * height,
        cell_index(width, row, col) / width == row,
        cell_index(width, row, col) % width == col,
{
    assert(row * width + width <= height * width) by (nonlinear_arith)
        requires
            0 <= row < height,
            0 < width,
    ;
    assert(0 <= row * width) by (nonlinear_arith)
        requires
            0 <= row,
            0 < width,
    ;
    assert(width * height == height * width) by (nonlinear_arith);
    lemma_fundamental_div_mod_converse(row * width + col, width, row, col);
}

/// An ordered grid of sample points, `height` rows of `width` points each,
/// stored row by row.
pub struct SampleDomain<T> {
    width: usize,
    height: usize,
    points: Vec<Point<T>>,
}

impl<T> View for SampleDomain<T> {
    type V = Seq<Point<T>>;

    /// The points in row-major order.
    closed spec fn view(&self) -> Seq<Point<T>> {
        self.points@
    }
}

impl<T> SampleDomain<T> {
    #[verifier::type_invariant]
    pub closed spec fn wf(self) -> bool {
        &&& domain_fits(self.width as int, self.height as int)
        &&& self.points@.len() == self.width * self.height
    }

    /// The number of columns (the length of the x range).
    pub closed spec fn width(self) -> nat {
        self.width as nat
    }

    /// The number of rows (the length of the y range).
    pub closed spec fn height(self) -> nat {
        self.height as nat
    }

    /// The point at row `row`, column `col`.
    pub open spec fn at(self, row: int, col: int) -> Point<T> {
        self@[cell_index(self.width() as int, row, col)]
    }

    /// The shape as (rows, columns).
    pub fn shape(&self) -> (r: (usize, usize))
        ensures
            r.0 == self.height(),
            r.1 == self.width(),
            self.wf(),
            domain_fits(self.width() as int, self.height() as int),
            self@.len() == self.width() * self.height(),
    {
        proof {
            use_type_invariant(self);
        }
        (self.height, self.width)
    }

    /// The points in row-major order.
    pub fn points(&self) -> (r: &[Point<T>])
        ensures
            r@ == self@,
    {
        self.points.as_slice()
    }

    /// The point at row `row`, column `col`, or `None` outside the grid.
    pub fn point(&self, row: usize, col: usize) -> (r: Option<Point<T>>) where T: Copy
        ensures
            r == (if row < self.height() && col < self.width() {
                Some(self.at(row as int, col as int))
            } else {
                None
            }),
    {
        proof {
            use_type_invariant(self);
        }
        if row < self.height && col < self.width {
            proof {
                lemma_cell_index(self.width as int, self.height as int, row as int, col as int);
            }
            Some(self.points[row * self.width + col])
        } else {
            None
        }
    }
}

/// Builds the sample domain spanned by two coordinate ranges: the point at
/// row `i`, column `j` is `x_range[j] + y_range[i]·i`.
///
/// Fails with `InvalidDomain` exactly when a range is empty or the grid would
/// have more than `isize::MAX` points.
pub fn build_grid<T: Copy>(x_range: &[T], y_range: &[T]) -> (r: Result<
    SampleDomain<T>,
    FractalError,
>)
    ensures
        r is Ok <==> domain_fits(x_range@.len() as int, y_range@.len() as int),
        r matches Err(e) ==> e == FractalError::InvalidDomain,
        r matches Ok(g) ==> {
            &&& g.wf()
            &&& g.width() == x_range@.len()
            &&& g.height() == y_range@.len()
            &&& g@.len() == x_range@.len() * y_range@.len()
            &&& forall|i: int, j: int|
                0 <= i < y_range@.len() && 0 <= j < x_range@.len() ==> #[trigger] g.at(i, j) == (
                Point { re: x_range@[j], im: y_range@[i] })
        },
{
    let width = x_range.len();
    let height = y_range.len();
    if width == 0 || height == 0 {
        return Err(FractalError::InvalidDomain);
    }
    let total = match width.checked_mul(height) {
        Some(n) => n,
        None => {
            return Err(FractalError::InvalidDomain);
        },
    };
    if total > isize::MAX as usize {
        return Err(FractalError::InvalidDomain);
    }
    let mut points: Vec<Point<T>> = Vec::with_capacity(total);
    let mut i: usize = 0;
    while i < height
        invariant
            width == x_range@.len(),
            height == y_range@.len(),
            1 <= width,
            1 <= height,
            width * height <= max_cells(),
            i <= height,
            points@.len() == i * width,
            forall|k: int|
                0 <= k < points@.len() ==> #[trigger] points@[k] == (Point {
                    re: x_range@[k % (width as int)],
                    im: y_range@[k / (width as int)],
                }),
        decreases height - i,
    {
        let y = y_range[i];
        let mut j: usize = 0;
        while j < width
            invariant
                width == x_range@.len(),
                height == y_range@.len(),
                1 <= width,
                i < height,
                j <= width,
                y == y_range@[i as int],
                points@.len() == i * width + j,
                forall|k: int|
                    0 <= k < points@.len() ==> #[trigger] points@[k] == (Point {
                        re: x_range@[k % (width as int)],
                        im: y_range@[k / (width as int)],
                    }),
            decreases width - j,
        {
            proof {
                lemma_cell_index(width as int, height as int, i as int, j as int);
            }
            points.push(Point { re: x_range[j], im: y });
            j = j + 1;
        }
        proof {
            assert((i + 1) * width == i * width + width) by (nonlinear_arith);
        }
        i = i + 1;
    }
    proof {
        assert(height * width == width * height) by (nonlinear_arith);
    }
    let g = SampleDomain { width, height, points };
    proof {
        assert forall|i: int, j: int|
            0 <= i < y_range@.len() && 0 <= j < x_range@.len() implies #[trigger] g.at(i, j) == (
            Point { re: x_range@[j], im: y_range@[i] }) by {
            lemma_cell_index(width as int, height as int, i, j);
        }
    }
    Ok(g)
}

} // verus!
