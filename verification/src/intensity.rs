//! Intensity mapping: rescaling escape times to 8-bit gray levels.

use crate::domain::{lemma_cell_index, max_cells};
use crate::error::FractalError;
use crate::escape::EscapeGrid;
use crate::grid::{grid_dim, grid_standard_layout, IntensityGrid};
use vstd::prelude::*;

verus! {

/// How escape times are spread over the gray levels.
#[derive(Clone, Copy, Debug, PartialEq, Eq, Structural)]
pub enum IntensityMode {
    /// Divide by the iteration budget: the same escape time gives the same
    /// gray level in every image.
    LinearFixed,
    /// Divide by the largest escape time of the grid: each image uses the
    /// full range of gray levels.
    LinearMax,
}

/// `floor(value * 255 / divisor)`; 0 when there is nothing to divide by.
pub open spec fn scale(value: int, divisor: int) -> int {
    if divisor <= 0 {
        0
    } else {
        value * 255 / divisor
    }
}

/// The largest cell of `cells`; 0 when there is none.
pub open spec fn peak(cells: Seq<u32>) -> int
    decreases cells.len(),
{
    if cells.len() == 0 {
        0
    } else {
        let rest = peak(cells.drop_last());
        if cells.last() > rest {
            cells.last() as int
        } else {
            rest
        }
    }
}

/// What escape times are divided by in the given mode.
pub open spec fn divisor(cells: Seq<u32>, max_iter: u32, mode: IntensityMode) -> int {
    match mode {
        IntensityMode::LinearFixed => max_iter as int,
        IntensityMode::LinearMax => peak(cells),
    }
}

/// The gray level of cell `k`.
pub open spec fn gray_level(cells: Seq<u32>, max_iter: u32, mode: IntensityMode, k: int) -> int {
    scale(cells[k] as int, divisor(cells, max_iter, mode))
}

/// Every cell is an escape time of the budget `max_iter`: an iteration index
/// below it, or the budget itself.
pub open spec fn within_budget(cells: Seq<u32>, max_iter: u32) -> bool {
    forall|k: int| 0 <= k < cells.len() ==> #[trigger] cells[k] <= max_iter
}

/// The reason for which a grid of the given shape and cells cannot be mapped,
/// if there is one. The budget is examined first, then the shape, then the
/// cells.
pub open spec fn intensity_refusal(
    height: nat,
    width: nat,
    cells: Seq<u32>,
    max_iter: u32,
) -> Option<FractalError> {
    if max_iter == 0 {
        Some(FractalError::InvalidParameter)
    } else if height == 0 || width == 0 {
        Some(FractalError::InvalidInput)
    } else if !within_budget(cells, max_iter) {
        Some(FractalError::InvalidInput)
    } else {
        None
    }
}

/// `peak` bounds every cell and, unless the sequence is empty, is one of them.
pub proof fn lemma_peak(cells: Seq<u32>)
    ensures
        forall|k: int| 0 <= k < cells.len() ==> #[trigger] cells[k] <= peak(cells),
        cells.len() > 0 ==> exists|k: int| 0 <= k < cells.len() && #[trigger] cells[k] == peak(cells),
        cells.len() == 0 ==> peak(cells) == 0,
        0 <= peak(cells) <= u32::MAX,
    decreases cells.len(),
{
    if cells.len() > 0 {
        let front = cells.drop_last();
        lemma_peak(front);
        assert forall|k: int| 0 <= k < cells.len() implies #[trigger] cells[k] <= peak(cells) by {
            if k < front.len() {
                assert(front[k] == cells[k]);
            }
        }
        if cells.last() > peak(front) {
            assert(cells[cells.len() - 1] == peak(cells));
        } else if front.len() > 0 {
            let w = choose|k: int| 0 <= k < front.len() && #[trigger] front[k] == peak(front);
            assert(cells[w] == peak(cells));
        }
    }
}

/// Boundedness: a value that does not exceed what it is divided by scales to
/// a gray level between 0 and 255.
pub proof fn lemma_scale_bounded(value: int, divisor: int)
    requires
        0 <= value <= divisor,
    ensures
        0 <= scale(value, divisor) <= 255,
        divisor > 0 && value == divisor ==> scale(value, divisor) == 255,
        value == 0 ==> scale(value, divisor) == 0,
{
    if divisor > 0 {
        assert(0 <= value * 255 / divisor <= 255) by (nonlinear_arith)
            requires
                0 <= value <= divisor,
                divisor > 0,
        ;
        if value == divisor {
            assert(value * 255 / divisor == 255) by (nonlinear_arith)
                requires
                    value == divisor,
                    divisor > 0,
            ;
        }
        if value == 0 {
            assert(value * 255 / divisor == 0) by (nonlinear_arith)
                requires
                    value == 0,
                    divisor > 0,
            ;
        }
    }
}

/// Boundedness of a whole grid: in either mode every gray level of a grid
/// whose cells are within the budget lies between 0 and 255.
pub proof fn lemma_gray_level_bounded(
    cells: Seq<u32>,
    max_iter: u32,
    mode: IntensityMode,
    k: int,
)
    requires
        within_budget(cells, max_iter),
        0 <= k < cells.len(),
    ensures
        0 <= gray_level(cells, max_iter, mode, k) <= 255,
{
    lemma_peak(cells);
    lemma_scale_bounded(cells[k] as int, divisor(cells, max_iter, mode));
}

/// Flat field under `LinearMax`: a grid whose cells all hold the same value
/// maps to a single gray level, 0 when that value is 0 and 255 otherwise.
/// Nothing is divided by zero on the way.
pub proof fn lemma_flat_field(cells: Seq<u32>, max_iter: u32, value: u32, k: int)
    requires
        forall|n: int| 0 <= n < cells.len() ==> #[trigger] cells[n] == value,
        0 <= k < cells.len(),
    ensures
        peak(cells) == value,
        gray_level(cells, max_iter, IntensityMode::LinearMax, k) == (if value == 0 {
            0int
        } else {
            255int
        }),
{
    lemma_peak(cells);
    let w = choose|n: int| 0 <= n < cells.len() && #[trigger] cells[n] == peak(cells);
    assert(cells[w] == value);
    lemma_scale_bounded(value as int, value as int);
}

/// Finds the largest cell and whether every cell is within the budget.
fn survey(cells: &[u32], max_iter: u32) -> (r: (u32, bool))
    ensures
        r.0 == peak(cells@),
        r.1 == within_budget(cells@, max_iter),
{
    let mut top: u32 = 0;
    let mut legal = true;
    let mut k: usize = 0;
    while k < cells.len()
        invariant
            k <= cells@.len(),
            top == peak(cells@.take(k as int)),
            legal == within_budget(cells@.take(k as int), max_iter),
        decreases cells@.len() - k,
    {
        let v = cells[k];
        proof {
            let before = cells@.take(k as int);
            let after = cells@.take(k + 1);
            assert(after.drop_last() =~= before);
            assert(after.last() == v);
            if within_budget(after, max_iter) {
                assert forall|n: int| 0 <= n < before.len() implies #[trigger] before[n]
                    <= max_iter by {
                    assert(after[n] == before[n]);
                }
            }
            if within_budget(before, max_iter) && v <= max_iter {
                assert forall|n: int| 0 <= n < after.len() implies #[trigger] after[n]
                    <= max_iter by {
                    if n < before.len() {
                        assert(after[n] == before[n]);
                    }
                }
            }
            if v > max_iter {
                assert(after[k as int] == v);
            }
        }
        if v > top {
            top = v;
        }
        if v > max_iter {
            legal = false;
        }
        k = k + 1;
    }
    proof {
        assert(cells@.take(cells@.len() as int) =~= cells@);
    }
    (top, legal)
}

/// Rescales one escape time: `floor(value * 255 / divisor)`, or 0 when the
/// divisor is 0.
fn scale_cell(value: u32, divisor: u32) -> (level: u8)
    requires
        value <= divisor,
    ensures
        level == scale(value as int, divisor as int),
{
    if divisor == 0 {
        0
    } else {
        proof {
            lemma_scale_bounded(value as int, divisor as int);
        }
        let wide: u64 = value as u64 * 255 / divisor as u64;
        wide as u8
    }
}

/// Maps a grid of escape times to gray levels, cell by cell; the result has
/// the shape of `grid` and is in standard layout.
///
/// Cell `k` becomes `floor(t * 255 / d)`, where `t` is the escape time and
/// `d` is `max_iter` under `LinearFixed` and the largest escape time of the
/// grid under `LinearMax`. Under `LinearMax` a grid of zeros maps to zeros.
///
/// Fails with `InvalidParameter` when `max_iter` is zero; otherwise with
/// `InvalidInput` when the grid has no cells or a cell exceeds `max_iter`.
pub fn to_intensity(grid: &EscapeGrid, max_iter: u32, mode: IntensityMode) -> (r: Result<
    IntensityGrid,
    FractalError,
>)
    ensures
        match intensity_refusal(grid.height(), grid.width(), grid@, max_iter) {
            Some(reason) => r matches Err(e) && e == reason,
            None => r matches Ok(g) && {
                &&& g.height() == grid.height()
                &&& g.width() == grid.width()
                &&& grid_standard_layout(g)
                &&& g@.len() == grid@.len()
                &&& forall|k: int|
                    0 <= k < g@.len() ==> #[trigger] g@[k] == gray_level(grid@, max_iter, mode, k)
            },
        },
{
    if max_iter == 0 {
        return Err(FractalError::InvalidParameter);
    }
    let (height, width) = grid.shape();
    if height == 0 || width == 0 {
        return Err(FractalError::InvalidInput);
    }
    let cells = grid.cells();
    let (top, legal) = survey(cells, max_iter);
    if !legal {
        return Err(FractalError::InvalidInput);
    }
    let d = match mode {
        IntensityMode::LinearFixed => max_iter,
        IntensityMode::LinearMax => top,
    };
    proof {
        lemma_peak(cells@);
        assert(height <= width * height && width <= width * height) by (nonlinear_arith)
            requires
                1 <= height,
                1 <= width,
        ;
        assert(height * width == width * height) by (nonlinear_arith);
    }
    let mut g = IntensityGrid::array_zeros(height, width);
    let mut i: usize = 0;
    while i < height
        invariant
            i <= height,
            1 <= width,
            cells@ == grid@,
            cells@.len() == width * height,
            width * height <= max_cells(),
            d == divisor(cells@, max_iter, mode),
            forall|k: int| 0 <= k < cells@.len() ==> #[trigger] cells@[k] <= d,
            grid_dim(g) == (height as nat, width as nat),
            grid_standard_layout(g),
            g@.len() == width * height,
            forall|k: int|
                0 <= k < i * width ==> #[trigger] g@[k] == gray_level(cells@, max_iter, mode, k),
        decreases height - i,
    {
        let mut j: usize = 0;
        while j < width
            invariant
                i < height,
                j <= width,
                cells@ == grid@,
                cells@.len() == width * height,
                width * height <= max_cells(),
                d == divisor(cells@, max_iter, mode),
                forall|k: int| 0 <= k < cells@.len() ==> #[trigger] cells@[k] <= d,
                grid_dim(g) == (height as nat, width as nat),
                grid_standard_layout(g),
                g@.len() == width * height,
                forall|k: int|
                    0 <= k < i * width + j ==> #[trigger] g@[k] == gray_level(
                        cells@,
                        max_iter,
                        mode,
                        k,
                    ),
            decreases width - j,
        {
            proof {
                lemma_cell_index(width as int, height as int, i as int, j as int);
            }
            let level = scale_cell(cells[i * width + j], d);
            g.array_set(i, j, level);
            j = j + 1;
        }
        proof {
            assert((i + 1) * width == i * width + width) by (nonlinear_arith);
        }
        i = i + 1;
    }
    proof {
        assert(height * width == width * height) by (nonlinear_arith);
    }
    Ok(g)
}

} // verus!
