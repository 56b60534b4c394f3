//! The whole pipeline in one call: ranges in, gray levels out.

use crate::domain::{build_grid, domain_fits, lemma_cell_index, Point};
use crate::error::FractalError;
use crate::escape::{escape_time_of, evaluate};
use crate::escape_laws::{lemma_escape_time_unique, map_is_function, test_is_function};
use crate::grid::{grid_standard_layout, IntensityGrid};
use crate::intensity::{scale, to_intensity, IntensityMode};
use vstd::prelude::*;

verus! {

/// `level` is a gray level of the point `c`: the budget-scaled value of one
/// of its escape times.
pub open spec fn gray_level_of<
    T,
    F: Fn(Point<T>, Point<T>) -> Point<T>,
    D: Fn(Point<T>) -> bool,
>(f: F, diverged: D, origin: Point<T>, c: Point<T>, max_iter: u32, level: u8) -> bool {
    exists|t: u32| #[trigger]
        escape_time_of(f, diverged, origin, c, max_iter, t) && level == scale(
            t as int,
            max_iter as int,
        )
}

/// Determinism of the picture: when the map and the test are functions, a
/// point has exactly one gray level, so rendering it again gives the same
/// byte.
pub proof fn lemma_gray_level_unique<
    T,
    F: Fn(Point<T>, Point<T>) -> Point<T>,
    D: Fn(Point<T>) -> bool,
>(f: F, diverged: D, origin: Point<T>, c: Point<T>, max_iter: u32, first: u8, second: u8)
    requires
        map_is_function(f),
        test_is_function(diverged),
        gray_level_of(f, diverged, origin, c, max_iter, first),
        gray_level_of(f, diverged, origin, c, max_iter, second),
    ensures
        first == second,
{
    let t1 = choose|t: u32| #[trigger]
        escape_time_of(f, diverged, origin, c, max_iter, t) && first == scale(
            t as int,
            max_iter as int,
        );
    let t2 = choose|t: u32| #[trigger]
        escape_time_of(f, diverged, origin, c, max_iter, t) && second == scale(
            t as int,
            max_iter as int,
        );
    lemma_escape_time_unique(f, diverged, origin, c, max_iter, t1, t2);
}

/// Renders the escape-time picture of the map `f` over the grid spanned by
/// `xrange` and `yrange`, ready to be plotted as a grayscale image.
///
/// Cell (i, j) of the result is `floor(t * 255 / max_iter)`, where `t` is the
/// escape time of the point `xrange[j] + yrange[i]·i`: the index of its first
/// iterate that `diverged` accepts, or `max_iter` when there is none within
/// the budget.
///
/// Fails with `InvalidDomain` when a range is empty or the grid would have
/// more than `isize::MAX` points; otherwise with `InvalidParameter` when
/// `max_iter` is zero.
pub fn fatou_grid<T: Copy, F: Fn(Point<T>, Point<T>) -> Point<T>, D: Fn(Point<T>) -> bool>(
    xrange: &[T],
    yrange: &[T],
    origin: Point<T>,
    f: F,
    diverged: D,
    max_iter: u32,
) -> (r: Result<IntensityGrid, FractalError>)
    requires
        forall|z: Point<T>, w: Point<T>| call_requires(f, (z, w)),
        forall|z: Point<T>| call_requires(diverged, (z,)),
    ensures
        r is Ok <==> domain_fits(xrange@.len() as int, yrange@.len() as int) && max_iter > 0,
        r matches Err(e) ==> e == (if domain_fits(xrange@.len() as int, yrange@.len() as int) {
            FractalError::InvalidParameter
        } else {
            FractalError::InvalidDomain
        }),
        r matches Ok(g) ==> {
            &&& g.height() == yrange@.len()
            &&& g.width() == xrange@.len()
            &&& grid_standard_layout(g)
            &&& g@.len() == xrange@.len() * yrange@.len()
            &&& forall|i: int, j: int|
                0 <= i < yrange@.len() && 0 <= j < xrange@.len() ==> gray_level_of(
                    f,
                    diverged,
                    origin,
                    Point { re: xrange@[j], im: yrange@[i] },
                    max_iter,
                    #[trigger] g.at(i, j),
                )
        },
{
    let grid = match build_grid(xrange, yrange) {
        Ok(grid) => grid,
        Err(e) => {
            return Err(e);
        },
    };
    let times = match evaluate(&grid, origin, f, diverged, max_iter) {
        Ok(times) => times,
        Err(e) => {
            return Err(e);
        },
    };
    let r = to_intensity(&times, max_iter, IntensityMode::LinearFixed);
    proof {
        let g = r->Ok_0;
        assert forall|i: int, j: int|
            0 <= i < yrange@.len() && 0 <= j < xrange@.len() implies gray_level_of(
            f,
            diverged,
            origin,
            Point { re: xrange@[j], im: yrange@[i] },
            max_iter,
            #[trigger] g.at(i, j),
        ) by {
            lemma_cell_index(xrange@.len() as int, yrange@.len() as int, i, j);
            let k = i * xrange@.len() + j;
            assert(grid.at(i, j) == grid@[k]);
            assert(escape_time_of(f, diverged, origin, grid@[k], max_iter, times@[k]));
            assert(g@[k] == scale(times@[k] as int, max_iter as int));
        }
    }
    r
}

} // verus!
