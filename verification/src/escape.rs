//! Escape times: how many iterations of a map a point survives before a
//! divergence test fires.
//!
//! The map and the test are ordinary closures, so what they compute is known
//! only through their own contracts. An escape time is therefore specified
//! against the runs the map admits: `t` is an escape time of `c` when some
//! run of the map from the origin is declared divergent for the first time at
//! step `t`, or is never declared divergent within the budget and `t` is the
//! budget itself.

use crate::domain::{cell_index, lemma_cell_index, max_cells, Point, SampleDomain};
use crate::error::FractalError;
use vstd::prelude::*;

verus! {

/// The value a run is at before step `k`: the origin, or the previous iterate.
pub open spec fn prior<T>(origin: Point<T>, orbit: Seq<Point<T>>, k: int) -> Point<T> {
    if k == 0 {
        origin
    } else {
        orbit[k - 1]
    }
}

/// Step `k` of `orbit` is a value the map can return for its predecessor.
pub open spec fn step_holds<T, F: Fn(Point<T>, Point<T>) -> Point<T>>(
    f: F,
    origin: Point<T>,
    c: Point<T>,
    orbit: Seq<Point<T>>,
    k: int,
) -> bool {
    call_ensures(f, (prior(origin, orbit, k), c), orbit[k])
}

/// `orbit` is a run of the map at parameter `c`: `orbit[0]` is the image of
/// the origin and every later element is the image of the one before it.
pub open spec fn is_orbit<T, F: Fn(Point<T>, Point<T>) -> Point<T>>(
    f: F,
    origin: Point<T>,
    c: Point<T>,
    orbit: Seq<Point<T>>,
) -> bool {
    forall|k: int| 0 <= k < orbit.len() ==> #[trigger] step_holds(f, origin, c, orbit, k)
}

/// The divergence test can answer `verdict` for `orbit[k]`.
pub open spec fn verdict_at<T, D: Fn(Point<T>) -> bool>(
    diverged: D,
    orbit: Seq<Point<T>>,
    k: int,
    verdict: bool,
) -> bool {
    call_ensures(diverged, (orbit[k],), verdict)
}

/// `orbit` stops with escape time `t` under a budget of `max_iter`
/// iterations: either `t < max_iter`, the run has `t + 1` steps and step `t`
/// is the first one declared divergent; or `t == max_iter`, the run has used
/// the whole budget and no step was declared divergent.
pub open spec fn settles<T, D: Fn(Point<T>) -> bool>(
    diverged: D,
    orbit: Seq<Point<T>>,
    max_iter: u32,
    t: u32,
) -> bool {
    &&& t <= max_iter
    &&& orbit.len() == (if t < max_iter {
        t + 1
    } else {
        max_iter as int
    })
    &&& forall|k: int|
        0 <= k < orbit.len() && k != t ==> #[trigger] verdict_at(diverged, orbit, k, false)
    &&& t < max_iter ==> verdict_at(diverged, orbit, t as int, true)
}

/// `t` is an escape time of the point `c`: the iteration index at which a run
/// from `origin` is first declared divergent, or `max_iter`, the value that
/// stands for "still bounded when the budget ran out".
pub open spec fn escape_time_of<
    T,
    F: Fn(Point<T>, Point<T>) -> Point<T>,
    D: Fn(Point<T>) -> bool,
>(f: F, diverged: D, origin: Point<T>, c: Point<T>, max_iter: u32, t: u32) -> bool {
    exists|orbit: Seq<Point<T>>|
        #[trigger] is_orbit(f, origin, c, orbit) && settles(diverged, orbit, max_iter, t)
}

/// `cells` holds, position by position, an escape time of each point.
pub open spec fn is_evaluation<
    T,
    F: Fn(Point<T>, Point<T>) -> Point<T>,
    D: Fn(Point<T>) -> bool,
>(
    f: F,
    diverged: D,
    origin: Point<T>,
    points: Seq<Point<T>>,
    max_iter: u32,
    cells: Seq<u32>,
) -> bool {
    &&& cells.len() == points.len()
    &&& forall|k: int|
        0 <= k < cells.len() ==> escape_time_of(
            f,
            diverged,
            origin,
            points[k],
            max_iter,
            #[trigger] cells[k],
        )
}

/// Iterates the map at parameter `c`, starting from `origin`, and returns the
/// index of the first iterate that the test declares divergent; returns
/// `max_iter` when none of the first `max_iter` iterates is.
pub fn escape_time<T: Copy, F: Fn(Point<T>, Point<T>) -> Point<T>, D: Fn(Point<T>) -> bool>(
    f: &F,
    diverged: &D,
    origin: Point<T>,
    c: Point<T>,
    max_iter: u32,
) -> (t: u32)
    requires
        forall|z: Point<T>, w: Point<T>| call_requires(*f, (z, w)),
        forall|z: Point<T>| call_requires(*diverged, (z,)),
    ensures
        escape_time_of(*f, *diverged, origin, c, max_iter, t),
        t <= max_iter,
{
    let mut z = origin;
    let mut iter: u32 = 0;
    let ghost mut orbit: Seq<Point<T>> = Seq::empty();
    while iter < max_iter
        invariant
            iter <= max_iter,
            orbit.len() == iter,
            is_orbit(*f, origin, c, orbit),
            z == prior(origin, orbit, iter as int),
            forall|k: int| 0 <= k < orbit.len() ==> #[trigger] verdict_at(*diverged, orbit, k, false),
            forall|z: Point<T>, w: Point<T>| call_requires(*f, (z, w)),
            forall|z: Point<T>| call_requires(*diverged, (z,)),
        decreases max_iter - iter,
    {
        let next = f(z, c);
        let escaped = diverged(next);
        proof {
            let ghost before = orbit;
            orbit = orbit.push(next);
            assert forall|k: int| 0 <= k < orbit.len() implies #[trigger] step_holds(
                *f,
                origin,
                c,
                orbit,
                k,
            ) by {
                if k < before.len() {
                    assert(step_holds(*f, origin, c, before, k));
                }
            }
            assert forall|k: int| 0 <= k < orbit.len() && k != iter implies #[trigger] verdict_at(
                *diverged,
                orbit,
                k,
                false,
            ) by {
                assert(verdict_at(*diverged, before, k, false));
            }
            assert(verdict_at(*diverged, orbit, iter as int, escaped));
        }
        if escaped {
            assert(is_orbit(*f, origin, c, orbit));
            assert(settles(*diverged, orbit, max_iter, iter));
            return iter;
        }
        z = next;
        iter = iter + 1;
    }
    assert(settles(*diverged, orbit, max_iter, iter));
    iter
}

/// A grid of escape times, `height` rows of `width` cells each, stored row by
/// row. A cell equal to the iteration budget means "never diverged".
pub struct EscapeGrid {
    width: usize,
    height: usize,
    cells: Vec<u32>,
}

impl View for EscapeGrid {
    type V = Seq<u32>;

    /// The cells in row-major order.
    closed spec fn view(&self) -> Seq<u32> {
        self.cells@
    }
}

impl EscapeGrid {
    #[verifier::type_invariant]
    pub closed spec fn wf(self) -> bool {
        &&& self.cells@.len() == self.width * self.height
        &&& self.width * self.height <= max_cells()
    }

    /// The number of columns.
    pub closed spec fn width(self) -> nat {
        self.width as nat
    }

    /// The number of rows.
    pub closed spec fn height(self) -> nat {
        self.height as nat
    }

    /// The escape time at row `row`, column `col`.
    pub open spec fn at(self, row: int, col: int) -> u32 {
        self@[cell_index(self.width() as int, row, col)]
    }

    /// Packs `cells`, given row by row, as a grid of `height` rows and
    /// `width` columns.
    ///
    /// Fails with `InvalidInput` exactly when the number of cells is not
    /// `height * width` or exceeds `isize::MAX`.
    pub fn from_cells(height: usize, width: usize, cells: Vec<u32>) -> (r: Result<
        EscapeGrid,
        FractalError,
    >)
        ensures
            r is Ok <==> cells@.len() == height * width && height * width <= max_cells(),
            r matches Err(e) ==> e == FractalError::InvalidInput,
            r matches Ok(g) ==> g.wf() && g.height() == height && g.width() == width && g@
                == cells@,
    {
        match height.checked_mul(width) {
            Some(n) => {
                if n == cells.len() && n <= isize::MAX as usize {
                    proof {
                        assert(width * height == height * width) by (nonlinear_arith);
                    }
                    Ok(EscapeGrid { width, height, cells })
                } else {
                    Err(FractalError::InvalidInput)
                }
            },
            None => Err(FractalError::InvalidInput),
        }
    }

    /// The shape as (rows, columns).
    pub fn shape(&self) -> (r: (usize, usize))
        ensures
            r.0 == self.height(),
            r.1 == self.width(),
            self.wf(),
            self@.len() == self.width() * self.height(),
            self.width() * self.height() <= max_cells(),
    {
        proof {
            use_type_invariant(self);
        }
        (self.height, self.width)
    }

    /// The cells in row-major order.
    pub fn cells(&self) -> (r: &[u32])
        ensures
            r@ == self@,
    {
        self.cells.as_slice()
    }

    /// The escape time at row `row`, column `col`, or `None` outside the
    /// grid.
    pub fn cell(&self, row: usize, col: usize) -> (r: Option<u32>)
        ensures
            r == (if row < self.height() && col < self.width() {
                Some(self.at(row as int, col as int))
            } else {
                None
            }),
    {
        proof {
            use_type_invariant(self);
        }
        if row < self.height && col < self.width {
            proof {
                lemma_cell_index(self.width as int, self.height as int, row as int, col as int);
            }
            Some(self.cells[row * self.width + col])
        } else {
            None
        }
    }
}

/// Computes the escape time of every point of `grid` under the map `f`,
/// within a budget of `max_iter` iterations per point.
///
/// Every orbit starts from `origin`. Cell (i, j) of the result is the index
/// of the first iterate of point (i, j) that `diverged` accepts, or
/// `max_iter` when none of the first `max_iter` iterates is accepted. The
/// result has the shape of `grid`.
///
/// Fails with `InvalidParameter` exactly when `max_iter` is zero.
pub fn evaluate<T: Copy, F: Fn(Point<T>, Point<T>) -> Point<T>, D: Fn(Point<T>) -> bool>(
    grid: &SampleDomain<T>,
    origin: Point<T>,
    f: F,
    diverged: D,
    max_iter: u32,
) -> (r: Result<EscapeGrid, FractalError>)
    requires
        forall|z: Point<T>, w: Point<T>| call_requires(f, (z, w)),
        forall|z: Point<T>| call_requires(diverged, (z,)),
    ensures
        r is Ok <==> max_iter > 0,
        r matches Err(e) ==> e == FractalError::InvalidParameter,
        r matches Ok(g) ==> {
            &&& g.wf()
            &&& g.height() == grid.height()
            &&& g.width() == grid.width()
            &&& is_evaluation(f, diverged, origin, grid@, max_iter, g@)
            &&& forall|k: int| 0 <= k < g@.len() ==> #[trigger] g@[k] <= max_iter
        },
{
    if max_iter == 0 {
        return Err(FractalError::InvalidParameter);
    }
    let (height, width) = grid.shape();
    let points = grid.points();
    let total = points.len();
    let mut cells: Vec<u32> = Vec::with_capacity(total);
    let mut k: usize = 0;
    while k < total
        invariant
            total == points@.len(),
            k <= total,
            cells@.len() == k,
            forall|n: int|
                0 <= n < k ==> escape_time_of(
                    f,
                    diverged,
                    origin,
                    points@[n],
                    max_iter,
                    #[trigger] cells@[n],
                ),
            forall|n: int| 0 <= n < k ==> #[trigger] cells@[n] <= max_iter,
            forall|z: Point<T>, w: Point<T>| call_requires(f, (z, w)),
            forall|z: Point<T>| call_requires(diverged, (z,)),
        decreases total - k,
    {
        let t = escape_time(&f, &diverged, origin, points[k], max_iter);
        cells.push(t);
        k = k + 1;
    }
    Ok(EscapeGrid { width, height, cells })
}

} // verus!
