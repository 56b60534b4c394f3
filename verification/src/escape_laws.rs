//! What holds of escape times whatever map and divergence test are used.

use crate::domain::Point;
use crate::escape::{
    escape_time_of, is_evaluation, is_orbit, prior, settles, step_holds, verdict_at,
};
use vstd::prelude::*;

verus! {

/// The map is a function: it admits one result for each pair of arguments.
pub open spec fn map_is_function<T, F: Fn(Point<T>, Point<T>) -> Point<T>>(f: F) -> bool {
    forall|z: Point<T>, c: Point<T>, a: Point<T>, b: Point<T>|
        #[trigger] call_ensures(f, (z, c), a) && #[trigger] call_ensures(f, (z, c), b) ==> a == b
}

/// The divergence test is a function: it admits one verdict for each point.
pub open spec fn test_is_function<T, D: Fn(Point<T>) -> bool>(diverged: D) -> bool {
    forall|z: Point<T>| !(#[trigger] call_ensures(diverged, (z,), true) && call_ensures(
        diverged,
        (z,),
        false,
    ))
}

/// The test `narrow` fires wherever the test `wide` does: no point accepted by
/// `wide` can be passed over by `narrow`. Threshold tests `|z| > r` stand in
/// this relation when the radius of `narrow` is below the radius of `wide`.
pub open spec fn fires_wherever<T, A: Fn(Point<T>) -> bool, B: Fn(Point<T>) -> bool>(
    narrow: A,
    wide: B,
) -> bool {
    forall|z: Point<T>| #[trigger]
        call_ensures(wide, (z,), true) ==> !call_ensures(narrow, (z,), false)
}

/// The test is the threshold test of `radius`: it fires exactly on the points
/// whose modulus is strictly beyond the radius. Moduli and radius are
/// measured on an integer scale that keeps their order.
pub open spec fn is_threshold_test<T, D: Fn(Point<T>) -> bool>(
    diverged: D,
    modulus: spec_fn(Point<T>) -> int,
    radius: int,
) -> bool {
    forall|z: Point<T>, verdict: bool| #[trigger]
        call_ensures(diverged, (z,), verdict) ==> verdict == (modulus(z) > radius)
}

/// A threshold test fires wherever a threshold test of a larger radius does.
pub proof fn lemma_smaller_radius_fires_wherever<
    T,
    A: Fn(Point<T>) -> bool,
    B: Fn(Point<T>) -> bool,
>(narrow: A, wide: B, modulus: spec_fn(Point<T>) -> int, radius_a: int, radius_b: int)
    requires
        is_threshold_test(narrow, modulus, radius_a),
        is_threshold_test(wide, modulus, radius_b),
        radius_a < radius_b,
    ensures
        fires_wherever(narrow, wide),
{
}

/// Two runs of a map that is a function coincide as far as both reach.
pub proof fn lemma_orbits_agree<T, F: Fn(Point<T>, Point<T>) -> Point<T>>(
    f: F,
    origin: Point<T>,
    c: Point<T>,
    first: Seq<Point<T>>,
    second: Seq<Point<T>>,
    k: int,
)
    requires
        map_is_function(f),
        is_orbit(f, origin, c, first),
        is_orbit(f, origin, c, second),
        0 <= k < first.len(),
        k < second.len(),
    ensures
        first[k] == second[k],
    decreases k,
{
    if k > 0 {
        lemma_orbits_agree(f, origin, c, first, second, k - 1);
    }
    assert(step_holds(f, origin, c, first, k));
    assert(step_holds(f, origin, c, second, k));
    assert(prior(origin, first, k) == prior(origin, second, k));
}

/// Determinism: when the map and the test are functions, a point has exactly
/// one escape time, so evaluating it again gives the same value.
pub proof fn lemma_escape_time_unique<
    T,
    F: Fn(Point<T>, Point<T>) -> Point<T>,
    D: Fn(Point<T>) -> bool,
>(f: F, diverged: D, origin: Point<T>, c: Point<T>, max_iter: u32, t1: u32, t2: u32)
    requires
        map_is_function(f),
        test_is_function(diverged),
        escape_time_of(f, diverged, origin, c, max_iter, t1),
        escape_time_of(f, diverged, origin, c, max_iter, t2),
    ensures
        t1 == t2,
{
    let o1 = choose|o: Seq<Point<T>>| #[trigger]
        is_orbit(f, origin, c, o) && settles(diverged, o, max_iter, t1);
    let o2 = choose|o: Seq<Point<T>>| #[trigger]
        is_orbit(f, origin, c, o) && settles(diverged, o, max_iter, t2);
    if t1 < t2 {
        lemma_orbits_agree(f, origin, c, o1, o2, t1 as int);
        assert(verdict_at(diverged, o1, t1 as int, true));
        assert(verdict_at(diverged, o2, t1 as int, false));
    } else if t2 < t1 {
        lemma_orbits_agree(f, origin, c, o1, o2, t2 as int);
        assert(verdict_at(diverged, o2, t2 as int, true));
        assert(verdict_at(diverged, o1, t2 as int, false));
    }
}

/// Escape monotonicity: under a map that is a function, a test that fires
/// wherever another does gives an escape time no later than the other's.
/// With threshold tests, a larger radius takes at least as long to cross.
pub proof fn lemma_escape_time_monotone<
    T,
    F: Fn(Point<T>, Point<T>) -> Point<T>,
    A: Fn(Point<T>) -> bool,
    B: Fn(Point<T>) -> bool,
>(
    f: F,
    narrow: A,
    wide: B,
    origin: Point<T>,
    c: Point<T>,
    max_iter: u32,
    t_narrow: u32,
    t_wide: u32,
)
    requires
        map_is_function(f),
        fires_wherever(narrow, wide),
        escape_time_of(f, narrow, origin, c, max_iter, t_narrow),
        escape_time_of(f, wide, origin, c, max_iter, t_wide),
    ensures
        t_narrow <= t_wide,
{
    let o1 = choose|o: Seq<Point<T>>| #[trigger]
        is_orbit(f, origin, c, o) && settles(narrow, o, max_iter, t_narrow);
    let o2 = choose|o: Seq<Point<T>>| #[trigger]
        is_orbit(f, origin, c, o) && settles(wide, o, max_iter, t_wide);
    if t_wide < t_narrow {
        lemma_orbits_agree(f, origin, c, o1, o2, t_wide as int);
        assert(verdict_at(wide, o2, t_wide as int, true));
        assert(verdict_at(narrow, o1, t_wide as int, false));
    }
}

/// Escape monotonicity in terms of radii: under a map that is a function,
/// the escape time for the threshold test of `radius_a` is at most the escape
/// time for the threshold test of any larger `radius_b`.
pub proof fn lemma_larger_radius_escapes_no_earlier<
    T,
    F: Fn(Point<T>, Point<T>) -> Point<T>,
    A: Fn(Point<T>) -> bool,
    B: Fn(Point<T>) -> bool,
>(
    f: F,
    narrow: A,
    wide: B,
    modulus: spec_fn(Point<T>) -> int,
    radius_a: int,
    radius_b: int,
    origin: Point<T>,
    c: Point<T>,
    max_iter: u32,
    t_a: u32,
    t_b: u32,
)
    requires
        map_is_function(f),
        is_threshold_test(narrow, modulus, radius_a),
        is_threshold_test(wide, modulus, radius_b),
        radius_a < radius_b,
        escape_time_of(f, narrow, origin, c, max_iter, t_a),
        escape_time_of(f, wide, origin, c, max_iter, t_b),
    ensures
        t_a <= t_b,
{
    lemma_smaller_radius_fires_wherever(narrow, wide, modulus, radius_a, radius_b);
    lemma_escape_time_monotone(f, narrow, wide, origin, c, max_iter, t_a, t_b);
}

/// Determinism of a whole grid: when the map and the test are functions, two
/// evaluations of the same points are equal cell for cell.
pub proof fn lemma_evaluation_unique<
    T,
    F: Fn(Point<T>, Point<T>) -> Point<T>,
    D: Fn(Point<T>) -> bool,
>(
    f: F,
    diverged: D,
    origin: Point<T>,
    points: Seq<Point<T>>,
    max_iter: u32,
    first: Seq<u32>,
    second: Seq<u32>,
)
    requires
        map_is_function(f),
        test_is_function(diverged),
        is_evaluation(f, diverged, origin, points, max_iter, first),
        is_evaluation(f, diverged, origin, points, max_iter, second),
    ensures
        first == second,
{
    assert forall|k: int| 0 <= k < first.len() implies first[k] == second[k] by {
        lemma_escape_time_unique(f, diverged, origin, points[k], max_iter, first[k], second[k]);
    }
    assert(first =~= second);
}

/// Escape monotonicity of a whole grid: every cell evaluated with the test
/// that fires wherever the other does is at most the cell evaluated with the
/// other.
pub proof fn lemma_evaluation_monotone<
    T,
    F: Fn(Point<T>, Point<T>) -> Point<T>,
    A: Fn(Point<T>) -> bool,
    B: Fn(Point<T>) -> bool,
>(
    f: F,
    narrow: A,
    wide: B,
    origin: Point<T>,
    points: Seq<Point<T>>,
    max_iter: u32,
    cells_narrow: Seq<u32>,
    cells_wide: Seq<u32>,
)
    requires
        map_is_function(f),
        fires_wherever(narrow, wide),
        is_evaluation(f, narrow, origin, points, max_iter, cells_narrow),
        is_evaluation(f, wide, origin, points, max_iter, cells_wide),
    ensures
        cells_narrow.len() == cells_wide.len(),
        forall|k: int| 0 <= k < cells_narrow.len() ==> cells_narrow[k] <= cells_wide[k],
{
    assert forall|k: int| 0 <= k < cells_narrow.len() implies cells_narrow[k]
        <= cells_wide[k] by {
        lemma_escape_time_monotone(
            f,
            narrow,
            wide,
            origin,
            points[k],
            max_iter,
            cells_narrow[k],
            cells_wide[k],
        );
    }
}

/// A fixed point never escapes: if the map can only send the origin to itself
/// at `c` and the test cannot fire on the origin, the escape time is the
/// budget itself, whatever the budget.
pub proof fn lemma_fixed_point_is_bounded<
    T,
    F: Fn(Point<T>, Point<T>) -> Point<T>,
    D: Fn(Point<T>) -> bool,
>(f: F, diverged: D, origin: Point<T>, c: Point<T>, max_iter: u32, t: u32)
    requires
        forall|w: Point<T>| #[trigger] call_ensures(f, (origin, c), w) ==> w == origin,
        !call_ensures(diverged, (origin,), true),
        escape_time_of(f, diverged, origin, c, max_iter, t),
    ensures
        t == max_iter,
{
    let o = choose|o: Seq<Point<T>>| #[trigger]
        is_orbit(f, origin, c, o) && settles(diverged, o, max_iter, t);
    if t < max_iter {
        lemma_orbit_stays(f, origin, c, o, t as int);
        assert(verdict_at(diverged, o, t as int, true));
    }
}

/// A run from a point that the map can only send to itself stays there.
proof fn lemma_orbit_stays<T, F: Fn(Point<T>, Point<T>) -> Point<T>>(
    f: F,
    origin: Point<T>,
    c: Point<T>,
    orbit: Seq<Point<T>>,
    k: int,
)
    requires
        forall|w: Point<T>| #[trigger] call_ensures(f, (origin, c), w) ==> w == origin,
        is_orbit(f, origin, c, orbit),
        0 <= k < orbit.len(),
    ensures
        orbit[k] == origin,
    decreases k,
{
    if k > 0 {
        lemma_orbit_stays(f, origin, c, orbit, k - 1);
    }
    assert(step_holds(f, origin, c, orbit, k));
}

/// Immediate divergence: if the test must fire on every value the map can
/// give the origin at `c`, the escape time is 0 for any nonzero budget.
pub proof fn lemma_first_step_escapes<
    T,
    F: Fn(Point<T>, Point<T>) -> Point<T>,
    D: Fn(Point<T>) -> bool,
>(f: F, diverged: D, origin: Point<T>, c: Point<T>, max_iter: u32, t: u32)
    requires
        max_iter > 0,
        forall|w: Point<T>| #[trigger]
            call_ensures(f, (origin, c), w) ==> !call_ensures(diverged, (w,), false),
        escape_time_of(f, diverged, origin, c, max_iter, t),
    ensures
        t == 0,
{
    let o = choose|o: Seq<Point<T>>| #[trigger]
        is_orbit(f, origin, c, o) && settles(diverged, o, max_iter, t);
    if t != 0 {
        assert(step_holds(f, origin, c, o, 0));
        assert(verdict_at(diverged, o, 0, false));
    }
}

} // verus!
