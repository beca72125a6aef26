//! On which side of a line its edges lie, and how far apart.
//!
//! How far a point lies to the left of a line is measured across the line,
//! in units of half a pixel times the length of the line: the same units in
//! which the thickness of a bundle of parallels is counted. In these units
//! every parallel lies twice the major extent further out than the one
//! before it, give or take the error with which it starts.

use vstd::prelude::*;
use crate::bresenham::BresenhamParameters;
use crate::extents::{
    lemma_outermost_parallel_in_reach, lemma_side_start_inv, lemma_side_step, strides, SideSearch,
};
use crate::geometry::{steps_of, Point, THICKNESS_MAX};
use crate::line::Line;
use crate::thick_points::{
    bundle_thickness, left_ascends, major_of, minor_of, shaping_line, thickness_threshold,
    too_thick, Parallel, StrokeAlignment,
};

verus! {

/// The x component of the vector that points to the left of the line that
/// the parameters are those of, and is as long as the line.
pub open spec fn normal_x(p: BresenhamParameters) -> int {
    steps_of(major_of(p), p.position_step_major.y as int) + steps_of(
        minor_of(p),
        p.position_step_minor.y as int,
    )
}

/// The y component of the vector that points to the left of the line that
/// the parameters are those of, and is as long as the line.
pub open spec fn normal_y(p: BresenhamParameters) -> int {
    -(steps_of(major_of(p), p.position_step_major.x as int) + steps_of(
        minor_of(p),
        p.position_step_minor.x as int,
    ))
}

/// How far `(x, y)` lies to the left of `(x0, y0)`, seen along the line
/// that the parameters are those of, times twice the line's length;
/// negative to the right.
pub open spec fn lean(p: BresenhamParameters, x0: int, y0: int, x: int, y: int) -> int {
    2 * ((x - x0) * normal_x(p) + (y - y0) * normal_y(p))
}

/// `1` if the left of the line lies against its minor direction, else `-1`.
pub open spec fn turn(p: BresenhamParameters) -> int {
    if left_ascends(p) {
        1
    } else {
        -1
    }
}

impl Line {
    /// How far `point` lies to the left of the line, measured across the
    /// line from its start, times twice the line's length; negative to the
    /// right. A line of a single pixel counts as pointing to the right.
    pub open spec fn lean_of(self, point: Point) -> int {
        let shape = shaping_line(self);
        2 * ((point.x - self.start.x) * shape.dy() - (point.y - self.start.y) * shape.dx())
    }
}

/// A step of one pixel changes the lean by the lean of that step.
proof fn lemma_lean_of_step(p: BresenhamParameters, x0: int, y0: int, x: int, y: int, ux: int, uy: int)
    requires
        -1 <= ux <= 1,
        -1 <= uy <= 1,
    ensures
        lean(p, x0, y0, x + ux, y + uy) == lean(p, x0, y0, x, y) + 2 * (steps_of(normal_x(p), ux)
            + steps_of(normal_y(p), uy)),
{
    let nx = normal_x(p);
    let ny = normal_y(p);
    assert((x + ux - x0) * nx == (x - x0) * nx + steps_of(nx, ux)) by (nonlinear_arith)
        requires
            -1 <= ux <= 1,
    ;
    assert((y + uy - y0) * ny == (y - y0) * ny + steps_of(ny, uy)) by (nonlinear_arith)
        requires
            -1 <= uy <= 1,
    ;
}

/// Whether the walk lies as far out as the parallels it has found say: on
/// the side it belongs to, twice the major extent for each parallel, and the
/// error of its parallels besides.
pub open spec fn walker_leans(s: SideSearch, x0: int, y0: int) -> bool {
    let rows: int = if s.walker.pending {
        s.found as int + 1
    } else {
        s.found as int
    };
    let out = if s.ascends {
        2 * (rows * major_of(s.parameters))
    } else {
        -(2 * (rows * major_of(s.parameters)))
    };
    lean(s.parameters, x0, y0, s.walker.x, s.walker.y) == steps_of(
        out + s.walker.parallel_error,
        turn(s.parameters),
    )
}

/// Whether a parallel lies as far out as its number on its side says.
pub open spec fn parallel_leans(
    s: SideSearch,
    x0: int,
    y0: int,
    parallel: Option<Parallel>,
    number: int,
) -> bool {
    match parallel {
        None => number == 0,
        Some(q) => {
            let out = if s.ascends {
                2 * (number * major_of(s.parameters))
            } else {
                -(2 * (number * major_of(s.parameters)))
            };
            &&& number >= 1
            &&& -major_of(s.parameters) < q.start.error <= major_of(s.parameters)
            &&& lean(s.parameters, x0, y0, q.start.x, q.start.y) == steps_of(
                out + q.start.error,
                turn(s.parameters),
            )
        },
    }
}

/// A step of the search keeps the walk as far out as its parallels say,
/// and finds a parallel that lies as far out as its number says.
proof fn lemma_step_leans(s: SideSearch, x0: int, y0: int)
    requires
        s.inv(),
        !s.exhausted(),
        walker_leans(s, x0, y0),
    ensures
        walker_leans(s.step().0, x0, y0),
        parallel_leans(s, x0, y0, Some(s.step().1), s.found as int + 1),
{
    let p = s.parameters;
    let w = s.walker;
    let next = s.step().0.walker;
    let q = s.step().1;
    let a = major_of(p);
    let f = s.found as int;
    lemma_side_step(s);
    lemma_lean_of_step(p, x0, y0, w.x, w.y, next.x - w.x, next.y - w.y);
    lemma_lean_of_step(p, x0, y0, w.x, w.y, q.start.x - w.x, q.start.y - w.y);
    assert((f + 1) * a == f * a + a && (f + 2) * a == f * a + 2 * a) by (nonlinear_arith);
    assert(p.error_step_major == 2 * minor_of(p));
}

/// The outermost parallel that a search ends with lies as far out as the
/// number of parallels on its side says.
proof fn lemma_outermost_leans(s: SideSearch, x0: int, y0: int, last: Option<Parallel>)
    requires
        s.inv(),
        walker_leans(s, x0, y0),
        parallel_leans(s, x0, y0, last, s.found as int),
    ensures
        parallel_leans(s, x0, y0, s.outermost(last), s.total() as int),
        s.total() >= s.found,
        too_thick(s.parameters, s.thickness, s.stride * s.total() + 1),
        s.total() > s.found ==> !too_thick(
            s.parameters,
            s.thickness,
            s.stride * (s.total() - 1) + 1,
        ),
    decreases 2 * s.thickness - s.found,
{
    if !s.exhausted() {
        lemma_side_step(s);
        lemma_step_leans(s, x0, y0);
        let next = s.step().0;
        lemma_outermost_leans(next, x0, y0, Some(s.step().1));
        if next.total() == next.found {
            assert(s.stride * (s.total() - 1) + 1 == s.reach()) by (nonlinear_arith)
                requires
                    s.total() == s.found + 1,
                    s.reach() == s.stride * s.found + 1,
            ;
        }
    }
}

/// The vector to the left of a line, as long as the line, has the line's
/// extents for its components: the vertical one along x, and the horizontal
/// one, negated, along y. So the lean of a point is the same whether it is
/// taken from the line or from the line's parameters.
pub proof fn lemma_normal_of_line(line: Line, point: Point)
    ensures
        normal_x(BresenhamParameters::spec_new(shaping_line(line))) == shaping_line(line).dy(),
        normal_y(BresenhamParameters::spec_new(shaping_line(line))) == -shaping_line(line).dx(),
        line.lean_of(point) == lean(
            BresenhamParameters::spec_new(shaping_line(line)),
            line.start.x as int,
            line.start.y as int,
            point.x as int,
            point.y as int,
        ),
{
    let p = BresenhamParameters::spec_new(shaping_line(line));
    let dx = shaping_line(line).dx();
    let dy = shaping_line(line).dy();
    let u = point.x - line.start.x;
    let v = point.y - line.start.y;
    assert(normal_x(p) == dy && normal_y(p) == -dx);
    assert(u * dy - v * dx == u * normal_x(p) + v * normal_y(p)) by (nonlinear_arith)
        requires
            normal_x(p) == dy,
            normal_y(p) == -dx,
    ;
}

impl Line {
    /// How far the edge on the left of the line, if `left` holds, or on its
    /// right, starts from the line's start, measured across the line
    /// towards that side, times twice the line's length.
    pub open spec fn spread(self, thickness: int, stride: Option<int>, left: bool) -> int {
        let edge = self.edge(self.outermost_parallel(thickness, stride, left));
        if left {
            self.lean_of(edge.start)
        } else {
            -self.lean_of(edge.start)
        }
    }
}

/// Whether a distance `gap` across the line, in units of half a pixel
/// times the line's length, is about the thickness asked for: with five
/// times the major and once the minor extent more it is beyond the
/// thickness, and with three times the major less once the minor extent
/// less it is within. In pixels, the gap is more than the thickness less
/// three and less than the thickness and a half more.
pub open spec fn about_the_thickness(p: BresenhamParameters, thickness: int, gap: int) -> bool {
    let more = gap + 5 * major_of(p) + minor_of(p);
    let less = gap - 3 * major_of(p) + minor_of(p);
    &&& more * more > thickness_threshold(p, thickness)
    &&& less <= 0 || less * less <= thickness_threshold(p, thickness)
}

/// The edge on a side of a line starts on that side of the line, or on the
/// line. Times the stride of its search, its distance from the line is
/// about the thickness.
pub proof fn lemma_edge_lies_on_its_side(
    line: Line,
    thickness: int,
    stride: Option<int>,
    left: bool,
)
    requires
        line.in_bounds(),
        0 <= thickness <= THICKNESS_MAX,
        stride matches Some(n) ==> 1 <= n <= 2,
    ensures
        line.spread(thickness, stride, left) >= 0,
        stride is None ==> line.spread(thickness, stride, left) == 0,
        stride matches Some(n) ==> about_the_thickness(
            BresenhamParameters::spec_new(shaping_line(line)),
            thickness,
            n * line.spread(thickness, stride, left),
        ),
{
    let p = BresenhamParameters::spec_new(shaping_line(line));
    lemma_outermost_parallel_in_reach(line, thickness, stride, left);
    lemma_normal_of_line(
        line,
        line.edge(line.outermost_parallel(thickness, stride, left)).start,
    );
    if let Some(n) = stride {
        let x0 = line.start.x as int;
        let y0 = line.start.y as int;
        let s = SideSearch::start(line, thickness, n, left == left_ascends(p));
        lemma_side_start_inv(line, thickness, n, left == left_ascends(p));
        assert(0 * major_of(p) == 0);
        assert(0 * normal_x(p) == 0 && 0 * normal_y(p) == 0);
        lemma_outermost_leans(s, x0, y0, None);
        let q = s.outermost(None);
        let f = s.total() as int;
        let a = major_of(p);
        let b = minor_of(p);
        let v = line.spread(thickness, stride, left);
        let limit = thickness_threshold(p, thickness);
        let edge = line.edge(q);
        if f == 0 {
            assert(q is None);
            assert(v == 0);
        } else {
            assert(2 * (f * a) - a <= v <= 2 * (f * a) + a);
            assert(f * a >= a) by (nonlinear_arith)
                requires
                    f >= 1,
                    a >= 1,
            ;
        }
        let gap = n * v;
        let far = bundle_thickness(p, n * f + 1);
        assert(far == a + b + (n * f + 1) * (2 * a));
        assert(far >= 0 && gap + 5 * a + b >= far) by (nonlinear_arith)
            requires
                far == a + b + (n * f + 1) * (2 * a),
                gap == n * v,
                1 <= n <= 2,
                f >= 0,
                a >= 1,
                b >= 0,
                f == 0 ==> v == 0,
                f >= 1 ==> v >= 2 * (f * a) - a,
        ;
        assert((gap + 5 * a + b) * (gap + 5 * a + b) >= far * far) by (nonlinear_arith)
            requires
                gap + 5 * a + b >= far,
                far >= 0,
        ;
        if f >= 1 {
            let near = bundle_thickness(p, n * (f - 1) + 1);
            assert(near == a + b + (n * (f - 1) + 1) * (2 * a));
            assert(near >= 0 && gap - 3 * a + b <= near) by (nonlinear_arith)
                requires
                    near == a + b + (n * (f - 1) + 1) * (2 * a),
                    gap == n * v,
                    1 <= n <= 2,
                    f >= 1,
                    a >= 1,
                    b >= 0,
                    v <= 2 * (f * a) + a,
            ;
            let less = gap - 3 * a + b;
            if less > 0 {
                assert(less * less <= near * near) by (nonlinear_arith)
                    requires
                        0 < less <= near,
                ;
            }
        } else {
            assert(n * 0 == 0) by (nonlinear_arith);
            assert(0 <= b <= a);
        }
    } else {
        assert(0 * shaping_line(line).dy() == 0 && 0 * shaping_line(line).dx() == 0);
    }
}

/// The left edge of a thick line starts on the line or to its left, the
/// right edge on the line or to its right.
pub proof fn lemma_edges_lie_on_their_sides(line: Line, thickness: int, alignment: StrokeAlignment)
    requires
        line.in_bounds(),
        0 <= thickness <= THICKNESS_MAX,
    ensures
        line.lean_of(line.spec_extents_aligned(thickness, alignment).0.start) >= 0,
        line.lean_of(line.spec_extents_aligned(thickness, alignment).1.start) <= 0,
{
    lemma_edge_lies_on_its_side(line, thickness, strides(alignment).0, true);
    lemma_edge_lies_on_its_side(line, thickness, strides(alignment).1, false);
}

/// The two edges of a thick line start about the thickness apart, measured
/// across the line: in pixels, more than the thickness less three and less
/// than the thickness and a half more.
pub proof fn lemma_edges_are_the_thickness_apart(
    line: Line,
    thickness: int,
    alignment: StrokeAlignment,
)
    requires
        line.in_bounds(),
        0 <= thickness <= THICKNESS_MAX,
    ensures
        about_the_thickness(
            BresenhamParameters::spec_new(shaping_line(line)),
            thickness,
            line.lean_of(line.spec_extents_aligned(thickness, alignment).0.start) - line.lean_of(
                line.spec_extents_aligned(thickness, alignment).1.start,
            ),
        ),
{
    let p = BresenhamParameters::spec_new(shaping_line(line));
    let l = strides(alignment).0;
    let r = strides(alignment).1;
    lemma_edge_lies_on_its_side(line, thickness, l, true);
    lemma_edge_lies_on_its_side(line, thickness, r, false);
    let vl = line.spread(thickness, l, true);
    let vr = line.spread(thickness, r, false);
    let gap = line.lean_of(line.spec_extents_aligned(thickness, alignment).0.start)
        - line.lean_of(line.spec_extents_aligned(thickness, alignment).1.start);
    assert(gap == vl + vr);
    let limit = thickness_threshold(p, thickness);
    match alignment {
        StrokeAlignment::Center => {
            let small = if vl <= vr { 2 * vl } else { 2 * vr };
            let large = if vl <= vr { 2 * vr } else { 2 * vl };
            let a = major_of(p);
            let b = minor_of(p);
            assert(about_the_thickness(p, thickness, small));
            assert(about_the_thickness(p, thickness, large));
            let more = gap + 5 * a + b;
            let more_small = small + 5 * a + b;
            assert(more_small * more_small > limit);
            assert(more * more >= more_small * more_small) by (nonlinear_arith)
                requires
                    more >= more_small,
                    more_small >= 0,
            ;
            let less = gap - 3 * a + b;
            let less_large = large - 3 * a + b;
            if less > 0 {
                assert(less_large * less_large <= limit);
                assert(less * less <= less_large * less_large) by (nonlinear_arith)
                    requires
                        0 < less <= less_large,
                ;
            }
            assert(about_the_thickness(p, thickness, gap));
        },
        _ => {
            assert(1 * vl == vl && 1 * vr == vr);
            assert(about_the_thickness(p, thickness, gap));
        },
    }
}

} // verus!
