//! The two edges of a thick line.
//!
//! The edges are the lines that bound the stroke of a line on its left and
//! on its right. Each side is searched by itself: a walk goes out from the
//! start of the line, parallel by parallel. It takes one more parallel for
//! as long as the bundle of that parallel, those found before it, as many
//! again on the other side and the line in the middle is not thicker than
//! asked. The outermost parallel that the walk finds is the edge. The two
//! sides of a centered stroke are treated alike, so that both edges lie
//! equally far from the line.
//!
//! The pixels of a stroke are another matter. A stroke of an even number of
//! rows cannot lie evenly about the line in its middle, and has the row
//! without a partner on the left. Its pixels reach the left edge; the right
//! edge then lies one row beyond them.

use vstd::prelude::*;
use vstd::arithmetic::div_mod::lemma_fundamental_div_mod_converse;
use crate::bresenham::{lemma_closed_form, major_length, Bresenham, BresenhamParameters, Cursor};
use crate::geometry::{fits_i32, spec_point, steps_of, Point, COORD_MAX, THICKNESS_MAX};
use crate::intersection::lemma_product_bound;
use crate::line::Line;
use crate::points::{lemma_pixels_span_line, lemma_times_unit};
use crate::sides::{
    about_the_thickness, lemma_edges_are_the_thickness_apart, lemma_edges_lie_on_their_sides,
};
use crate::thick_points::{
    left_ascends, lemma_flat_bundle, lemma_hairline_bundle, lemma_thin_bundle_is_small, major_of,
    minor_of, shapes_a_line, shaping_line, shaping_parameters, thickness_threshold, too_thick,
    bundle_thickness, Parallel, SideState, StrokeAlignment, Walker,
};

verus! {

/// The search for the outermost parallel on one side of a line, as a state
/// machine.
pub struct SideSearch {
    /// The parameters shared by all parallels.
    pub parameters: BresenhamParameters,
    /// The thickness asked for, in pixels.
    pub thickness: int,
    /// By how many parallels the bundle grows with each parallel on this
    /// side: by two where the other side grows alike, by one where this
    /// side has the stroke to itself.
    pub stride: int,
    /// The number of parallels found on this side so far.
    pub found: nat,
    /// The walk away from the line.
    pub walker: Walker,
    /// Whether this side lies against the minor direction.
    pub ascends: bool,
}

impl SideSearch {
    /// The search beside `line` before its first parallel.
    pub open spec fn start(line: Line, thickness: int, stride: int, ascends: bool) -> SideSearch {
        SideSearch {
            parameters: BresenhamParameters::spec_new(shaping_line(line)),
            thickness,
            stride,
            found: 0,
            walker: Walker::at(line.start),
            ascends,
        }
    }

    /// The number of parallels that the bundle has beside the line in the
    /// middle once this side has one more: those of this side, and in a
    /// centered stroke as many as this side has now on the other side.
    pub open spec fn reach(self) -> int {
        self.stride * self.found + 1
    }

    /// Whether this side is complete: with one more parallel here the
    /// bundle would be thicker than asked.
    pub open spec fn exhausted(self) -> bool {
        too_thick(self.parameters, self.thickness, self.reach())
    }

    /// The next parallel on this side and the search after it.
    pub open spec fn step(self) -> (SideSearch, Parallel) {
        let (walker, parallel) = if self.ascends {
            self.walker.ascend(self.parameters)
        } else {
            self.walker.descend(self.parameters)
        };
        (
            SideSearch {
                parameters: self.parameters,
                thickness: self.thickness,
                stride: self.stride,
                found: self.found + 1,
                walker,
                ascends: self.ascends,
            },
            parallel,
        )
    }

    /// What every search beside a supported line at a supported thickness
    /// keeps true.
    pub open spec fn inv(self) -> bool {
        &&& shapes_a_line(self.parameters)
        &&& 0 <= self.thickness <= THICKNESS_MAX
        &&& 1 <= self.stride <= 2
        &&& self.found <= 2 * self.thickness
        &&& self.walker.within(self.parameters, self.found as int)
    }

    /// The outermost parallel on this side once the search is exhausted,
    /// given the outermost one found so far; `None` if the search finds
    /// none.
    pub open spec fn outermost(self, last: Option<Parallel>) -> Option<Parallel>
        decreases 2 * self.thickness - self.found,
        when self.inv()
    {
        if self.exhausted() {
            last
        } else {
            proof {
                lemma_side_step(self);
            }
            self.step().0.outermost(Some(self.step().1))
        }
    }

    /// The number of parallels on this side once the search is exhausted.
    pub open spec fn total(self) -> nat
        decreases 2 * self.thickness - self.found,
        when self.inv()
    {
        if self.exhausted() {
            self.found
        } else {
            proof {
                lemma_side_step(self);
            }
            self.step().0.total()
        }
    }
}

/// A step of a search that is not exhausted keeps the search's invariant.
/// The parallel it finds starts at most one pixel further out than the
/// walk has gone, with an error in the stepper's range. Only a line with a
/// slope has shortened parallels, and none is shortened by more than one
/// pixel.
pub proof fn lemma_side_step(s: SideSearch)
    requires
        s.inv(),
        !s.exhausted(),
    ensures
        s.found < 2 * s.thickness,
        s.step().0.inv(),
        s.step().1.reduction <= 1,
        s.step().1.reduction == 1 ==> s.parameters.error_step_major > 0,
        -COORD_MAX - s.found - 1 <= s.step().1.start.x <= COORD_MAX + s.found + 1,
        -COORD_MAX - s.found - 1 <= s.step().1.start.y <= COORD_MAX + s.found + 1,
        -s.parameters.error_threshold < s.step().1.start.error <= s.parameters.error_threshold,
{
    assert(s.stride * s.found >= s.found) by (nonlinear_arith)
        requires
            s.stride >= 1,
            s.found >= 0,
    ;
    lemma_thin_bundle_is_small(s.parameters, s.thickness, s.reach());
}

/// A stepper that starts with an error in range makes at most as many minor
/// moves as it makes steps.
pub proof fn lemma_minor_moves_bound(c: Cursor, p: BresenhamParameters, n: nat)
    requires
        p.wf(),
        -p.error_threshold < c.error <= p.error_threshold || (p.error_threshold == 0 && c.error
            == 0),
    ensures
        0 <= c.minor_moves(p, n) <= n,
{
    lemma_closed_form(c, p, n);
    let t = p.error_threshold as int;
    let s = p.error_step_major as int;
    let m = c.minor_moves(p, n);
    if t > 0 {
        let e = c.advance(p, n).settled_error(p);
        assert(m * p.error_step_minor == m * (2 * t));
        assert(m <= n) by (nonlinear_arith)
            requires
                e == c.error + n * s - m * (2 * t),
                -t < e,
                c.error <= t,
                0 <= s <= 2 * t,
                t > 0,
                n >= 0,
        {
            assert(n * s <= n * (2 * t));
            assert(m * (2 * t) < (n + 1) * (2 * t));
        }
    }
}

/// Where a fresh stepper that starts at `(x, y)` reports its pixel number
/// `k`, counted from `0`.
pub open spec fn walk_end(x: int, y: int, p: BresenhamParameters, k: nat) -> Point {
    let c = Cursor { x, y, error: 0 };
    spec_point(
        x + k * p.position_step_major.x + c.minor_moves(p, k) * p.position_step_minor.x,
        y + k * p.position_step_major.y + c.minor_moves(p, k) * p.position_step_minor.y,
    )
}

/// The stride of the search on the left and on the right of a line for a
/// stroke of the given alignment; `None` for a side that the stroke leaves
/// out.
pub open spec fn strides(alignment: StrokeAlignment) -> (Option<int>, Option<int>) {
    match alignment {
        StrokeAlignment::Center => (Some(2), Some(2)),
        StrokeAlignment::Inside => (None, Some(1)),
        StrokeAlignment::Outside => (Some(1), None),
    }
}

impl Line {
    /// The edge that the outermost parallel of one side makes.
    ///
    /// It starts where the parallel starts. Its end is reached from there by
    /// a fresh stepper in as many steps as the line has pixels, less those
    /// that the parallel falls short: the edge is a shifted copy of the
    /// line, cut by that many pixels. A side without a parallel has the
    /// line itself as its edge.
    pub open spec fn edge(self, outermost: Option<Parallel>) -> Line {
        match outermost {
            None => self,
            Some(parallel) => Line {
                start: spec_point(parallel.start.x, parallel.start.y),
                end: walk_end(
                    parallel.start.x,
                    parallel.start.y,
                    BresenhamParameters::spec_new(shaping_line(self)),
                    (self.major_delta() - parallel.reduction) as nat,
                ),
            },
        }
    }

    /// The outermost parallel on the left of the line, if `left` holds, or
    /// on its right, for a search of the given stride; `None` without a
    /// stride.
    pub open spec fn outermost_parallel(self, thickness: int, stride: Option<int>, left: bool)
        -> Option<Parallel> {
        let p = BresenhamParameters::spec_new(shaping_line(self));
        match stride {
            None => None,
            Some(stride) => SideSearch::start(
                self,
                thickness,
                stride,
                left == left_ascends(p),
            ).outermost(None),
        }
    }

    /// The left and the right edge of the line stroked at `thickness` with
    /// the given alignment.
    pub open spec fn spec_extents_aligned(self, thickness: int, alignment: StrokeAlignment) -> (
        Line,
        Line,
    ) {
        (
            self.edge(self.outermost_parallel(thickness, strides(alignment).0, true)),
            self.edge(self.outermost_parallel(thickness, strides(alignment).1, false)),
        )
    }

    /// The left and the right edge of the line stroked at `thickness`, the
    /// stroke centered on the line.
    pub open spec fn spec_extents(self, thickness: int) -> (Line, Line) {
        self.spec_extents_aligned(thickness, StrokeAlignment::Center)
    }

    /// Whether `point` lies within reach of the supported coordinates.
    pub open spec fn within_reach(point: Point) -> bool {
        &&& -COORD_MAX - 2 * THICKNESS_MAX - 1 <= point.x <= COORD_MAX + 2 * THICKNESS_MAX + 1
        &&& -COORD_MAX - 2 * THICKNESS_MAX - 1 <= point.y <= COORD_MAX + 2 * THICKNESS_MAX + 1
    }

    /// Whether `edge` runs alongside this line: from its start to its end
    /// it is as far, along both axes, as from the start of this line to its
    /// end, or to its last pixel but one.
    pub open spec fn runs_alongside(self, edge: Line) -> bool {
        let last = self.major_delta();
        ||| edge.dx() == self.dx() && edge.dy() == self.dy()
        ||| {
            &&& last >= 1
            &&& edge.dx() == self.pixel_x((last - 1) as nat) - self.start.x
            &&& edge.dy() == self.pixel_y((last - 1) as nat) - self.start.y
        }
    }

    /// The unit step to the left of the direction of travel, along x.
    pub open spec fn left_unit_x(self) -> int {
        BresenhamParameters::spec_new(shaping_line(self)).position_step_major.y as int
    }

    /// The unit step to the left of the direction of travel, along y.
    pub open spec fn left_unit_y(self) -> int {
        -(BresenhamParameters::spec_new(shaping_line(self)).position_step_major.x as int)
    }

    /// The line moved `n` pixels to its left, or `-n` pixels to its right.
    pub open spec fn shifted_left(self, n: int) -> Line {
        Line {
            start: spec_point(
                self.start.x + steps_of(n, self.left_unit_x()),
                self.start.y + steps_of(n, self.left_unit_y()),
            ),
            end: spec_point(
                self.end.x + steps_of(n, self.left_unit_x()),
                self.end.y + steps_of(n, self.left_unit_y()),
            ),
        }
    }
}

/// Whether a parallel, if there is one, is at most one pixel short, is
/// short only beside a line with a slope, and starts within reach of the
/// supported coordinates.
pub open spec fn parallel_in_reach(p: BresenhamParameters, parallel: Option<Parallel>) -> bool {
    match parallel {
        None => true,
        Some(q) => {
            &&& q.reduction <= 1
            &&& q.reduction == 1 ==> p.error_step_major > 0
            &&& Line::within_reach(spec_point(q.start.x, q.start.y))
            &&& fits_i32(q.start.x) && fits_i32(q.start.y)
        },
    }
}

/// The outermost parallel that a search ends with is within reach, if the
/// one it was given is.
pub proof fn lemma_outermost_in_reach(s: SideSearch, last: Option<Parallel>)
    requires
        s.inv(),
        parallel_in_reach(s.parameters, last),
    ensures
        parallel_in_reach(s.parameters, s.outermost(last)),
    decreases 2 * s.thickness - s.found,
{
    if !s.exhausted() {
        lemma_side_step(s);
        lemma_outermost_in_reach(s.step().0, Some(s.step().1));
    }
}

/// Walks a fresh stepper from `start` and returns the pixel it reports last
/// in `count` steps.
fn walk(start: Point, count: u64, p: &BresenhamParameters) -> (end: Point)
    requires
        p.wf(),
        1 <= count <= 2 * COORD_MAX + 1,
        Line::within_reach(start),
    ensures
        end == walk_end(start.x as int, start.y as int, *p, (count - 1) as nat),
{
    let ghost c = Cursor { x: start.x as int, y: start.y as int, error: 0 };
    let mut stepper = Bresenham::with_initial_error(start, 0);
    let mut end = start;
    let mut i: u64 = 0;
    while i < count
        invariant
            p.wf(),
            i <= count <= 2 * COORD_MAX + 1,
            c == (Cursor { x: start.x as int, y: start.y as int, error: 0 }),
            Line::within_reach(start),
            stepper@ == c.advance(*p, i as nat),
            i >= 1 ==> end == walk_end(start.x as int, start.y as int, *p, (i - 1) as nat),
        decreases count - i,
    {
        proof {
            let n = i as nat;
            lemma_closed_form(c, *p, n);
            lemma_minor_moves_bound(c, *p, n);
            lemma_times_unit(n as int, p.position_step_major.x as int);
            lemma_times_unit(n as int, p.position_step_major.y as int);
            lemma_times_unit(c.minor_moves(*p, n), p.position_step_minor.x as int);
            lemma_times_unit(c.minor_moves(*p, n), p.position_step_minor.y as int);
        }
        end = stepper.next(p);
        i = i + 1;
    }
    end
}

/// Searches one side of `line` and returns its edge.
fn edge_on_side(
    line: &Line,
    p: &BresenhamParameters,
    thickness: i32,
    stride: Option<u8>,
    left: bool,
) -> (edge: Line)
    requires
        line.in_bounds(),
        0 <= thickness <= THICKNESS_MAX,
        *p == BresenhamParameters::spec_new(shaping_line(*line)),
        stride matches Some(n) ==> 1 <= n <= 2,
    ensures
        edge == line.edge(
            line.outermost_parallel(
                thickness as int,
                match stride {
                    Some(n) => Some(n as int),
                    None => None,
                },
                left,
            ),
        ),
{
    let stride: i64 = match stride {
        None => {
            return *line;
        },
        Some(n) => n as i64,
    };
    let ascends: bool = left == (p.position_step_major.y == -p.position_step_minor.x
        && p.position_step_major.x == p.position_step_minor.y);
    let length: u64 = major_length(line);
    let major: i64 = p.error_threshold;
    let minor: i64 = p.error_step_major / 2;
    let t: i128 = thickness as i128;
    proof {
        lemma_product_bound(t as int, t as int, 0x1000_0000, 0x1000_0000);
        lemma_product_bound(major as int, major as int, 0x2000_0000, 0x2000_0000);
        lemma_product_bound(minor as int, minor as int, 0x2000_0000, 0x2000_0000);
        lemma_product_bound(
            4 * (t * t),
            major * major + minor * minor,
            0x400_0000_0000_0000,
            0x800_0000_0000_0000,
        );
        assert(1 * (2 * major) == 2 * major);
        assert(stride * 0 + 1 == 1) by (nonlinear_arith);
    }
    let threshold: i128 = 4 * (t * t) * (major as i128 * major as i128 + minor as i128
        * minor as i128);
    let mut reached: i64 = major + minor + 2 * major;
    let mut walker = SideState::new(line.start);
    let mut found: Option<(Point, u64)> = None;
    let ghost first = SideSearch::start(*line, thickness as int, stride as int, ascends);
    let ghost mut search = first;
    let ghost mut last: Option<Parallel> = None;

    loop
        invariant
            line.in_bounds(),
            search.inv(),
            search.parameters == *p,
            search.thickness == thickness,
            search.stride == stride,
            search.ascends == ascends,
            search.walker == walker@,
            *p == BresenhamParameters::spec_new(shaping_line(*line)),
            major == major_of(*p),
            minor == minor_of(*p),
            threshold == thickness_threshold(*p, thickness as int),
            reached == bundle_thickness(*p, search.reach()),
            length == line.spec_major_length(),
            search.outermost(last) == first.outermost(None),
            last is None <==> found is None,
            (last, found) matches (Some(parallel), Some(pair)) ==> line.tracks(
                parallel,
                pair.0,
                pair.1,
            ),
        ensures
            last == first.outermost(None),
        decreases 2 * search.thickness - search.found,
    {
        let wide: i128 = reached as i128;
        proof {
            let k = search.reach();
            assert(0 <= search.stride * search.found <= 2 * (2 * search.thickness))
                by (nonlinear_arith)
                requires
                    1 <= search.stride <= 2,
                    0 <= search.found <= 2 * search.thickness,
            ;
            lemma_product_bound(k, 2 * major_of(*p), 0x4000_0001, 0x4000_0000);
            lemma_product_bound(
                wide as int,
                wide as int,
                0x2000_0000_0000_0000,
                0x2000_0000_0000_0000,
            );
            if !search.exhausted() {
                lemma_side_step(search);
                assert((k + search.stride) * (2 * major_of(*p)) == k * (2 * major_of(*p))
                    + search.stride * (2 * major_of(*p))) by (nonlinear_arith);
                assert(search.stride * (search.found + 1) + 1 == k + search.stride)
                    by (nonlinear_arith)
                    requires
                        k == search.stride * search.found + 1,
                ;
                assert(stride * (2 * major) == search.stride * (2 * major_of(*p)));
                lemma_product_bound(
                    search.stride,
                    2 * major_of(*p),
                    2,
                    0x4000_0000,
                );
            }
        }
        if wide * wide > threshold {
            break ;
        }
        let (stepper, reduction) = if ascends {
            walker.ascend(p)
        } else {
            walker.descend(p)
        };
        found = Some((stepper.point, length - reduction));
        reached = reached + stride * (2 * major);
        proof {
            last = Some(Parallel { start: stepper@, reduction: reduction as nat });
            search = search.step().0;
        }
    }
    match found {
        None => *line,
        Some((start, points)) => Line::new(start, walk(start, points, p)),
    }
}

impl Line {
    /// Whether `start` and `points` are the first pixel and the number of
    /// pixels of `parallel`, a parallel of this line within reach.
    pub open spec fn tracks(self, parallel: Parallel, start: Point, points: u64) -> bool {
        &&& start.x == parallel.start.x
        &&& start.y == parallel.start.y
        &&& Self::within_reach(start)
        &&& points >= 1
        &&& points - 1 == self.major_delta() - parallel.reduction
    }

    /// Get two lines representing the left and right edges of the thick line.
    ///
    /// Each side of the line is searched for its outermost parallel. Each
    /// edge starts where that parallel starts and runs alongside the line
    /// for the parallel's length. Both sides are searched alike, so that
    /// the edges of a horizontal or vertical line lie half the thickness
    /// to either side of it, rounded down. With a thickness of zero or one
    /// both edges are the line itself. The left edge starts on the line or
    /// to its left, the right edge on the line or to its right, and the two
    /// start about the thickness apart.
    pub fn extents(&self, thickness: i32) -> (edges: (Line, Line))
        requires
            self.in_bounds(),
            0 <= thickness <= THICKNESS_MAX,
        ensures
            edges == self.spec_extents(thickness as int),
            thickness <= 1 ==> edges == (*self, *self),
            self.dx() == 0 || self.dy() == 0 ==> edges == (
                self.shifted_left(thickness as int / 2),
                self.shifted_left(-(thickness as int / 2)),
            ),
            self.runs_alongside(edges.0),
            self.runs_alongside(edges.1),
            self.lean_of(edges.0.start) >= 0,
            self.lean_of(edges.1.start) <= 0,
            about_the_thickness(
                BresenhamParameters::spec_new(shaping_line(*self)),
                thickness as int,
                self.lean_of(edges.0.start) - self.lean_of(edges.1.start),
            ),
    {
        proof {
            if self.dx() == 0 || self.dy() == 0 {
                lemma_extents_of_flat_line(*self, thickness as int);
            }
        }
        self.extents_aligned(thickness, StrokeAlignment::Center)
    }

    /// Get the left and right edges of the thick line for a stroke that
    /// lies centered on the line, or wholly on one side of it. The edge on
    /// a side that the stroke leaves out is the line itself.
    pub fn extents_aligned(&self, thickness: i32, alignment: StrokeAlignment) -> (edges: (
        Line,
        Line,
    ))
        requires
            self.in_bounds(),
            0 <= thickness <= THICKNESS_MAX,
        ensures
            edges == self.spec_extents_aligned(thickness as int, alignment),
            thickness <= 1 ==> edges == (*self, *self),
            self.runs_alongside(edges.0),
            self.runs_alongside(edges.1),
            self.lean_of(edges.0.start) >= 0,
            self.lean_of(edges.1.start) <= 0,
            about_the_thickness(
                BresenhamParameters::spec_new(shaping_line(*self)),
                thickness as int,
                self.lean_of(edges.0.start) - self.lean_of(edges.1.start),
            ),
    {
        proof {
            lemma_extents_run_alongside(*self, thickness as int, alignment);
            lemma_edges_lie_on_their_sides(*self, thickness as int, alignment);
            lemma_edges_are_the_thickness_apart(*self, thickness as int, alignment);
            if thickness <= 1 {
                lemma_extents_of_thin_line(*self, thickness as int, alignment);
            }
        }
        let p = shaping_parameters(self);
        let (left, right): (Option<u8>, Option<u8>) = match alignment {
            StrokeAlignment::Center => (Some(2), Some(2)),
            StrokeAlignment::Inside => (None, Some(1)),
            StrokeAlignment::Outside => (Some(1), None),
        };
        let l = edge_on_side(self, &p, thickness, left, true);
        let r = edge_on_side(self, &p, thickness, right, false);
        (l, r)
    }
}

/// The search beside a supported line at a supported thickness starts with
/// its invariant in place.
pub proof fn lemma_side_start_inv(line: Line, thickness: int, stride: int, ascends: bool)
    requires
        line.in_bounds(),
        0 <= thickness <= THICKNESS_MAX,
        1 <= stride <= 2,
    ensures
        SideSearch::start(line, thickness, stride, ascends).inv(),
{
}

/// At a thickness of zero or one both edges are the line itself, whatever
/// its slope and the alignment.
pub proof fn lemma_extents_of_thin_line(line: Line, thickness: int, alignment: StrokeAlignment)
    requires
        line.in_bounds(),
        0 <= thickness <= 1,
    ensures
        line.spec_extents_aligned(thickness, alignment) == (line, line),
{
    let p = BresenhamParameters::spec_new(shaping_line(line));
    lemma_hairline_bundle(p, 1);
    lemma_side_start_inv(line, thickness, 1, true);
    lemma_side_start_inv(line, thickness, 1, false);
    lemma_side_start_inv(line, thickness, 2, true);
    lemma_side_start_inv(line, thickness, 2, false);
}

/// The edge made by a parallel within reach runs alongside the line.
proof fn lemma_edge_runs_alongside(line: Line, parallel: Option<Parallel>)
    requires
        line.in_bounds(),
        parallel_in_reach(BresenhamParameters::spec_new(shaping_line(line)), parallel),
    ensures
        line.runs_alongside(line.edge(parallel)),
        Line::within_reach(line.edge(parallel).start),
{
    if let Some(q) = parallel {
        let p = BresenhamParameters::spec_new(shaping_line(line));
        let k = (line.major_delta() - q.reduction) as nat;
        let c = Cursor { x: q.start.x, y: q.start.y, error: 0 };
        let m = c.minor_moves(p, k);
        lemma_minor_moves_bound(c, p, k);
        lemma_times_unit(k as int, p.position_step_major.x as int);
        lemma_times_unit(k as int, p.position_step_major.y as int);
        lemma_times_unit(m, p.position_step_minor.x as int);
        lemma_times_unit(m, p.position_step_minor.y as int);
        if line.start == line.end {
            assert(k == 0);
        } else {
            assert(m == line.minor_offset(k));
            lemma_pixels_span_line(line);
        }
    }
}

/// The outermost parallel on a side of a supported line is within reach.
pub proof fn lemma_outermost_parallel_in_reach(
    line: Line,
    thickness: int,
    stride: Option<int>,
    left: bool,
)
    requires
        line.in_bounds(),
        0 <= thickness <= THICKNESS_MAX,
        stride matches Some(n) ==> 1 <= n <= 2,
    ensures
        parallel_in_reach(
            BresenhamParameters::spec_new(shaping_line(line)),
            line.outermost_parallel(thickness, stride, left),
        ),
{
    if let Some(n) = stride {
        let p = BresenhamParameters::spec_new(shaping_line(line));
        let s = SideSearch::start(line, thickness, n, left == left_ascends(p));
        lemma_side_start_inv(line, thickness, n, left == left_ascends(p));
        lemma_outermost_in_reach(s, None);
    }
}

/// Both edges of a thick line run alongside the line: each is a copy of
/// the line, or of the line less its last pixel, moved to where the edge
/// starts. So both edges travel in the direction of the line.
pub proof fn lemma_extents_run_alongside(line: Line, thickness: int, alignment: StrokeAlignment)
    requires
        line.in_bounds(),
        0 <= thickness <= THICKNESS_MAX,
    ensures
        line.runs_alongside(line.spec_extents_aligned(thickness, alignment).0),
        line.runs_alongside(line.spec_extents_aligned(thickness, alignment).1),
        Line::within_reach(line.spec_extents_aligned(thickness, alignment).0.start),
        Line::within_reach(line.spec_extents_aligned(thickness, alignment).1.start),
{
    let l = strides(alignment).0;
    let r = strides(alignment).1;
    lemma_outermost_parallel_in_reach(line, thickness, l, true);
    lemma_outermost_parallel_in_reach(line, thickness, r, false);
    lemma_edge_runs_alongside(line, line.outermost_parallel(thickness, l, true));
    lemma_edge_runs_alongside(line, line.outermost_parallel(thickness, r, false));
}

/// The edges of a line depend on the line, the thickness and the alignment
/// alone: whatever is computed from the same three is the same pair of
/// lines.
pub proof fn lemma_extents_are_a_function(
    line: Line,
    thickness: int,
    alignment: StrokeAlignment,
    first: (Line, Line),
    second: (Line, Line),
)
    requires
        first == line.spec_extents_aligned(thickness, alignment),
        second == line.spec_extents_aligned(thickness, alignment),
    ensures
        first == second,
{
}

/// How many parallels a side has beside a horizontal or vertical line:
/// half the thickness, rounded down, where the other side grows alike, and
/// all but the line itself where this side has the stroke to itself.
pub open spec fn flat_reach(thickness: int, stride: int) -> int {
    if stride == 2 {
        thickness / 2
    } else if thickness >= 1 {
        thickness - 1
    } else {
        0
    }
}

impl Line {
    /// The walk beside a horizontal or vertical line, `n` pixels to the
    /// left of the line's start.
    spec fn walker_beside(self, n: int) -> Walker {
        Walker {
            x: self.start.x + steps_of(n, self.left_unit_x()),
            y: self.start.y + steps_of(n, self.left_unit_y()),
            parallel_error: 0,
            perpendicular_error: 0,
            pending: false,
        }
    }

    /// The parallel `n` pixels to the left of a horizontal or vertical
    /// line; none for the line itself.
    spec fn parallel_beside(self, n: int) -> Option<Parallel> {
        if n == 0 {
            None
        } else {
            Some(self.walker_beside(n).parallel_here())
        }
    }
}

/// Beside a horizontal or vertical line the search moves one pixel
/// straight out on each step, until the side has its share of the
/// thickness.
proof fn lemma_flat_side(line: Line, s: SideSearch, left: bool)
    requires
        line.in_bounds(),
        line.dx() == 0 || line.dy() == 0,
        s.inv(),
        s.parameters == BresenhamParameters::spec_new(shaping_line(line)),
        s.ascends == (left == left_ascends(s.parameters)),
        s.found <= flat_reach(s.thickness, s.stride),
        s.walker == line.walker_beside(if left { s.found as int } else { -(s.found as int) }),
    ensures
        s.outermost(line.parallel_beside(if left { s.found as int } else { -(s.found as int) }))
            == line.parallel_beside(
            if left {
                flat_reach(s.thickness, s.stride)
            } else {
                -flat_reach(s.thickness, s.stride)
            },
        ),
    decreases flat_reach(s.thickness, s.stride) - s.found,
{
    let f = s.found as int;
    assert(s.stride * f == if s.stride == 2 { 2 * f } else { f }) by (nonlinear_arith)
        requires
            s.stride == 1 || s.stride == 2,
    ;
    lemma_flat_bundle(s.parameters, s.thickness, s.reach());
    if !s.exhausted() {
        lemma_side_step(s);
        lemma_flat_side(line, s.step().0, left);
    }
}

/// The edge that a parallel straight beside a horizontal or vertical line
/// makes is the line, moved as far.
proof fn lemma_edge_beside_flat_line(line: Line, n: int)
    requires
        line.in_bounds(),
        line.dx() == 0 || line.dy() == 0,
        -2 * THICKNESS_MAX <= n <= 2 * THICKNESS_MAX,
    ensures
        line.edge(line.parallel_beside(n)) == line.shifted_left(n),
{
    let p = BresenhamParameters::spec_new(shaping_line(line));
    let t = p.error_threshold as int;
    let k = line.major_delta() as nat;
    lemma_fundamental_div_mod_converse(t - 1, 2 * t, 0, t - 1);
    assert(k * 0 == 0) by (nonlinear_arith);
    lemma_times_unit(k as int, p.position_step_major.x as int);
    lemma_times_unit(k as int, p.position_step_major.y as int);
    assert(0 * p.position_step_minor.x == 0 && 0 * p.position_step_minor.y == 0);
}

/// The edges of a horizontal or vertical line under a centered stroke are
/// mirror images of each other about the line: the line moved straight to
/// its left and to its right by half the thickness, rounded down.
pub proof fn lemma_extents_of_flat_line(line: Line, thickness: int)
    requires
        line.in_bounds(),
        0 <= thickness <= THICKNESS_MAX,
        line.dx() == 0 || line.dy() == 0,
    ensures
        line.spec_extents(thickness) == (
            line.shifted_left(thickness / 2),
            line.shifted_left(-(thickness / 2)),
        ),
{
    let p = BresenhamParameters::spec_new(shaping_line(line));
    let l = SideSearch::start(line, thickness, 2, left_ascends(p));
    let r = SideSearch::start(line, thickness, 2, !left_ascends(p));
    lemma_side_start_inv(line, thickness, 2, left_ascends(p));
    lemma_side_start_inv(line, thickness, 2, !left_ascends(p));
    lemma_flat_side(line, l, true);
    lemma_flat_side(line, r, false);
    lemma_edge_beside_flat_line(line, thickness / 2);
    lemma_edge_beside_flat_line(line, -(thickness / 2));
}

/// The edge of a horizontal or vertical line on the side that has the
/// stroke to itself is the line moved straight to that side by one pixel
/// less than the thickness.
pub proof fn lemma_extents_of_flat_line_on_one_side(
    line: Line,
    thickness: int,
    alignment: StrokeAlignment,
)
    requires
        line.in_bounds(),
        1 <= thickness <= THICKNESS_MAX,
        line.dx() == 0 || line.dy() == 0,
        alignment != StrokeAlignment::Center,
    ensures
        alignment == StrokeAlignment::Outside ==> line.spec_extents_aligned(thickness, alignment)
            == (line.shifted_left(thickness - 1), line),
        alignment == StrokeAlignment::Inside ==> line.spec_extents_aligned(thickness, alignment)
            == (line, line.shifted_left(-(thickness - 1))),
{
    let p = BresenhamParameters::spec_new(shaping_line(line));
    let left = alignment == StrokeAlignment::Outside;
    let s = SideSearch::start(line, thickness, 1, left == left_ascends(p));
    lemma_side_start_inv(line, thickness, 1, left == left_ascends(p));
    lemma_flat_side(line, s, left);
    lemma_edge_beside_flat_line(line, thickness - 1);
    lemma_edge_beside_flat_line(line, -(thickness - 1));
}

} // verus!
