//! The parallels of a thick line.
//!
//! A line of some thickness is drawn as a bundle of thin lines side by side,
//! each a shifted copy of the line in the middle. Their starts are found by
//! walking away from the start of the middle line at a right angle, in turn
//! to its left and to its right, until the bundle is as thick as asked.
//!
//! The line in the middle counts as the first parallel of the bundle, and
//! the left side has the next. So a bundle of an even number of parallels
//! has one more on the left of the line than on its right.
//!
//! The walk moves one pixel against or along the line's minor axis for each
//! new parallel. Where it also has to move one pixel along the major axis,
//! the two neighbouring parallels can leave a gap between them; an extra
//! parallel, one pixel shorter, fills it.

use vstd::prelude::*;
use crate::bresenham::{Bresenham, BresenhamParameters, Cursor};
use crate::geometry::{Point, COORD_MAX, THICKNESS_MAX};
use crate::intersection::lemma_product_bound;
use crate::line::Line;

verus! {

/// Which side of the center line to draw on.
///
/// Imagine standing on `start`, looking ahead to where `end` is. `Left` is to your left, `Right` to
/// your right.
#[derive(Copy, Clone, Debug, PartialEq, Eq, Structural, Hash)]
pub enum Side {
    /// Left side of the line
    Left,
    /// Right side of the line
    Right,
}

/// Where a stroke lies relative to the line that is stroked.
#[derive(Copy, Clone, Debug, PartialEq, Eq, Structural, Hash)]
pub enum StrokeAlignment {
    /// The stroke is centered on the line. Its two edges are found alike
    /// on both sides. Its pixels are taken from the two sides in turn
    /// after the line itself, the left side first.
    Center,
    /// The stroke lies on the line and to its right, which is the inside of
    /// an outline that runs clockwise on the display.
    Inside,
    /// The stroke lies on the line and to its left, which is the outside of
    /// an outline that runs clockwise on the display.
    Outside,
}

/// One line of the bundle: where its stepper starts, and by how many pixels
/// it is shorter than the line in the middle.
pub struct Parallel {
    /// The state of the stepper at the first pixel.
    pub start: Cursor,
    /// The number of pixels by which the parallel falls short.
    pub reduction: nat,
}

/// The walk away from the middle line on one side.
pub struct Walker {
    /// Horizontal position of the last full parallel found.
    pub x: int,
    /// Vertical position of the last full parallel found.
    pub y: int,
    /// The error with which a parallel starts here.
    pub parallel_error: int,
    /// The error of the walk itself, which decides when it moves along the
    /// major axis.
    pub perpendicular_error: int,
    /// Whether the full parallel at this position is still to be handed out,
    /// an extra one having gone before it.
    pub pending: bool,
}

impl Walker {
    /// The walk at `start`, before its first step.
    pub open spec fn at(start: Point) -> Walker {
        Walker {
            x: start.x as int,
            y: start.y as int,
            parallel_error: 0,
            perpendicular_error: 0,
            pending: false,
        }
    }

    /// The full parallel that starts where the walk stands.
    pub open spec fn parallel_here(self) -> Parallel {
        Parallel {
            start: Cursor { x: self.x, y: self.y, error: self.parallel_error },
            reduction: 0,
        }
    }

    /// The walk with the pending parallel handed out.
    pub open spec fn settled(self) -> Walker {
        Walker {
            x: self.x,
            y: self.y,
            parallel_error: self.parallel_error,
            perpendicular_error: self.perpendicular_error,
            pending: false,
        }
    }

    /// One step on the side that lies against the minor direction.
    ///
    /// The walk moves one pixel against the minor axis and adds the major
    /// error step to its own error. Past the threshold it also moves one pixel
    /// forward along the major axis, which advances the error of the
    /// parallels by one step; if that error passes the threshold in turn,
    /// the parallel one row further out is reached, and the row skipped is
    /// filled by an extra parallel that starts one pixel ahead of the
    /// previous one.
    pub open spec fn ascend(self, p: BresenhamParameters) -> (Walker, Parallel) {
        let mx = p.position_step_major.x as int;
        let my = p.position_step_major.y as int;
        let nx = p.position_step_minor.x as int;
        let ny = p.position_step_minor.y as int;
        let walked = self.perpendicular_error + p.error_step_major;
        let shifted = self.parallel_error + p.error_step_major;
        if self.pending {
            (self.settled(), self.parallel_here())
        } else if walked <= p.error_threshold {
            let w = Walker {
                x: self.x - nx,
                y: self.y - ny,
                parallel_error: self.parallel_error,
                perpendicular_error: walked,
                pending: false,
            };
            (w, w.parallel_here())
        } else if shifted <= p.error_threshold {
            let w = Walker {
                x: self.x - nx + mx,
                y: self.y - ny + my,
                parallel_error: shifted,
                perpendicular_error: walked - p.error_step_minor,
                pending: false,
            };
            (w, w.parallel_here())
        } else {
            let w = Walker {
                x: self.x - nx + mx,
                y: self.y - ny + my,
                parallel_error: shifted - p.error_step_minor,
                perpendicular_error: walked - p.error_step_minor,
                pending: true,
            };
            (
                w,
                Parallel {
                    start: Cursor {
                        x: self.x + mx,
                        y: self.y + my,
                        error: shifted - p.error_step_minor,
                    },
                    reduction: 1,
                },
            )
        }
    }

    /// One step on the side that lies along the minor direction: the mirror
    /// image of `ascend`.
    ///
    /// The walk moves one pixel along the minor axis and takes the major
    /// error step off its own error. At the negated threshold it also moves
    /// one pixel backward along the major axis; if the error of the parallels
    /// reaches the negated threshold in turn, the row skipped is filled by an
    /// extra parallel that starts right beside the previous one.
    pub open spec fn descend(self, p: BresenhamParameters) -> (Walker, Parallel) {
        let mx = p.position_step_major.x as int;
        let my = p.position_step_major.y as int;
        let nx = p.position_step_minor.x as int;
        let ny = p.position_step_minor.y as int;
        let walked = self.perpendicular_error - p.error_step_major;
        let shifted = self.parallel_error - p.error_step_major;
        if self.pending {
            (self.settled(), self.parallel_here())
        } else if walked > -p.error_threshold {
            let w = Walker {
                x: self.x + nx,
                y: self.y + ny,
                parallel_error: self.parallel_error,
                perpendicular_error: walked,
                pending: false,
            };
            (w, w.parallel_here())
        } else if shifted > -p.error_threshold {
            let w = Walker {
                x: self.x + nx - mx,
                y: self.y + ny - my,
                parallel_error: shifted,
                perpendicular_error: walked + p.error_step_minor,
                pending: false,
            };
            (w, w.parallel_here())
        } else {
            let w = Walker {
                x: self.x + nx - mx,
                y: self.y + ny - my,
                parallel_error: shifted + p.error_step_minor,
                perpendicular_error: walked + p.error_step_minor,
                pending: true,
            };
            (
                w,
                Parallel {
                    start: Cursor { x: self.x + nx, y: self.y + ny, error: self.parallel_error },
                    reduction: 1,
                },
            )
        }
    }

    /// Whether the walk is at most `steps` pixels outside the supported
    /// coordinates and both its errors are in the stepper's range.
    pub open spec fn within(self, p: BresenhamParameters, steps: int) -> bool {
        &&& -COORD_MAX - steps <= self.x <= COORD_MAX + steps
        &&& -COORD_MAX - steps <= self.y <= COORD_MAX + steps
        &&& -p.error_threshold < self.parallel_error <= p.error_threshold
        &&& -p.error_threshold < self.perpendicular_error <= p.error_threshold
    }
}

/// The line that lends a line of a single pixel its direction.
pub open spec fn unit_line() -> Line {
    Line { start: Point { x: 0, y: 0 }, end: Point { x: 1, y: 0 } }
}

/// The line whose direction and extents shape the bundle.
///
/// That is the line itself, unless it is a single pixel and has no direction:
/// such a line is stroked as if it pointed to the right.
pub open spec fn shaping_line(line: Line) -> Line {
    if line.start == line.end {
        unit_line()
    } else {
        line
    }
}

/// Whether the left of the direction of travel lies against the minor
/// direction.
pub open spec fn left_ascends(p: BresenhamParameters) -> bool {
    p.position_step_major.y == -p.position_step_minor.x && p.position_step_major.x
        == p.position_step_minor.y
}

/// The major extent of the line that the parameters are those of.
pub open spec fn major_of(p: BresenhamParameters) -> int {
    p.error_threshold as int
}

/// The minor extent of the line that the parameters are those of.
pub open spec fn minor_of(p: BresenhamParameters) -> int {
    p.error_step_major as int / 2
}

/// Whether the parameters are those of a supported line of more than one
/// pixel.
pub open spec fn shapes_a_line(p: BresenhamParameters) -> bool {
    &&& p.wf()
    &&& 1 <= p.error_threshold <= 2 * COORD_MAX
    &&& p.error_step_major % 2 == 0
}

/// The thickness that a bundle of `count + 1` parallels has, in units of
/// half a pixel times the line's length: the sum of the two extents for
/// the line in the middle, and twice the major extent more for every
/// further parallel.
pub open spec fn bundle_thickness(p: BresenhamParameters, count: int) -> int {
    major_of(p) + minor_of(p) + count * (2 * major_of(p))
}

/// The square of the thickness asked for, in the units of
/// `bundle_thickness`: `4 · thickness² · (major² + minor²)`.
pub open spec fn thickness_threshold(p: BresenhamParameters, thickness: int) -> int {
    4 * (thickness * thickness) * (major_of(p) * major_of(p) + minor_of(p) * minor_of(p))
}

/// Whether a bundle of `count + 1` parallels is thicker than asked: the
/// square of its thickness exceeds the threshold.
pub open spec fn too_thick(p: BresenhamParameters, thickness: int, count: int) -> bool {
    bundle_thickness(p, count) * bundle_thickness(p, count) > thickness_threshold(p, thickness)
}

/// A bundle that is not thicker than asked has fewer parallels beside the
/// line in the middle than twice the thickness.
pub proof fn lemma_thin_bundle_is_small(p: BresenhamParameters, thickness: int, count: int)
    requires
        shapes_a_line(p),
        0 <= thickness,
        0 <= count,
        !too_thick(p, thickness, count),
    ensures
        count < 2 * thickness,
{
    let a = major_of(p);
    let b = minor_of(p);
    let t = thickness;
    let k = count;
    let acc = bundle_thickness(p, count);
    assert(0 <= b <= a);
    assert(acc * acc <= 4 * (t * t) * (a * a + b * b));
    assert(k * (2 * a) >= 0) by (nonlinear_arith)
        requires
            k >= 0,
            a >= 1,
    ;
    assert(acc <= 2 * t * (a + b)) by (nonlinear_arith)
        requires
            acc * acc <= 4 * (t * t) * (a * a + b * b),
            acc >= 0,
            t >= 0,
            a >= 1,
            0 <= b <= a,
    {
        let z = 2 * t * (a + b);
        assert(z >= 0);
        assert(z * z == 4 * (t * t) * (a * a + b * b) + 8 * (t * t) * (a * b));
        assert(8 * (t * t) * (a * b) >= 0);
        assert(acc * acc <= z * z);
        if acc > z {
            assert(acc * acc > z * z);
        }
    }
    assert(k < 2 * t) by (nonlinear_arith)
        requires
            acc == a + b + k * (2 * a),
            acc <= 2 * t * (a + b),
            0 <= b <= a,
            a >= 1,
            k >= 0,
            t >= 0,
    {
        if k >= 2 * t {
            assert(k * (2 * a) >= 2 * t * (2 * a));
            assert(2 * t * (a + b) <= 2 * t * (2 * a));
        }
    }
}

/// A bundle of no more parallels than the thickness counts pixels is not
/// thicker than asked.
pub proof fn lemma_small_bundle_is_thin(p: BresenhamParameters, thickness: int, count: int)
    requires
        shapes_a_line(p),
        0 <= count < thickness,
    ensures
        !too_thick(p, thickness, count),
{
    let a = major_of(p);
    let b = minor_of(p);
    let t = thickness;
    let k = count;
    let acc = bundle_thickness(p, count);
    assert(0 <= acc <= 2 * (a * t)) by (nonlinear_arith)
        requires
            acc == a + b + k * (2 * a),
            0 <= b <= a,
            0 <= k <= t - 1,
    {
        assert(k * (2 * a) <= (t - 1) * (2 * a));
    }
    assert(acc * acc <= (2 * (a * t)) * (2 * (a * t))) by (nonlinear_arith)
        requires
            0 <= acc <= 2 * (a * t),
    ;
    assert((2 * (a * t)) * (2 * (a * t)) <= 4 * (t * t) * (a * a + b * b)) by (nonlinear_arith)
        requires
            0 <= b,
    {
        assert((2 * (a * t)) * (2 * (a * t)) == 4 * (t * t) * (a * a));
        assert(4 * (t * t) * (b * b) >= 0);
    }
}

/// Beside a line without a slope a bundle is thicker than asked exactly
/// when it has more parallels than the thickness counts pixels.
pub proof fn lemma_flat_bundle(p: BresenhamParameters, thickness: int, count: int)
    requires
        shapes_a_line(p),
        p.error_step_major == 0,
        0 <= thickness,
        0 <= count,
    ensures
        too_thick(p, thickness, count) <==> count >= thickness,
{
    let a = major_of(p);
    let k = count;
    let t = thickness;
    let acc = bundle_thickness(p, count);
    let w = 2 * k + 1;
    assert(acc == a * w) by (nonlinear_arith)
        requires
            acc == a + 0 + k * (2 * a),
            w == 2 * k + 1,
    ;
    assert(thickness_threshold(p, t) == (a * a) * ((2 * t) * (2 * t))) by (nonlinear_arith)
        requires
            thickness_threshold(p, t) == 4 * (t * t) * (a * a + 0 * 0),
    ;
    assert(acc * acc == (a * a) * (w * w)) by (nonlinear_arith)
        requires
            acc == a * w,
    ;
    assert(a * a >= 1) by (nonlinear_arith)
        requires
            a >= 1,
    ;
    if k >= t {
        assert(w * w > (2 * t) * (2 * t)) by (nonlinear_arith)
            requires
                w >= 2 * t + 1,
                t >= 0,
        ;
        assert((a * a) * (w * w) > (a * a) * ((2 * t) * (2 * t))) by (nonlinear_arith)
            requires
                a * a >= 1,
                w * w > (2 * t) * (2 * t),
        ;
    } else {
        assert(w * w <= (2 * t) * (2 * t)) by (nonlinear_arith)
            requires
                1 <= w <= 2 * t - 1,
        ;
        assert((a * a) * (w * w) <= (a * a) * ((2 * t) * (2 * t))) by (nonlinear_arith)
            requires
                a * a >= 1,
                w * w <= (2 * t) * (2 * t),
        ;
    }
}

/// At a thickness of one the line in the middle is not thicker than asked,
/// and any parallel more is; at a thickness of zero the line in the middle
/// is too thick already.
pub proof fn lemma_hairline_bundle(p: BresenhamParameters, count: int)
    requires
        shapes_a_line(p),
        0 <= count,
    ensures
        !too_thick(p, 1, 0),
        count >= 1 ==> too_thick(p, 1, count),
        too_thick(p, 0, count),
{
    let a = major_of(p);
    let b = minor_of(p);
    let acc = bundle_thickness(p, count);
    assert(0 * (2 * a) == 0);
    assert(4 * (1int * 1int) * (a * a + b * b) == 4 * (a * a + b * b));
    assert((a + b) * (a + b) <= 4 * (a * a + b * b)) by (nonlinear_arith)
        requires
            0 <= b <= a,
    ;
    assert(acc >= 1 && (count >= 1 ==> acc >= a + b + 2 * a)) by (nonlinear_arith)
        requires
            acc == a + b + count * (2 * a),
            count >= 0,
            a >= 1,
            b >= 0,
    ;
    assert(acc >= a + b + 2 * a ==> acc * acc > 4 * (a * a + b * b)) by (nonlinear_arith)
        requires
            0 <= b <= a,
            a >= 1,
    {
        if acc >= 3 * a + b {
            assert(acc * acc >= (3 * a + b) * (3 * a + b));
            assert((3 * a + b) * (3 * a + b) > 4 * (a * a + b * b));
        }
    }
    assert(thickness_threshold(p, 0) == 0) by (nonlinear_arith)
        requires
            thickness_threshold(p, 0) == 4 * (0int * 0int) * (a * a + b * b),
    ;
    assert(acc * acc > 0) by (nonlinear_arith)
        requires
            acc >= 1,
    ;
}

/// The search for the parallels of a thick line, as a state machine.
pub struct Search {
    /// The parameters shared by all parallels.
    pub parameters: BresenhamParameters,
    /// The thickness asked for, in pixels.
    pub thickness: int,
    /// The side or sides on which the parallels are sought.
    pub alignment: StrokeAlignment,
    /// The number of parallels found so far.
    pub produced: nat,
    /// The walk on the left of the line.
    pub left: Walker,
    /// The walk on the right of the line.
    pub right: Walker,
}

impl Search {
    /// The search for the parallels of `line` before the first is found.
    pub open spec fn start(line: Line, thickness: int, alignment: StrokeAlignment) -> Search {
        Search {
            parameters: BresenhamParameters::spec_new(shaping_line(line)),
            thickness,
            alignment,
            produced: 0,
            left: Walker::at(line.start),
            right: Walker::at(line.start),
        }
    }

    /// The major extent of the shaping line.
    pub open spec fn major(self) -> int {
        major_of(self.parameters)
    }

    /// The minor extent of the shaping line.
    pub open spec fn minor(self) -> int {
        minor_of(self.parameters)
    }

    /// The thickness that a bundle of `count + 1` parallels has.
    pub open spec fn accumulator_at(self, count: int) -> int {
        bundle_thickness(self.parameters, count)
    }

    /// The thickness that the bundle has with one more parallel.
    pub open spec fn accumulator(self) -> int {
        self.accumulator_at(self.produced as int)
    }

    /// Whether a bundle of `count + 1` parallels is thicker than asked.
    pub open spec fn too_thick_at(self, count: int) -> bool {
        too_thick(self.parameters, self.thickness, count)
    }

    /// The square of the thickness asked for, in the accumulator's units.
    pub open spec fn threshold(self) -> int {
        thickness_threshold(self.parameters, self.thickness)
    }

    /// Whether the bundle is complete: with one more parallel it would be
    /// thicker than asked.
    pub open spec fn exhausted(self) -> bool {
        self.too_thick_at(self.produced as int)
    }

    /// The side of the next parallel.
    ///
    /// The first parallel is the line in the middle, counted to the right.
    /// From there on the sides take turns in a centered stroke, the left
    /// side first; otherwise all parallels lie on the one side.
    pub open spec fn next_side(self) -> Side {
        if self.produced == 0 {
            Side::Right
        } else {
            match self.alignment {
                StrokeAlignment::Center => if self.produced % 2 == 1 {
                    Side::Left
                } else {
                    Side::Right
                },
                StrokeAlignment::Inside => Side::Right,
                StrokeAlignment::Outside => Side::Left,
            }
        }
    }

    /// The next parallel, the side it lies on, and the search after it.
    pub open spec fn step(self) -> (Search, Parallel, Side) {
        let p = self.parameters;
        if self.produced == 0 {
            (
                Search {
                    parameters: p,
                    thickness: self.thickness,
                    alignment: self.alignment,
                    produced: 1,
                    left: self.left,
                    right: self.right,
                },
                self.right.parallel_here(),
                Side::Right,
            )
        } else if self.next_side() == Side::Left {
            let (w, par) = if left_ascends(p) {
                self.left.ascend(p)
            } else {
                self.left.descend(p)
            };
            (
                Search {
                    parameters: p,
                    thickness: self.thickness,
                    alignment: self.alignment,
                    produced: self.produced + 1,
                    left: w,
                    right: self.right,
                },
                par,
                Side::Left,
            )
        } else {
            let (w, par) = if left_ascends(p) {
                self.right.descend(p)
            } else {
                self.right.ascend(p)
            };
            (
                Search {
                    parameters: p,
                    thickness: self.thickness,
                    alignment: self.alignment,
                    produced: self.produced + 1,
                    left: self.left,
                    right: w,
                },
                par,
                Side::Right,
            )
        }
    }

    /// What every search for a supported line and thickness keeps true.
    pub open spec fn inv(self) -> bool {
        &&& shapes_a_line(self.parameters)
        &&& 0 <= self.thickness <= THICKNESS_MAX
        &&& self.produced <= 2 * self.thickness
        &&& self.left.within(self.parameters, self.produced as int)
        &&& self.right.within(self.parameters, self.produced as int)
    }

    /// The number of parallels that the bundle has once the search is
    /// exhausted.
    pub open spec fn total(self) -> nat
        decreases 2 * self.thickness - self.produced,
        when self.inv()
    {
        if self.exhausted() {
            self.produced
        } else {
            proof {
                lemma_search_bounded(self);
                lemma_step_keeps_inv(self);
            }
            self.step().0.total()
        }
    }

}

/// A search that is not exhausted has found fewer parallels than twice the
/// thickness asked for.
pub proof fn lemma_search_bounded(s: Search)
    requires
        s.inv(),
        !s.exhausted(),
    ensures
        s.produced < 2 * s.thickness,
{
    lemma_thin_bundle_is_small(s.parameters, s.thickness, s.produced as int);
}

/// The search for the parallels of a supported line at a supported
/// thickness starts with its invariant in place.
pub proof fn lemma_start_inv(line: Line, thickness: int, alignment: StrokeAlignment)
    requires
        line.in_bounds(),
        0 <= thickness <= THICKNESS_MAX,
    ensures
        Search::start(line, thickness, alignment).inv(),
{
}

/// At a thickness of one the search finds the line in the middle and
/// nothing else.
pub proof fn lemma_hairline_search(line: Line, alignment: StrokeAlignment)
    requires
        line.in_bounds(),
    ensures
        !Search::start(line, 1, alignment).exhausted(),
        Search::start(line, 1, alignment).step().0.exhausted(),
{
    lemma_hairline_bundle(Search::start(line, 1, alignment).parameters, 1);
}

/// A step of a search that is not exhausted keeps the search's invariant,
/// and the parallel it finds starts at most one pixel further out than the
/// walks have gone, with an error in the stepper's range. Only a line with
/// a slope has shortened parallels, and none is shortened by more than one
/// pixel.
pub proof fn lemma_step_keeps_inv(s: Search)
    requires
        s.inv(),
        !s.exhausted(),
    ensures
        s.step().0.inv(),
        s.step().0.produced == s.produced + 1,
        s.step().0.parameters == s.parameters,
        s.step().0.thickness == s.thickness,
        s.step().0.alignment == s.alignment,
        s.step().2 == s.next_side(),
        s.step().1.reduction <= 1,
        s.step().1.reduction == 1 ==> s.parameters.error_step_major > 0,
        -COORD_MAX - s.produced - 1 <= s.step().1.start.x <= COORD_MAX + s.produced + 1,
        -COORD_MAX - s.produced - 1 <= s.step().1.start.y <= COORD_MAX + s.produced + 1,
        -s.parameters.error_threshold < s.step().1.start.error <= s.parameters.error_threshold,
{
    lemma_search_bounded(s);
}

/// Returns the parameters that shape the bundle of `line`: those of the
/// line itself, or of a line to the right if `line` is a single pixel.
pub fn shaping_parameters(line: &Line) -> (p: BresenhamParameters)
    requires
        line.in_bounds(),
    ensures
        p == BresenhamParameters::spec_new(shaping_line(*line)),
        shapes_a_line(p),
{
    let shaping = if line.start.x == line.end.x && line.start.y == line.end.y {
        Line::new(Point::new(0, 0), Point::new(1, 0))
    } else {
        *line
    };
    BresenhamParameters::new(&shaping)
}

/// The walk on one side of a thick line.
#[derive(Copy, Clone, Debug)]
pub struct SideState {
    point: Point,
    parallel_error: i64,
    perpendicular_error: i64,
    pending: bool,
}

impl View for SideState {
    type V = Walker;

    closed spec fn view(&self) -> Walker {
        Walker {
            x: self.point.x as int,
            y: self.point.y as int,
            parallel_error: self.parallel_error as int,
            perpendicular_error: self.perpendicular_error as int,
            pending: self.pending,
        }
    }
}

impl SideState {
    /// Starts the walk at `start`.
    pub fn new(start: Point) -> (s: SideState)
        ensures
            s@ == Walker::at(start),
    {
        SideState { point: start, parallel_error: 0, perpendicular_error: 0, pending: false }
    }

    fn here(&self) -> (b: Bresenham)
        ensures
            b@ == self@.parallel_here().start,
    {
        Bresenham::with_initial_error(self.point, self.parallel_error)
    }

    /// Takes one step on the side that lies against the minor direction
    /// and returns the parallel found: its stepper at its first pixel, and
    /// by how many pixels it is shorter than the line.
    pub fn ascend(&mut self, p: &BresenhamParameters) -> (r: (Bresenham, u64))
        requires
            p.wf(),
            1 <= p.error_threshold,
            old(self)@.within(*p, 2 * THICKNESS_MAX as int),
        ensures
            (final(self)@, Parallel { start: r.0@, reduction: r.1 as nat }) == old(self)@.ascend(
                *p,
            ),
    {
        if self.pending {
            self.pending = false;
            return (self.here(), 0);
        }
        let mx: i32 = p.position_step_major.x;
        let my: i32 = p.position_step_major.y;
        let nx: i32 = p.position_step_minor.x;
        let ny: i32 = p.position_step_minor.y;
        let walked: i64 = self.perpendicular_error + p.error_step_major;
        let shifted: i64 = self.parallel_error + p.error_step_major;
        if walked <= p.error_threshold {
            self.point = Point { x: self.point.x - nx, y: self.point.y - ny };
            self.perpendicular_error = walked;
            (self.here(), 0)
        } else if shifted <= p.error_threshold {
            self.point = Point { x: self.point.x - nx + mx, y: self.point.y - ny + my };
            self.parallel_error = shifted;
            self.perpendicular_error = walked - p.error_step_minor;
            (self.here(), 0)
        } else {
            let extra = Bresenham::with_initial_error(
                Point { x: self.point.x + mx, y: self.point.y + my },
                shifted - p.error_step_minor,
            );
            self.point = Point { x: self.point.x - nx + mx, y: self.point.y - ny + my };
            self.parallel_error = shifted - p.error_step_minor;
            self.perpendicular_error = walked - p.error_step_minor;
            self.pending = true;
            (extra, 1)
        }
    }

    /// Takes one step on the side that lies along the minor direction and
    /// returns the parallel found: its stepper at its first pixel, and by
    /// how many pixels it is shorter than the line.
    pub fn descend(&mut self, p: &BresenhamParameters) -> (r: (Bresenham, u64))
        requires
            p.wf(),
            1 <= p.error_threshold,
            old(self)@.within(*p, 2 * THICKNESS_MAX as int),
        ensures
            (final(self)@, Parallel { start: r.0@, reduction: r.1 as nat }) == old(self)@.descend(
                *p,
            ),
    {
        if self.pending {
            self.pending = false;
            return (self.here(), 0);
        }
        let mx: i32 = p.position_step_major.x;
        let my: i32 = p.position_step_major.y;
        let nx: i32 = p.position_step_minor.x;
        let ny: i32 = p.position_step_minor.y;
        let walked: i64 = self.perpendicular_error - p.error_step_major;
        let shifted: i64 = self.parallel_error - p.error_step_major;
        if walked > -p.error_threshold {
            self.point = Point { x: self.point.x + nx, y: self.point.y + ny };
            self.perpendicular_error = walked;
            (self.here(), 0)
        } else if shifted > -p.error_threshold {
            self.point = Point { x: self.point.x + nx - mx, y: self.point.y + ny - my };
            self.parallel_error = shifted;
            self.perpendicular_error = walked + p.error_step_minor;
            (self.here(), 0)
        } else {
            let extra = Bresenham::with_initial_error(
                Point { x: self.point.x + nx, y: self.point.y + ny },
                self.parallel_error,
            );
            self.point = Point { x: self.point.x + nx - mx, y: self.point.y + ny - my };
            self.parallel_error = shifted + p.error_step_minor;
            self.perpendicular_error = walked + p.error_step_minor;
            self.pending = true;
            (extra, 1)
        }
    }
}

/// Iterator over the parallels of a thick line.
///
/// Each item is the stepper of one parallel at its first pixel, the number
/// of pixels by which the parallel is shorter than the line, and the side
/// on which it lies.
#[derive(Copy, Clone, Debug)]
pub struct ParallelsIterator {
    parallel_parameters: BresenhamParameters,
    thickness: i32,
    alignment: StrokeAlignment,
    thickness_accumulator: i64,
    thickness_threshold: i128,
    left: SideState,
    right: SideState,
    left_ascends: bool,
    produced: u64,
}

impl View for ParallelsIterator {
    type V = Search;

    closed spec fn view(&self) -> Search {
        Search {
            parameters: self.parallel_parameters,
            thickness: self.thickness as int,
            alignment: self.alignment,
            produced: self.produced as nat,
            left: self.left@,
            right: self.right@,
        }
    }
}

impl ParallelsIterator {
    /// Whether the iterator's numbers are those of the search it stands for.
    pub closed spec fn wf(self) -> bool {
        &&& self@.inv()
        &&& self.thickness_accumulator == self@.accumulator()
        &&& self.thickness_threshold == self@.threshold()
        &&& self.left_ascends == left_ascends(self.parallel_parameters)
    }

    /// Starts the search for the parallels of `line` at the given thickness,
    /// for a stroke centered on the line.
    pub fn new(line: &Line, thickness: i32) -> (it: ParallelsIterator)
        requires
            line.in_bounds(),
            0 <= thickness <= THICKNESS_MAX,
        ensures
            it.wf(),
            it@ == Search::start(*line, thickness as int, StrokeAlignment::Center),
    {
        Self::with_alignment(line, thickness, StrokeAlignment::Center)
    }

    /// Starts the search for the parallels of `line` at the given thickness
    /// and alignment.
    pub fn with_alignment(line: &Line, thickness: i32, alignment: StrokeAlignment) -> (it:
        ParallelsIterator)
        requires
            line.in_bounds(),
            0 <= thickness <= THICKNESS_MAX,
        ensures
            it.wf(),
            it@ == Search::start(*line, thickness as int, alignment),
    {
        let p = shaping_parameters(line);
        let major: i64 = p.error_threshold;
        let minor: i64 = p.error_step_major / 2;
        let t: i128 = thickness as i128;
        proof {
            lemma_product_bound(t as int, t as int, THICKNESS_MAX as int, THICKNESS_MAX as int);
            lemma_product_bound(major as int, major as int, 2 * COORD_MAX, 2 * COORD_MAX);
            lemma_product_bound(minor as int, minor as int, 2 * COORD_MAX, 2 * COORD_MAX);
            lemma_product_bound(
                4 * (t * t),
                major * major + minor * minor,
                4 * (THICKNESS_MAX * THICKNESS_MAX),
                2 * ((2 * COORD_MAX) * (2 * COORD_MAX)),
            );
            assert(0 * (2 * major) == 0);
        }
        let squares: i128 = major as i128 * major as i128 + minor as i128 * minor as i128;
        let left_ascends: bool = p.position_step_major.y == -p.position_step_minor.x
            && p.position_step_major.x == p.position_step_minor.y;
        ParallelsIterator {
            parallel_parameters: p,
            thickness,
            alignment,
            thickness_accumulator: major + minor,
            thickness_threshold: 4 * (t * t) * squares,
            left: SideState::new(line.start),
            right: SideState::new(line.start),
            left_ascends,
            produced: 0,
        }
    }

    /// Returns the Bresenham parameters for the parallel lines.
    pub fn parameters(&self) -> (p: BresenhamParameters)
        ensures
            p == self@.parameters,
    {
        self.parallel_parameters
    }

    /// Returns the next parallel of the bundle, or `None` once the bundle
    /// is as thick as asked.
    pub fn next(&mut self) -> (r: Option<(Bresenham, u64, Side)>)
        requires
            old(self).wf(),
        ensures
            final(self).wf(),
            old(self)@.exhausted() ==> r is None && *final(self) == *old(self),
            !old(self)@.exhausted() ==> match r {
                Some((stepper, reduction, side)) => (
                    final(self)@,
                    Parallel { start: stepper@, reduction: reduction as nat },
                    side,
                ) == old(self)@.step(),
                None => false,
            },
    {
        let acc: i128 = self.thickness_accumulator as i128;
        proof {
            let s = self@;
            lemma_product_bound(s.produced as int, 2 * s.major(), 0x2000_0000, 0x4000_0000);
            assert(0 <= s.minor() <= s.major());
            assert(0 <= acc <= 0x1000_0000_0000_0000);
            lemma_product_bound(
                acc as int,
                acc as int,
                0x1000_0000_0000_0000,
                0x1000_0000_0000_0000,
            );
        }
        if acc * acc > self.thickness_threshold {
            return None;
        }
        proof {
            let s = self@;
            lemma_search_bounded(s);
            lemma_step_keeps_inv(s);
            assert((s.produced + 1) * (2 * s.major()) == s.produced * (2 * s.major()) + 2
                * s.major()) by (nonlinear_arith);
        }
        let p = self.parallel_parameters;
        let on_left: bool = match self.alignment {
            StrokeAlignment::Center => self.produced % 2 == 1,
            StrokeAlignment::Inside => false,
            StrokeAlignment::Outside => true,
        };
        let item = if self.produced == 0 {
            (self.right.here(), 0u64, Side::Right)
        } else if on_left {
            let (b, reduction) = if self.left_ascends {
                self.left.ascend(&p)
            } else {
                self.left.descend(&p)
            };
            (b, reduction, Side::Left)
        } else {
            let (b, reduction) = if self.left_ascends {
                self.right.descend(&p)
            } else {
                self.right.ascend(&p)
            };
            (b, reduction, Side::Right)
        };
        self.produced = self.produced + 1;
        self.thickness_accumulator = self.thickness_accumulator + 2 * p.error_threshold;
        Some(item)
    }
}

/// A search that has found fewer parallels than the thickness asks for is
/// not exhausted.
pub proof fn lemma_search_goes_on(s: Search)
    requires
        s.inv(),
        s.produced < s.thickness,
    ensures
        !s.exhausted(),
{
    lemma_small_bundle_is_thin(s.parameters, s.thickness, s.produced as int);
}

/// The bundle that a search ends with has at least as many parallels as
/// the search has found, at least as many as the thickness asks for, and at
/// most twice as many.
pub proof fn lemma_total_bounds(s: Search)
    requires
        s.inv(),
    ensures
        s.produced <= s.total(),
        s.thickness <= s.total() <= 2 * s.thickness,
    decreases 2 * s.thickness - s.produced,
{
    if s.exhausted() {
        if s.produced < s.thickness {
            lemma_search_goes_on(s);
        }
    } else {
        lemma_search_bounded(s);
        lemma_step_keeps_inv(s);
        lemma_total_bounds(s.step().0);
    }
}

/// A line stroked at some thickness has at least as many parallels as the
/// thickness counts pixels, so that the stroke is nowhere thinner than
/// asked, and at most twice as many.
pub proof fn lemma_parallels_of_line(line: Line, thickness: int, alignment: StrokeAlignment)
    requires
        line.in_bounds(),
        0 <= thickness <= THICKNESS_MAX,
    ensures
        thickness <= Search::start(line, thickness, alignment).total() <= 2 * thickness,
{
    lemma_start_inv(line, thickness, alignment);
    lemma_total_bounds(Search::start(line, thickness, alignment));
}

/// The bundle that a search ends with is the largest that is not thicker
/// than asked: one more parallel would make it too thick, and its last
/// parallel did not.
pub proof fn lemma_total_is_largest(s: Search)
    requires
        s.inv(),
        s.produced == 0 || !s.too_thick_at(s.produced - 1),
    ensures
        s.too_thick_at(s.total() as int),
        s.total() == 0 || !s.too_thick_at(s.total() - 1),
    decreases 2 * s.thickness - s.produced,
{
    if !s.exhausted() {
        lemma_search_bounded(s);
        lemma_step_keeps_inv(s);
        let next = s.step().0;
        assert(next.threshold() == s.threshold());
        assert(next.too_thick_at(s.produced as int) == s.too_thick_at(s.produced as int));
        lemma_total_is_largest(next);
        assert(next.too_thick_at(s.total() as int) == s.too_thick_at(s.total() as int));
        assert(next.too_thick_at(s.total() - 1) == s.too_thick_at(s.total() - 1));
    }
}

} // verus!
