//! The Bresenham line stepper.
//!
//! A stepper walks from pixel to pixel along a line. On every step it moves
//! one pixel along the line's major axis, the axis with the larger extent,
//! and now and then one pixel along the minor axis, so that the pixels stay
//! as close to the true line as the grid allows. Which steps take the minor
//! move is decided by an integer error term alone.

use vstd::prelude::*;
use vstd::arithmetic::div_mod::lemma_fundamental_div_mod_converse;
use crate::geometry::{spec_abs, spec_max, spec_min, Point};
use crate::line::Line;

verus! {

/// What a line contributes to its stepper: the step vectors and the three
/// constants that drive the error term.
#[derive(Copy, Clone, Debug, PartialEq, Eq, Structural, Hash)]
pub struct BresenhamParameters {
    /// Error threshold.
    ///
    /// If the accumulated error exceeds the threshold a minor move is made.
    /// It equals the line's extent along its major axis.
    pub error_threshold: i64,
    /// Added to the error on every step: twice the minor extent.
    pub error_step_major: i64,
    /// Taken off the error on every minor move: twice the major extent.
    pub error_step_minor: i64,
    /// Change in position along the major axis, made on every step.
    pub position_step_major: Point,
    /// Change in position along the minor axis, made on a minor move.
    pub position_step_minor: Point,
}

impl Line {
    /// The larger of the line's two extents.
    pub open spec fn major_delta(self) -> int {
        spec_max(spec_abs(self.dx()), spec_abs(self.dy()))
    }

    /// The smaller of the line's two extents.
    pub open spec fn minor_delta(self) -> int {
        spec_min(spec_abs(self.dx()), spec_abs(self.dy()))
    }

    /// Whether the stepper advances along y on every step. A line at 45
    /// degrees counts as y major.
    pub open spec fn is_y_major(self) -> bool {
        spec_abs(self.dy()) >= spec_abs(self.dx())
    }

    /// The direction of travel along x: `-1` to the left, else `1`.
    pub open spec fn direction_x(self) -> int {
        if self.dx() >= 0 {
            1
        } else {
            -1
        }
    }

    /// The direction of travel along y: `-1` upwards, else `1`.
    pub open spec fn direction_y(self) -> int {
        if self.dy() >= 0 {
            1
        } else {
            -1
        }
    }

    /// The number of pixels of the line: one more than its major extent.
    pub open spec fn spec_major_length(self) -> int {
        self.major_delta() + 1
    }
}

/// Returns the number of pixels on `line`, both ends included.
pub fn major_length(line: &Line) -> (n: u64)
    ensures
        n == line.spec_major_length(),
        n == spec_max(spec_abs(line.dx()), spec_abs(line.dy())) + 1,
        n >= 1,
{
    let dx: i64 = line.end.x as i64 - line.start.x as i64;
    let dy: i64 = line.end.y as i64 - line.start.y as i64;
    let ax: i64 = if dx < 0 { -dx } else { dx };
    let ay: i64 = if dy < 0 { -dy } else { dy };
    let m: i64 = if ax > ay { ax } else { ay };
    (m + 1) as u64
}

impl BresenhamParameters {
    /// The parameters of the stepper that walks `line` from start to end.
    ///
    /// A line of a single pixel has nowhere to go: all its steps are zero.
    pub open spec fn spec_new(line: Line) -> BresenhamParameters {
        if line.start == line.end {
            BresenhamParameters {
                error_threshold: 0,
                error_step_major: 0,
                error_step_minor: 0,
                position_step_major: Point { x: 0, y: 0 },
                position_step_minor: Point { x: 0, y: 0 },
            }
        } else if line.is_y_major() {
            BresenhamParameters {
                error_threshold: line.major_delta() as i64,
                error_step_major: (2 * line.minor_delta()) as i64,
                error_step_minor: (2 * line.major_delta()) as i64,
                position_step_major: Point { x: 0, y: line.direction_y() as i32 },
                position_step_minor: Point { x: line.direction_x() as i32, y: 0 },
            }
        } else {
            BresenhamParameters {
                error_threshold: line.major_delta() as i64,
                error_step_major: (2 * line.minor_delta()) as i64,
                error_step_minor: (2 * line.major_delta()) as i64,
                position_step_major: Point { x: line.direction_x() as i32, y: 0 },
                position_step_minor: Point { x: 0, y: line.direction_y() as i32 },
            }
        }
    }

    /// Whether `p` is one of the four unit steps along an axis.
    pub open spec fn is_unit_step(p: Point) -> bool {
        (spec_abs(p.x as int) == 1 && p.y == 0) || (p.x == 0 && spec_abs(p.y as int) == 1)
    }

    /// Whether the parameters are those of some line.
    ///
    /// The error constants are tied to each other as those of a line are, and
    /// the two steps are unit steps along different axes, or both zero for a
    /// line of a single pixel.
    pub open spec fn wf(self) -> bool {
        &&& 0 <= self.error_threshold <= 0xffff_ffff
        &&& self.error_step_minor == 2 * self.error_threshold
        &&& 0 <= self.error_step_major <= self.error_step_minor
        &&& if self.error_threshold == 0 {
            self.position_step_major == (Point { x: 0, y: 0 }) && self.position_step_minor == (
            Point { x: 0, y: 0 })
        } else {
            &&& Self::is_unit_step(self.position_step_major)
            &&& Self::is_unit_step(self.position_step_minor)
            &&& (self.position_step_major.x == 0) != (self.position_step_minor.x == 0)
        }
    }

    /// Creates a new bresenham parameters object.
    pub fn new(line: &Line) -> (p: BresenhamParameters)
        ensures
            p == Self::spec_new(*line),
            p.wf(),
            p.error_threshold == line.major_delta(),
            p.error_step_major == 2 * line.minor_delta(),
    {
        let dx: i64 = line.end.x as i64 - line.start.x as i64;
        let dy: i64 = line.end.y as i64 - line.start.y as i64;
        let dir_x: i32 = if dx >= 0 { 1 } else { -1 };
        let dir_y: i32 = if dy >= 0 { 1 } else { -1 };
        let ax: i64 = if dx < 0 { -dx } else { dx };
        let ay: i64 = if dy < 0 { -dy } else { dy };
        if ax == 0 && ay == 0 {
            BresenhamParameters {
                error_threshold: 0,
                error_step_major: 0,
                error_step_minor: 0,
                position_step_major: Point { x: 0, y: 0 },
                position_step_minor: Point { x: 0, y: 0 },
            }
        } else if ay >= ax {
            BresenhamParameters {
                error_threshold: ay,
                error_step_major: 2 * ax,
                error_step_minor: 2 * ay,
                position_step_major: Point { x: 0, y: dir_y },
                position_step_minor: Point { x: dir_x, y: 0 },
            }
        } else {
            BresenhamParameters {
                error_threshold: ax,
                error_step_major: 2 * ay,
                error_step_minor: 2 * ax,
                position_step_major: Point { x: dir_x, y: 0 },
                position_step_minor: Point { x: 0, y: dir_y },
            }
        }
    }
}

/// The mathematical state of a stepper: a position on the unbounded grid and
/// the accumulated error.
pub struct Cursor {
    /// Horizontal position.
    pub x: int,
    /// Vertical position.
    pub y: int,
    /// Accumulated error, judged against the threshold before each step.
    pub error: int,
}

impl Cursor {
    /// Whether the next step begins with a minor move.
    pub open spec fn takes_minor(self, p: BresenhamParameters) -> bool {
        self.error > p.error_threshold
    }

    /// The x coordinate of the pixel that the next step reports.
    pub open spec fn current_x(self, p: BresenhamParameters) -> int {
        if self.takes_minor(p) {
            self.x + p.position_step_minor.x
        } else {
            self.x
        }
    }

    /// The y coordinate of the pixel that the next step reports.
    pub open spec fn current_y(self, p: BresenhamParameters) -> int {
        if self.takes_minor(p) {
            self.y + p.position_step_minor.y
        } else {
            self.y
        }
    }

    /// The error at the pixel that the next step reports, the minor move
    /// accounted for.
    pub open spec fn settled_error(self, p: BresenhamParameters) -> int {
        if self.takes_minor(p) {
            self.error - p.error_step_minor
        } else {
            self.error
        }
    }

    /// The state after one step: the reported pixel moved on along the major
    /// axis, and the error grown by the major error step.
    pub open spec fn step(self, p: BresenhamParameters) -> Cursor {
        Cursor {
            x: self.current_x(p) + p.position_step_major.x,
            y: self.current_y(p) + p.position_step_major.y,
            error: self.settled_error(p) + p.error_step_major,
        }
    }

    /// The state after `n` steps.
    pub open spec fn advance(self, p: BresenhamParameters, n: nat) -> Cursor
        decreases n,
    {
        if n == 0 {
            self
        } else {
            self.advance(p, (n - 1) as nat).step(p)
        }
    }

    /// Whether the error is one that a stepper on a line can hold: above the
    /// negated threshold, and no more than one major error step past the
    /// threshold.
    pub open spec fn error_in_range(self, p: BresenhamParameters) -> bool {
        if p.error_threshold == 0 {
            self.error == 0
        } else {
            -p.error_threshold < self.error <= p.error_threshold + p.error_step_major
        }
    }

    /// The number of minor moves among the first `n + 1` reported pixels,
    /// in closed form.
    pub open spec fn minor_moves(self, p: BresenhamParameters, n: nat) -> int {
        if p.error_threshold == 0 {
            0
        } else {
            (self.error + n * p.error_step_major + p.error_threshold - 1) / (2
                * p.error_threshold)
        }
    }
}

/// Implementation of the bresenham algorithm.
#[derive(Copy, Clone, Debug, PartialEq, Eq, Structural, Hash)]
pub struct Bresenham {
    /// Current point.
    pub point: Point,
    /// Error accumulator.
    pub error: i64,
}

impl View for Bresenham {
    type V = Cursor;

    open spec fn view(&self) -> Cursor {
        Cursor { x: self.point.x as int, y: self.point.y as int, error: self.error as int }
    }
}

impl Bresenham {
    /// Creates a new bresenham object.
    pub fn new(start_point: Point) -> (b: Bresenham)
        ensures
            b == (Bresenham { point: start_point, error: 0 }),
    {
        Bresenham { point: start_point, error: 0 }
    }

    /// Creates a new bresenham object with the given initial error.
    ///
    /// This resumes a walk in its middle: the error is the one that another
    /// stepper had reached at `start_point`.
    pub fn with_initial_error(start_point: Point, initial_error: i64) -> (b: Bresenham)
        ensures
            b == (Bresenham { point: start_point, error: initial_error }),
    {
        Bresenham { point: start_point, error: initial_error }
    }

    /// Whether the pixel that the next step reports is representable.
    pub open spec fn can_peek(self, p: BresenhamParameters) -> bool {
        &&& i32::MIN <= self@.current_x(p) <= i32::MAX
        &&& i32::MIN <= self@.current_y(p) <= i32::MAX
    }

    /// Whether the state after the next step is representable.
    pub open spec fn can_step(self, p: BresenhamParameters) -> bool {
        &&& self.can_peek(p)
        &&& i32::MIN <= self@.step(p).x <= i32::MAX
        &&& i32::MIN <= self@.step(p).y <= i32::MAX
        &&& i64::MIN <= self@.settled_error(p) <= i64::MAX
        &&& i64::MIN <= self@.step(p).error <= i64::MAX
    }

    /// Returns the pixel that the next step will report, without moving.
    pub fn peek(&self, parameters: &BresenhamParameters) -> (point: Point)
        requires
            self.can_peek(*parameters),
        ensures
            point.x == self@.current_x(*parameters),
            point.y == self@.current_y(*parameters),
    {
        if self.error > parameters.error_threshold {
            Point {
                x: self.point.x + parameters.position_step_minor.x,
                y: self.point.y + parameters.position_step_minor.y,
            }
        } else {
            self.point
        }
    }

    /// Returns the next point on the line.
    ///
    /// If the error has passed the threshold, the stepper first moves one
    /// pixel along the minor axis and takes the minor error step off. The
    /// pixel reached is returned. The stepper then moves one pixel along the
    /// major axis and adds the major error step.
    pub fn next(&mut self, parameters: &BresenhamParameters) -> (point: Point)
        requires
            old(self).can_step(*parameters),
        ensures
            point.x == old(self)@.current_x(*parameters),
            point.y == old(self)@.current_y(*parameters),
            final(self)@ == old(self)@.step(*parameters),
            final(self).point.x == point.x + parameters.position_step_major.x,
            final(self).point.y == point.y + parameters.position_step_major.y,
    {
        if self.error > parameters.error_threshold {
            self.point = Point {
                x: self.point.x + parameters.position_step_minor.x,
                y: self.point.y + parameters.position_step_minor.y,
            };
            self.error = self.error - parameters.error_step_minor;
        }
        let ret = self.point;
        self.point = Point {
            x: self.point.x + parameters.position_step_major.x,
            y: self.point.y + parameters.position_step_major.y,
        };
        self.error = self.error + parameters.error_step_major;
        ret
    }
}

/// The stepper's closed form.
///
/// Let a stepper start with an error in range. Then the pixel reported by
/// step number `n + 1` lies `n` major steps and `minor_moves(n)` minor steps
/// from the start, and the error settled there is the start error plus `n`
/// major error steps less `minor_moves(n)` minor error steps, which lies
/// above the negated threshold and not above the threshold.
pub proof fn lemma_closed_form(c: Cursor, p: BresenhamParameters, n: nat)
    requires
        p.wf(),
        c.error_in_range(p),
    ensures
        c.advance(p, n).error_in_range(p),
        c.advance(p, n).current_x(p) == c.x + n * p.position_step_major.x + c.minor_moves(p, n)
            * p.position_step_minor.x,
        c.advance(p, n).current_y(p) == c.y + n * p.position_step_major.y + c.minor_moves(p, n)
            * p.position_step_minor.y,
        c.advance(p, n).settled_error(p) == c.error + n * p.error_step_major - c.minor_moves(
            p,
            n,
        ) * p.error_step_minor,
        p.error_threshold > 0 ==> -p.error_threshold < c.advance(p, n).settled_error(p)
            <= p.error_threshold,
        0 <= c.minor_moves(p, n),
    decreases n,
{
    let t = p.error_threshold as int;
    let s = p.error_step_major as int;
    if t == 0 {
        if n > 0 {
            lemma_closed_form(c, p, (n - 1) as nat);
        }
        assert(n * 0 == 0) by (nonlinear_arith);
        assert(0 * 0 == 0int);
    } else {
        let m = c.minor_moves(p, n);
        if n == 0 {
            let r = c.settled_error(p) + t - 1;
            let q: int = if c.takes_minor(p) { 1 } else { 0 };
            assert(c.error + 0 * s + t - 1 == q * (2 * t) + r) by (nonlinear_arith)
                requires
                    r == c.error - q * (2 * t) + t - 1,
            ;
            lemma_fundamental_div_mod_converse(c.error + 0 * s + t - 1, 2 * t, q, r);
            assert(m == q);
            assert(0 * p.position_step_major.x == 0 && 0 * p.position_step_major.y == 0);
            assert(q * p.position_step_minor.x == if q == 1 { p.position_step_minor.x as int } else { 0 });
            assert(q * p.position_step_minor.y == if q == 1 { p.position_step_minor.y as int } else { 0 });
            assert(q * p.error_step_minor == if q == 1 { p.error_step_minor as int } else { 0 });
        } else {
            let k = (n - 1) as nat;
            lemma_closed_form(c, p, k);
            let prev = c.advance(p, k);
            let cur = c.advance(p, n);
            assert(cur == prev.step(p));
            let mk = c.minor_moves(p, k);
            let e = prev.settled_error(p);
            let q: int = if cur.takes_minor(p) { mk + 1 } else { mk };
            let r = cur.settled_error(p) + t - 1;
            assert(cur.error == e + s);
            assert(n * s == k * s + s) by (nonlinear_arith)
                requires
                    n == k + 1,
            ;
            let d = q - mk;
            assert(d * (2 * t) == if d == 1 { 2 * t } else { 0 }) by (nonlinear_arith)
                requires
                    d == 0 || d == 1,
            ;
            assert(mk * p.error_step_minor == mk * (2 * t));
            assert(c.error + n * s + t - 1 == q * (2 * t) + r) by (nonlinear_arith)
                requires
                    r == e + s - d * (2 * t) + t - 1,
                    d == q - mk,
                    e == c.error + k * s - mk * (2 * t),
                    n * s == k * s + s,
            ;
            lemma_fundamental_div_mod_converse(c.error + n * s + t - 1, 2 * t, q, r);
            assert(m == q);
            let mx = p.position_step_major.x as int;
            let my = p.position_step_major.y as int;
            let nx = p.position_step_minor.x as int;
            let ny = p.position_step_minor.y as int;
            let em = p.error_step_minor as int;
            assert(n * mx == k * mx + mx && n * my == k * my + my) by (nonlinear_arith)
                requires
                    n == k + 1,
            ;
            assert((mk + 1) * nx == mk * nx + nx && (mk + 1) * ny == mk * ny + ny && (mk + 1) * em
                == mk * em + em) by (nonlinear_arith);
        }
    }
}

} // verus!
