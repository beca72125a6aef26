//! The pixels of a line, one by one.

use vstd::prelude::*;
use vstd::arithmetic::div_mod::lemma_fundamental_div_mod_converse;
use crate::bresenham::{lemma_closed_form, major_length, Bresenham, BresenhamParameters, Cursor};
use crate::geometry::{spec_abs, spec_max, spec_min, Point};
use crate::line::Line;

verus! {

impl Line {
    /// The stepper state from which the line is walked: at its start, with no error.
    pub open spec fn origin(self) -> Cursor {
        Cursor { x: self.start.x as int, y: self.start.y as int, error: 0 }
    }

    /// How far pixel number `k` lies from the start along the minor axis:
    /// `k · minor / major`, rounded to the nearest integer, halves down.
    pub open spec fn minor_offset(self, k: nat) -> int {
        self.origin().minor_moves(BresenhamParameters::spec_new(self), k)
    }

    /// The x coordinate of pixel number `k` of the line, counted from `0` at the start.
    pub open spec fn pixel_x(self, k: nat) -> int {
        let p = BresenhamParameters::spec_new(self);
        self.start.x + k * p.position_step_major.x + self.minor_offset(k)
            * p.position_step_minor.x
    }

    /// The y coordinate of pixel number `k` of the line, counted from `0` at the start.
    pub open spec fn pixel_y(self, k: nat) -> int {
        let p = BresenhamParameters::spec_new(self);
        self.start.y + k * p.position_step_major.y + self.minor_offset(k)
            * p.position_step_minor.y
    }

    /// Pixel number `k` of the line.
    pub open spec fn spec_pixel(self, k: nat) -> Point {
        Point { x: self.pixel_x(k) as i32, y: self.pixel_y(k) as i32 }
    }

    /// All pixels of the line in the order of the walk.
    pub open spec fn spec_pixels(self) -> Seq<Point> {
        Seq::new(self.spec_major_length() as nat, |k: int| self.spec_pixel(k as nat))
    }
}

/// The minor offset in terms of the line's extents: for a line of more
/// than one pixel it is `(2 · k · minor + major − 1) / (2 · major)`, rounded
/// down.
pub proof fn lemma_minor_offset_formula(line: Line, k: nat)
    requires
        line.start != line.end,
    ensures
        line.minor_offset(k) == (2 * k * line.minor_delta() + line.major_delta() - 1) / (2
            * line.major_delta()),
{
    let m = line.minor_delta();
    assert(k * (2 * m) == 2 * k * m) by (nonlinear_arith);
}

/// The minor offset never decreases along the line, and grows by at most one
/// from pixel to pixel.
pub proof fn lemma_minor_offset_step(line: Line, k: nat)
    ensures
        line.minor_offset(k) <= line.minor_offset(k + 1) <= line.minor_offset(k) + 1,
        0 <= line.minor_offset(k),
{
    let p = BresenhamParameters::spec_new(line);
    let c = line.origin();
    lemma_closed_form(c, p, k);
    lemma_closed_form(c, p, k + 1);
    let t = p.error_threshold as int;
    if t > 0 {
        let s = p.error_step_major as int;
        let a = line.minor_offset(k);
        let b = line.minor_offset(k + 1);
        let ea = c.advance(p, k).settled_error(p);
        let eb = c.advance(p, k + 1).settled_error(p);
        assert((k + 1) * s == k * s + s) by (nonlinear_arith);
        assert(a * (2 * t) == a * p.error_step_minor);
        assert(b * (2 * t) == b * p.error_step_minor);
        assert(a <= b <= a + 1) by (nonlinear_arith)
            requires
                t > 0,
                0 <= s <= 2 * t,
                -t < ea <= t,
                -t < eb <= t,
                eb - ea == s - (b * (2 * t) - a * (2 * t)),
        ;
    }
}

/// The minor offset is zero at the start, the minor extent at the end, and
/// between the two in between.
pub proof fn lemma_minor_offset_bounds(line: Line, k: nat)
    requires
        k <= line.major_delta(),
    ensures
        0 <= line.minor_offset(k) <= line.minor_delta(),
        line.minor_offset(0) == 0,
        line.minor_offset(line.major_delta() as nat) == line.minor_delta(),
    decreases line.major_delta() - k,
{
    let p = BresenhamParameters::spec_new(line);
    let t = line.major_delta();
    let m = line.minor_delta();
    if t > 0 {
        assert(p.error_threshold == t && p.error_step_major == 2 * m);
        assert(0 * (2 * m) == 0);
        lemma_fundamental_div_mod_converse(0 + 0 * (2 * m) + t - 1, 2 * t, 0, t - 1);
        assert(t * (2 * m) + t - 1 == m * (2 * t) + (t - 1)) by (nonlinear_arith);
        lemma_fundamental_div_mod_converse(0 + t * (2 * m) + t - 1, 2 * t, m, t - 1);
        if k < t {
            lemma_minor_offset_bounds(line, k + 1);
            lemma_minor_offset_step(line, k);
        }
    }
}

/// The pixels of a line start at its start and end at its end.
pub proof fn lemma_pixels_span_line(line: Line)
    ensures
        line.spec_pixel(0) == line.start,
        line.spec_pixel(line.major_delta() as nat) == line.end,
        line.spec_pixels().len() == spec_max(spec_abs(line.dx()), spec_abs(line.dy())) + 1,
{
    let p = BresenhamParameters::spec_new(line);
    let t = line.major_delta();
    let m = line.minor_delta();
    lemma_minor_offset_bounds(line, 0);
    assert(0 * p.position_step_major.x == 0 && 0 * p.position_step_major.y == 0);
    assert(0 * p.position_step_minor.x == 0 && 0 * p.position_step_minor.y == 0);
    if t > 0 {
        let mx = p.position_step_major.x as int;
        let my = p.position_step_major.y as int;
        let nx = p.position_step_minor.x as int;
        let ny = p.position_step_minor.y as int;
        lemma_times_unit(t, mx);
        lemma_times_unit(t, my);
        lemma_times_unit(m, nx);
        lemma_times_unit(m, ny);
    } else {
        assert(line.start == line.end);
    }
}

/// A product with `-1`, `0` or `1`.
pub proof fn lemma_times_unit(a: int, u: int)
    by (nonlinear_arith)
    requires
        -1 <= u <= 1,
    ensures
        a * u == if u == 1 {
            a
        } else if u == 0 {
            0
        } else {
            -a
        },
{
}

/// From one pixel of a line to the next, the major coordinate changes by
/// exactly one in the line's direction, and the minor coordinate by nothing or
/// by one in the line's direction.
pub proof fn lemma_pixel_step(line: Line, k: nat)
    requires
        k < line.major_delta(),
    ensures
        line.is_y_major() ==> line.pixel_y(k + 1) == line.pixel_y(k) + line.direction_y() && (
        line.pixel_x(k + 1) == line.pixel_x(k) || line.pixel_x(k + 1) == line.pixel_x(k)
            + line.direction_x()),
        !line.is_y_major() ==> line.pixel_x(k + 1) == line.pixel_x(k) + line.direction_x() && (
        line.pixel_y(k + 1) == line.pixel_y(k) || line.pixel_y(k + 1) == line.pixel_y(k)
            + line.direction_y()),
{
    let p = BresenhamParameters::spec_new(line);
    lemma_minor_offset_step(line, k);
    let a = line.minor_offset(k);
    let b = line.minor_offset(k + 1);
    let mx = p.position_step_major.x as int;
    let my = p.position_step_major.y as int;
    let nx = p.position_step_minor.x as int;
    let ny = p.position_step_minor.y as int;
    lemma_times_unit(k as int, mx);
    lemma_times_unit(k as int, my);
    lemma_times_unit((k + 1) as int, mx);
    lemma_times_unit((k + 1) as int, my);
    lemma_times_unit(a, nx);
    lemma_times_unit(a, ny);
    lemma_times_unit(b, nx);
    lemma_times_unit(b, ny);
}

/// Every pixel of a line lies in the line's bounding box.
pub proof fn lemma_pixel_in_box(line: Line, k: nat)
    requires
        k <= line.major_delta(),
    ensures
        spec_min(line.start.x as int, line.end.x as int) <= line.pixel_x(k) <= spec_max(
            line.start.x as int,
            line.end.x as int,
        ),
        spec_min(line.start.y as int, line.end.y as int) <= line.pixel_y(k) <= spec_max(
            line.start.y as int,
            line.end.y as int,
        ),
{
    let p = BresenhamParameters::spec_new(line);
    lemma_minor_offset_bounds(line, k);
    let a = line.minor_offset(k);
    lemma_times_unit(k as int, p.position_step_major.x as int);
    lemma_times_unit(k as int, p.position_step_major.y as int);
    lemma_times_unit(a, p.position_step_minor.x as int);
    lemma_times_unit(a, p.position_step_minor.y as int);
}

/// Iterator over all points on the line.
///
/// The pixels come in the order of the walk from the line's start to its
/// end, both included.
#[derive(Copy, Clone, Debug)]
pub struct Points {
    line: Line,
    parameters: BresenhamParameters,
    bresenham: Bresenham,
    index: u64,
    length: u64,
}

impl Points {
    /// The line whose pixels are produced.
    pub closed spec fn line(self) -> Line {
        self.line
    }

    /// The number of pixels produced so far.
    pub closed spec fn produced(self) -> nat {
        self.index as nat
    }

    /// Whether the iterator's stepper stands where its count says.
    pub closed spec fn wf(self) -> bool {
        &&& self.parameters == BresenhamParameters::spec_new(self.line)
        &&& self.length == self.line.spec_major_length()
        &&& self.index <= self.length
        &&& self.bresenham@ == self.line.origin().advance(
            self.parameters,
            spec_min(self.index as int, self.length - 1) as nat,
        )
    }

    /// The pixels still to come.
    pub open spec fn spec_remaining(self) -> Seq<Point> {
        self.line().spec_pixels().skip(self.produced() as int)
    }

    /// Creates the iterator over the pixels of `line`.
    pub fn new(line: &Line) -> (it: Points)
        ensures
            it.wf(),
            it.line() == *line,
            it.produced() == 0,
    {
        let parameters = BresenhamParameters::new(line);
        Points {
            line: *line,
            parameters,
            bresenham: Bresenham::new(line.start),
            index: 0,
            length: major_length(line),
        }
    }

    /// Returns the next pixel of the line, or `None` after the last one.
    pub fn next(&mut self) -> (r: Option<Point>)
        requires
            old(self).wf(),
        ensures
            final(self).wf(),
            final(self).line() == old(self).line(),
            old(self).produced() < old(self).line().spec_major_length() ==> r == Some(
                old(self).line().spec_pixel(old(self).produced()),
            ) && final(self).produced() == old(self).produced() + 1,
            old(self).produced() >= old(self).line().spec_major_length() ==> r is None
                && *final(self) == *old(self),
            match r {
                Some(point) => old(self).spec_remaining().len() > 0 && point == old(
                    self,
                ).spec_remaining()[0] && final(self).spec_remaining() == old(
                    self,
                ).spec_remaining().drop_first(),
                None => old(self).spec_remaining().len() == 0,
            },
    {
        if self.index >= self.length {
            return None;
        }
        proof {
            let all = self.line.spec_pixels();
            let i = self.index as int;
            assert(all.skip(i).drop_first() == all.skip(i + 1));
        }
        let ghost k = self.index as nat;
        proof {
            let line = self.line;
            let p = self.parameters;
            lemma_closed_form(line.origin(), p, k);
            lemma_pixel_in_box(line, k);
            lemma_minor_offset_bounds(line, k);
            if k < line.major_delta() {
                lemma_pixel_in_box(line, k + 1);
                lemma_pixel_step(line, k);
                lemma_minor_offset_step(line, k);
                lemma_times_unit(line.minor_offset(k), p.position_step_minor.x as int);
                lemma_times_unit(line.minor_offset(k), p.position_step_minor.y as int);
                lemma_times_unit(line.minor_offset(k + 1), p.position_step_minor.x as int);
                lemma_times_unit(line.minor_offset(k + 1), p.position_step_minor.y as int);
            }
        }
        let point = if self.index + 1 == self.length {
            self.bresenham.peek(&self.parameters)
        } else {
            self.bresenham.next(&self.parameters)
        };
        self.index = self.index + 1;
        Some(point)
    }
}

impl Line {
    /// Returns an iterator over the pixels of the line.
    ///
    /// It produces `max(|dx|, |dy|) + 1` pixels, the first being the start of
    /// the line and the last its end.
    pub fn points(&self) -> (it: Points)
        ensures
            it.wf(),
            it.line() == *self,
            it.produced() == 0,
            it.spec_remaining() == self.spec_pixels(),
            it.spec_remaining().len() == spec_max(spec_abs(self.dx()), spec_abs(self.dy())) + 1,
            it.spec_remaining().first() == self.start,
            it.spec_remaining().last() == self.end,
    {
        proof {
            lemma_pixels_span_line(*self);
        }
        Points::new(self)
    }
}

} // verus!
