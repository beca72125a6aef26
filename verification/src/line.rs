//! Line segments between two pixels.

use vstd::prelude::*;
use crate::geometry::{fits_i32, spec_abs, spec_min, spec_point, Point, Rectangle, Size};

verus! {

/// A line segment from `start` to `end`, both ends included.
///
/// The order of the two ends gives the direction of travel, which decides
/// what counts as the left and the right side of the line.
#[derive(Copy, Clone, Debug, PartialEq, Eq, Structural, Hash, PartialOrd, Ord)]
pub struct Line {
    /// Start point
    pub start: Point,
    /// End point
    pub end: Point,
}

impl Default for Line {
    /// The line of the single pixel at the origin.
    fn default() -> (l: Line)
        ensures
            l == (Line { start: Point { x: 0, y: 0 }, end: Point { x: 0, y: 0 } }),
    {
        Line { start: Point { x: 0, y: 0 }, end: Point { x: 0, y: 0 } }
    }
}

/// Whether two numbers carry the same sign bit, zero counting as positive.
pub fn same_signs(a: i32, b: i32) -> (r: bool)
    ensures
        r == ((a >= 0) == (b >= 0)),
{
    assert(((a ^ b) >= 0) == ((a >= 0) == (b >= 0))) by (bit_vector);
    (a ^ b) >= 0
}

/// The sign of `v` as `-1`, `0` or `1`.
pub open spec fn spec_signum(v: int) -> int {
    if v > 0 {
        1
    } else if v < 0 {
        -1
    } else {
        0
    }
}

/// Whether two values lie strictly on the same side of zero.
pub open spec fn strictly_same_side(r: int, s: int) -> bool {
    (r > 0 && s > 0) || (r < 0 && s < 0)
}

/// `num / den` rounded to the nearest integer, halves away from zero.
///
/// The quotient of the magnitudes is taken after adding half of `|den|`
/// (rounded down) to `|num|`, and carries the sign of the exact quotient.
pub open spec fn round_div(num: int, den: int) -> int {
    let q = (spec_abs(num) + spec_abs(den) / 2) / spec_abs(den);
    if (num < 0) != (den < 0) {
        -q
    } else {
        q
    }
}

impl Line {
    /// Create a new line
    pub fn new(start: Point, end: Point) -> (l: Line)
        ensures
            l == (Line { start, end }),
    {
        Line { start, end }
    }

    /// The horizontal extent `end.x - start.x`, positive to the right.
    pub open spec fn dx(self) -> int {
        self.end.x - self.start.x
    }

    /// The vertical extent `end.y - start.y`, positive downwards.
    pub open spec fn dy(self) -> int {
        self.end.y - self.start.y
    }

    /// Whether both ends lie in the range the stroke engine supports.
    pub open spec fn in_bounds(self) -> bool {
        self.start.in_bounds() && self.end.in_bounds()
    }

    /// The same segment travelled in the opposite direction.
    pub open spec fn spec_reversed(self) -> Line {
        Line { start: self.end, end: self.start }
    }

    /// Returns the line with its two ends exchanged.
    pub fn reversed(&self) -> (l: Line)
        ensures
            l == self.spec_reversed(),
    {
        Line { start: self.end, end: self.start }
    }

    /// The smallest rectangle that contains both ends.
    pub open spec fn spec_bounding_box(self) -> Rectangle {
        Rectangle::spec_with_corners(self.start, self.end)
    }

    /// Returns the smallest rectangle that contains the line.
    ///
    /// Its top left corner is the minimum of the two ends on each axis, so
    /// the size is at least one pixel each way whatever the line's direction.
    pub fn bounding_box(&self) -> (r: Rectangle)
        requires
            Rectangle::corners_fit(self.start, self.end),
        ensures
            r == self.spec_bounding_box(),
            r.top_left.x == spec_min(self.start.x as int, self.end.x as int),
            r.top_left.y == spec_min(self.start.y as int, self.end.y as int),
            r.size.width == spec_abs(self.dx()) + 1,
            r.size.height == spec_abs(self.dy()) + 1,
    {
        Rectangle::with_corners(self.start, self.end)
    }

    /// The line moved by the vector `by`.
    pub open spec fn spec_translate(self, by: Point) -> Line {
        Line { start: self.start.spec_plus(by), end: self.end.spec_plus(by) }
    }

    /// Whether the line moved by `by` still has representable ends.
    pub open spec fn can_translate(self, by: Point) -> bool {
        self.start.can_add(by) && self.end.can_add(by)
    }

    /// Translate the line from its current position to a new position by (x, y) pixels, returning
    /// a new `Line`. For a mutating transform, see `translate_mut`.
    pub fn translate(&self, by: Point) -> (l: Line)
        requires
            self.can_translate(by),
        ensures
            l == self.spec_translate(by),
            l.start.x == self.start.x + by.x,
            l.start.y == self.start.y + by.y,
            l.end.x == self.end.x + by.x,
            l.end.y == self.end.y + by.y,
    {
        Line { start: self.start.plus(by), end: self.end.plus(by) }
    }

    /// Translate the line from its current position to a new position by (x, y) pixels.
    pub fn translate_mut(&mut self, by: Point)
        requires
            old(self).can_translate(by),
        ensures
            *final(self) == old(self).spec_translate(by),
            final(self).start.x == old(self).start.x + by.x,
            final(self).start.y == old(self).start.y + by.y,
            final(self).end.x == old(self).end.x + by.x,
            final(self).end.y == old(self).end.y + by.y,
    {
        self.start = self.start.plus(by);
        self.end = self.end.plus(by);
    }

    /// The line turned by a quarter turn about its start, towards its left.
    pub open spec fn spec_perpendicular(self) -> Line {
        Line {
            start: self.start,
            end: spec_point(self.start.x + self.dy(), self.start.y - self.dx()),
        }
    }

    /// Whether the end of the perpendicular line is representable.
    pub open spec fn can_turn(self) -> bool {
        fits_i32(self.start.x + self.dy()) && fits_i32(self.start.y - self.dx())
    }

    /// Returns a perpendicular line.
    ///
    /// The returned line is rotated 90 degree counter clockwise and shares the start point with
    /// this line.
    pub fn perpendicular(&self) -> (l: Line)
        requires
            self.can_turn(),
        ensures
            l == self.spec_perpendicular(),
            l.start == self.start,
            l.dx() == self.dy(),
            l.dy() == -self.dx(),
    {
        let dx: i64 = self.end.x as i64 - self.start.x as i64;
        let dy: i64 = self.end.y as i64 - self.start.y as i64;
        let x: i64 = self.start.x as i64 + dy;
        let y: i64 = self.start.y as i64 - dx;
        Line { start: self.start, end: Point { x: x as i32, y: y as i32 } }
    }

    /// The two halves of the line, which meet at the center of its bounding box.
    pub open spec fn spec_split_in_half(self) -> (Line, Line) {
        let mid = self.spec_bounding_box().spec_center();
        (Line { start: self.start, end: mid }, Line { start: mid, end: self.end })
    }

    /// Split the line in half at the midpoint, producing two new lines.
    ///
    /// The end of the first line and the start of the second line lay on the same point.
    pub fn split_in_half(self) -> (halves: (Line, Line))
        requires
            Rectangle::corners_fit(self.start, self.end),
        ensures
            halves == self.spec_split_in_half(),
            halves.0.start == self.start,
            halves.1.end == self.end,
            halves.0.end == halves.1.start,
            halves.0.end.x == spec_min(self.start.x as int, self.end.x as int) + spec_abs(
                self.dx(),
            ) / 2,
            halves.0.end.y == spec_min(self.start.y as int, self.end.y as int) + spec_abs(
                self.dy(),
            ) / 2,
    {
        let midpoint = self.bounding_box().center();
        (Line { start: self.start, end: midpoint }, Line { start: midpoint, end: self.end })
    }

    /// Whether both squared extents are representable: neither extent is
    /// more than `65535`, the largest number whose square is a `u32`.
    pub open spec fn squares_fit(self) -> bool {
        spec_abs(self.dx()) <= 0xffff && spec_abs(self.dy()) <= 0xffff
    }

    /// The squared extents of the line along each axis.
    pub open spec fn spec_length_squared(self) -> Size {
        Size {
            width: (self.dx() * self.dx()) as u32,
            height: (self.dy() * self.dy()) as u32,
        }
    }

    /// Get the squared length of the line
    ///
    /// The squares of the horizontal and of the vertical extent are returned
    /// separately, as the width and the height of a `Size`.
    pub fn length_squared(&self) -> (s: Size)
        requires
            self.squares_fit(),
        ensures
            s == self.spec_length_squared(),
            s.width == self.dx() * self.dx(),
            s.height == self.dy() * self.dy(),
    {
        let dx: i64 = self.end.x as i64 - self.start.x as i64;
        let dy: i64 = self.end.y as i64 - self.start.y as i64;
        assert(0 <= dx * dx <= 0xffff * 0xffff) by (nonlinear_arith)
            requires
                -0xffff <= dx <= 0xffff,
        ;
        assert(0 <= dy * dy <= 0xffff * 0xffff) by (nonlinear_arith)
            requires
                -0xffff <= dy <= 0xffff,
        ;
        let w: i64 = dx * dx;
        let h: i64 = dy * dy;
        Size { width: w as u32, height: h as u32 }
    }
}

/// The bounding box of a line does not depend on the line's direction.
pub proof fn lemma_bounding_box_ignores_direction(line: Line)
    ensures
        line.spec_reversed().spec_bounding_box() == line.spec_bounding_box(),
{
}

/// A line moved by a vector and then by the opposite vector is the line
/// itself, provided that the line moved and the opposite vector exist.
pub proof fn lemma_translate_round_trip(line: Line, by: Point)
    requires
        line.can_translate(by),
        by.x > i32::MIN,
        by.y > i32::MIN,
    ensures
        line.spec_translate(by).can_translate(by.spec_negated()),
        line.spec_translate(by).spec_translate(by.spec_negated()) == line,
{
}

} // verus!
