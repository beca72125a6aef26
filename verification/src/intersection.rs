//! Exact intersection of two lines in integer arithmetic.
//!
//! Each line is taken as the set of solutions of `a·x + b·y + c = 0`. The
//! crossing of two such lines is a quotient of integers, which is rounded to
//! the nearest pixel. Whether the crossing lies on both segments is decided
//! from the signs that the four end points give in the other line's equation,
//! so no rounding enters that answer.

use vstd::prelude::*;
use vstd::arithmetic::div_mod::lemma_fundamental_div_mod_converse;
use crate::geometry::{fits_i32, spec_abs, Point};
use crate::line::{round_div, same_signs, spec_signum, strictly_same_side, Line};

verus! {

/// The outcome of intersecting two lines without any limit on the inputs.
#[derive(Copy, Clone, Debug, PartialEq, Eq, Structural)]
pub enum Intersection {
    /// The lines are parallel or lie on each other: no single crossing exists.
    Colinear,
    /// The lines cross at `point`, rounded to the nearest pixel.
    Point {
        /// The crossing, each coordinate rounded half away from zero.
        point: Point,
        /// Whether the crossing lies on both segments.
        on_segments: bool,
    },
    /// The lines cross so far away that the crossing has no `i32` coordinates.
    OutOfRange,
}

/// If `|a| <= ma` and `|b| <= mb` then `|a * b| <= ma * mb`.
pub proof fn lemma_product_bound(a: int, b: int, ma: int, mb: int)
    by (nonlinear_arith)
    requires
        -ma <= a <= ma,
        -mb <= b <= mb,
    ensures
        -(ma * mb) <= a * b <= ma * mb,
{
}

/// Divides with rounding to the nearest integer, halves away from zero.
fn rounded_quotient(num: i128, den: i128) -> (q: i128)
    requires
        den != 0,
        -0x1_0000_0000_0000_0000_0000_0000_0000 <= num <= 0x1_0000_0000_0000_0000_0000_0000_0000,
        -0x1_0000_0000_0000_0000_0000_0000_0000 <= den <= 0x1_0000_0000_0000_0000_0000_0000_0000,
    ensures
        q == round_div(num as int, den as int),
        spec_abs(q as int) <= spec_abs(num as int) + spec_abs(den as int),
{
    let an: i128 = if num < 0 { -num } else { num };
    let ad: i128 = if den < 0 { -den } else { den };
    let m: i128 = (an + ad / 2) / ad;
    assert(0 <= m <= an + ad / 2) by (nonlinear_arith)
        requires
            m == (an + ad / 2) / (ad as int),
            ad >= 1,
            an >= 0,
    ;
    if (num < 0) != (den < 0) {
        -m
    } else {
        m
    }
}

/// The sign of a wide value as an `i32`.
fn signum_of(v: i128) -> (s: i32)
    ensures
        s == spec_signum(v as int),
{
    if v > 0 {
        1
    } else if v < 0 {
        -1
    } else {
        0
    }
}

/// Whether two values are both nonzero and of the same sign.
fn on_same_side(r: i128, s: i128) -> (b: bool)
    ensures
        b == strictly_same_side(r as int, s as int),
{
    r != 0 && s != 0 && same_signs(signum_of(r), signum_of(s))
}

impl Line {
    /// Coefficient `a` of the line's equation `a·x + b·y + c = 0`.
    pub open spec fn coef_a(self) -> int {
        self.end.y - self.start.y
    }

    /// Coefficient `b` of the line's equation `a·x + b·y + c = 0`.
    pub open spec fn coef_b(self) -> int {
        self.start.x - self.end.x
    }

    /// Coefficient `c` of the line's equation `a·x + b·y + c = 0`.
    pub open spec fn coef_c(self) -> int {
        self.end.x * self.start.y - self.start.x * self.end.y
    }

    /// The value of the line's equation at `p`: zero on the line, and of
    /// opposite signs on its two sides.
    pub open spec fn side_value(self, p: Point) -> int {
        self.coef_a() * p.x + self.coef_b() * p.y + self.coef_c()
    }

    /// The determinant `a1·b2 − a2·b1`, zero exactly for parallel lines.
    pub open spec fn denominator(self, other: Line) -> int {
        self.coef_a() * other.coef_b() - other.coef_a() * self.coef_b()
    }

    /// The x coordinate of the crossing before division by the determinant.
    pub open spec fn numerator_x(self, other: Line) -> int {
        self.coef_b() * other.coef_c() - other.coef_b() * self.coef_c()
    }

    /// The y coordinate of the crossing before division by the determinant.
    pub open spec fn numerator_y(self, other: Line) -> int {
        other.coef_a() * self.coef_c() - self.coef_a() * other.coef_c()
    }

    /// The x coordinate of the crossing, rounded to the nearest integer.
    pub open spec fn crossing_x(self, other: Line) -> int {
        round_div(self.numerator_x(other), self.denominator(other))
    }

    /// The y coordinate of the crossing, rounded to the nearest integer.
    pub open spec fn crossing_y(self, other: Line) -> int {
        round_div(self.numerator_y(other), self.denominator(other))
    }

    /// Whether neither segment lies strictly on one side of the other line.
    ///
    /// An end point exactly on the other line counts as touching it.
    pub open spec fn segments_meet(self, other: Line) -> bool {
        &&& !strictly_same_side(self.side_value(other.start), self.side_value(other.end))
        &&& !strictly_same_side(other.side_value(self.start), other.side_value(self.end))
    }

    /// Whether the lines are not parallel and neither segment lies strictly
    /// on one side of the other.
    pub open spec fn spec_segment_intersection(self, other: Line) -> bool {
        self.denominator(other) != 0 && self.segments_meet(other)
    }

    /// Whether the rounded crossing has `i32` coordinates, or none exists.
    pub open spec fn crossing_fits(self, other: Line) -> bool {
        self.denominator(other) != 0 ==> fits_i32(self.crossing_x(other)) && fits_i32(
            self.crossing_y(other),
        )
    }

    /// The crossing of the two infinite lines and whether it lies on both
    /// segments; `None` for parallel lines.
    pub open spec fn spec_intersection(self, other: Line) -> Option<(Point, bool)> {
        if self.denominator(other) == 0 {
            None
        } else {
            Some(
                (
                    Point {
                        x: self.crossing_x(other) as i32,
                        y: self.crossing_y(other) as i32,
                    },
                    self.segments_meet(other),
                ),
            )
        }
    }

    /// The same crossing with an unrepresentable point told apart.
    pub open spec fn spec_line_intersection(self, other: Line) -> Intersection {
        if self.denominator(other) == 0 {
            Intersection::Colinear
        } else if !self.crossing_fits(other) {
            Intersection::OutOfRange
        } else {
            Intersection::Point {
                point: Point {
                    x: self.crossing_x(other) as i32,
                    y: self.crossing_y(other) as i32,
                },
                on_segments: self.segments_meet(other),
            }
        }
    }

    /// Computes the rounded crossing of the two infinite lines in wide
    /// integers, and whether it lies on both segments; `None` for parallel
    /// lines.
    pub fn wide_crossing(&self, other: &Line) -> (r: Option<(i128, i128, bool)>)
        ensures
            r is None <==> self.denominator(*other) == 0,
            match r {
                Some((x, y, on_segments)) => {
                    &&& x == self.crossing_x(*other)
                    &&& y == self.crossing_y(*other)
                    &&& on_segments == self.segments_meet(*other)
                    &&& -0x2_0000_0000_0000_0000_0000_0000 <= x <= 0x2_0000_0000_0000_0000_0000_0000
                    &&& -0x2_0000_0000_0000_0000_0000_0000 <= y <= 0x2_0000_0000_0000_0000_0000_0000
                },
                None => true,
            },
    {
        let x1: i128 = self.start.x as i128;
        let y1: i128 = self.start.y as i128;
        let x2: i128 = self.end.x as i128;
        let y2: i128 = self.end.y as i128;
        let x3: i128 = other.start.x as i128;
        let y3: i128 = other.start.y as i128;
        let x4: i128 = other.end.x as i128;
        let y4: i128 = other.end.y as i128;

        let a1: i128 = y2 - y1;
        let b1: i128 = x1 - x2;
        let a2: i128 = y4 - y3;
        let b2: i128 = x3 - x4;
        proof {
            let c: int = 0x8000_0000;
            let d: int = 0x1_0000_0000;
            let e: int = 0x8000_0000_0000_0000;
            lemma_product_bound(x2 as int, y1 as int, c, c);
            lemma_product_bound(x1 as int, y2 as int, c, c);
            lemma_product_bound(x4 as int, y3 as int, c, c);
            lemma_product_bound(x3 as int, y4 as int, c, c);
            lemma_product_bound(a1 as int, b2 as int, d, d);
            lemma_product_bound(a2 as int, b1 as int, d, d);
            lemma_product_bound(a1 as int, x3 as int, d, c);
            lemma_product_bound(b1 as int, y3 as int, d, c);
            lemma_product_bound(a1 as int, x4 as int, d, c);
            lemma_product_bound(b1 as int, y4 as int, d, c);
            lemma_product_bound(a2 as int, x1 as int, d, c);
            lemma_product_bound(b2 as int, y1 as int, d, c);
            lemma_product_bound(a2 as int, x2 as int, d, c);
            lemma_product_bound(b2 as int, y2 as int, d, c);
            lemma_product_bound(b1 as int, x4 * y3 - x3 * y4, d, e);
            lemma_product_bound(b2 as int, x2 * y1 - x1 * y2, d, e);
            lemma_product_bound(a2 as int, x2 * y1 - x1 * y2, d, e);
            lemma_product_bound(a1 as int, x4 * y3 - x3 * y4, d, e);
        }
        let c1: i128 = x2 * y1 - x1 * y2;
        let c2: i128 = x4 * y3 - x3 * y4;

        let denom: i128 = a1 * b2 - a2 * b1;
        if denom == 0 {
            return None;
        }
        let r3: i128 = a1 * x3 + b1 * y3 + c1;
        let r4: i128 = a1 * x4 + b1 * y4 + c1;
        let r1: i128 = a2 * x1 + b2 * y1 + c2;
        let r2: i128 = a2 * x2 + b2 * y2 + c2;
        let apart: bool = on_same_side(r3, r4) || on_same_side(r1, r2);

        let num_x: i128 = b1 * c2 - b2 * c1;
        let num_y: i128 = a2 * c1 - a1 * c2;
        let x: i128 = rounded_quotient(num_x, denom);
        let y: i128 = rounded_quotient(num_y, denom);
        Some((x, y, !apart))
    }

    /// Intersects the two infinite lines through `self` and `other`.
    ///
    /// Every pair of lines is accepted. Parallel lines give `Colinear`; a
    /// crossing beyond the `i32` range gives `OutOfRange`; otherwise the
    /// crossing is rounded half away from zero and returned together with
    /// the answer whether it lies on both segments.
    pub fn line_intersection(&self, other: &Line) -> (r: Intersection)
        ensures
            r == self.spec_line_intersection(*other),
    {
        match self.wide_crossing(other) {
            None => Intersection::Colinear,
            Some((x, y, on_segments)) => {
                if x < -0x8000_0000 || x > 0x7fff_ffff || y < -0x8000_0000 || y > 0x7fff_ffff {
                    Intersection::OutOfRange
                } else {
                    Intersection::Point { point: Point { x: x as i32, y: y as i32 }, on_segments }
                }
            },
        }
    }

    /// Integer-only line segment intersection
    ///
    /// Returns the crossing of the two infinite lines, rounded half away
    /// from zero, or `None` where the lines are parallel. If the point lies on
    /// both line segments, the second tuple argument will return `true`.
    pub fn intersection(&self, other: &Line) -> (r: Option<(Point, bool)>)
        requires
            self.crossing_fits(*other),
        ensures
            r == self.spec_intersection(*other),
            r is None <==> self.denominator(*other) == 0,
    {
        match self.line_intersection(other) {
            Intersection::Point { point, on_segments } => Some((point, on_segments)),
            _ => None,
        }
    }

    /// Whether the two segments touch or cross each other in a single point.
    ///
    /// Segments on parallel lines never do, even where they overlap.
    pub fn segment_intersection(&self, other: &Line) -> (b: bool)
        ensures
            b == self.spec_segment_intersection(*other),
    {
        match self.wide_crossing(other) {
            None => false,
            Some((x, y, on_segments)) => on_segments,
        }
    }
}

/// The rounded quotient is a nearest integer to the exact one: it misses
/// `num / den` by no more than one half.
pub proof fn lemma_round_div_is_nearest(num: int, den: int)
    requires
        den != 0,
    ensures
        2 * spec_abs(round_div(num, den) * den - num) <= spec_abs(den),
{
    let n = spec_abs(num);
    let d = spec_abs(den);
    let h = d / 2;
    let q = (n + h) / d;
    let r = (n + h) % d;
    vstd::arithmetic::div_mod::lemma_fundamental_div_mod(n + h, d);
    vstd::arithmetic::div_mod::lemma_mod_bound(n + h, d);
    assert(n + h == d * q + r);
    assert(0 <= r < d);
    assert(q * d == d * q) by (nonlinear_arith);
    assert(2 * spec_abs(q * d - n) <= d);
    let rd = round_div(num, den);
    assert(rd * den - num == q * d - n || rd * den - num == n - q * d) by (nonlinear_arith)
        requires
            ((num < 0) != (den < 0)) ==> rd == -q,
            ((num < 0) == (den < 0)) ==> rd == q,
            num < 0 ==> n == -num,
            num >= 0 ==> n == num,
            den < 0 ==> d == -den,
            den >= 0 ==> d == den,
    ;
}

/// An exact half is rounded away from zero.
pub proof fn lemma_round_div_of_half(k: int, den: int)
    requires
        den != 0,
        den % 2 == 0,
        k >= 0,
    ensures
        round_div(k * spec_abs(den) + spec_abs(den) / 2, spec_abs(den)) == k + 1,
        round_div(-(k * spec_abs(den) + spec_abs(den) / 2), spec_abs(den)) == -(k + 1),
{
    let d = spec_abs(den);
    let h = d / 2;
    assert(d == 2 * h);
    assert(k * d >= 0) by (nonlinear_arith)
        requires
            k >= 0,
            d >= 0,
    ;
    assert(k * d + h + h == (k + 1) * d + 0) by (nonlinear_arith)
        requires
            d == 2 * h,
    ;
    lemma_fundamental_div_mod_converse(k * d + h + h, d, k + 1, 0);
}

/// Changing the sign of both the numerator and the denominator leaves the
/// rounded quotient as it is.
pub proof fn lemma_round_div_of_negated(num: int, den: int)
    requires
        den != 0,
    ensures
        round_div(-num, -den) == round_div(num, den),
{
    if num == 0 {
        let d = spec_abs(den);
        lemma_fundamental_div_mod_converse(d / 2, d, 0, d / 2);
    }
}

/// Intersecting two lines gives the same answer whichever of them is asked.
pub proof fn lemma_intersection_is_symmetric(a: Line, b: Line)
    ensures
        a.spec_intersection(b) == b.spec_intersection(a),
        a.spec_line_intersection(b) == b.spec_line_intersection(a),
        a.spec_segment_intersection(b) == b.spec_segment_intersection(a),
{
    let d = a.denominator(b);
    let nx = a.numerator_x(b);
    let ny = a.numerator_y(b);
    assert(b.denominator(a) == -d) by (nonlinear_arith)
        requires
            d == a.coef_a() * b.coef_b() - b.coef_a() * a.coef_b(),
            b.denominator(a) == b.coef_a() * a.coef_b() - a.coef_a() * b.coef_b(),
    ;
    assert(b.numerator_x(a) == -nx) by (nonlinear_arith)
        requires
            nx == a.coef_b() * b.coef_c() - b.coef_b() * a.coef_c(),
            b.numerator_x(a) == b.coef_b() * a.coef_c() - a.coef_b() * b.coef_c(),
    ;
    assert(b.numerator_y(a) == -ny) by (nonlinear_arith)
        requires
            ny == b.coef_a() * a.coef_c() - a.coef_a() * b.coef_c(),
            b.numerator_y(a) == a.coef_a() * b.coef_c() - b.coef_a() * a.coef_c(),
    ;
    if d != 0 {
        lemma_round_div_of_negated(nx, d);
        lemma_round_div_of_negated(ny, d);
    }
}

} // verus!
