//! Points, sizes and rectangles on the integer pixel grid.

use vstd::prelude::*;
use vstd::arithmetic::div_mod::lemma_fundamental_div_mod_converse;

verus! {

/// Largest coordinate magnitude for which the stroke engine is specified.
///
/// Every intermediate quantity of the thick line search stays inside the
/// machine integers as long as all coordinates lie within `±COORD_MAX`.
pub const COORD_MAX: i32 = 0x1000_0000;

/// Largest stroke thickness for which the stroke engine is specified.
pub const THICKNESS_MAX: i32 = 0x1000_0000;

/// A position on the pixel grid.
#[derive(Copy, Clone, Debug, PartialEq, Eq, Structural, Hash, PartialOrd, Ord)]
pub struct Point {
    /// Horizontal coordinate, growing to the right.
    pub x: i32,
    /// Vertical coordinate, growing downwards.
    pub y: i32,
}

/// The mathematical point `(x, y)`, truncated to the machine coordinates.
pub open spec fn spec_point(x: int, y: int) -> Point {
    Point { x: x as i32, y: y as i32 }
}

/// Whether `v` is a value of `i32`.
pub open spec fn fits_i32(v: int) -> bool {
    i32::MIN <= v <= i32::MAX
}

impl Point {
    /// Creates the point `(x, y)`.
    pub fn new(x: i32, y: i32) -> (p: Point)
        ensures
            p == (Point { x, y }),
    {
        Point { x, y }
    }

    /// The origin `(0, 0)`.
    pub fn zero() -> (p: Point)
        ensures
            p == (Point { x: 0, y: 0 }),
    {
        Point { x: 0, y: 0 }
    }

    /// Whether both coordinates lie in the range the stroke engine supports.
    pub open spec fn in_bounds(self) -> bool {
        &&& -COORD_MAX <= self.x <= COORD_MAX
        &&& -COORD_MAX <= self.y <= COORD_MAX
    }

    /// Whether the component-wise sum with `other` is representable.
    pub open spec fn can_add(self, other: Point) -> bool {
        fits_i32(self.x + other.x) && fits_i32(self.y + other.y)
    }

    /// Whether the component-wise difference with `other` is representable.
    pub open spec fn can_sub(self, other: Point) -> bool {
        fits_i32(self.x - other.x) && fits_i32(self.y - other.y)
    }

    /// The component-wise sum.
    pub open spec fn spec_plus(self, other: Point) -> Point {
        spec_point(self.x + other.x, self.y + other.y)
    }

    /// The component-wise difference.
    pub open spec fn spec_minus(self, other: Point) -> Point {
        spec_point(self.x - other.x, self.y - other.y)
    }

    /// The point mirrored through the origin.
    pub open spec fn spec_negated(self) -> Point {
        spec_point(-self.x, -self.y)
    }

    /// Adds two points component by component.
    pub fn plus(self, other: Point) -> (p: Point)
        requires
            self.can_add(other),
        ensures
            p.x == self.x + other.x,
            p.y == self.y + other.y,
            p == self.spec_plus(other),
    {
        Point { x: self.x + other.x, y: self.y + other.y }
    }

    /// Subtracts `other` from `self` component by component.
    pub fn minus(self, other: Point) -> (p: Point)
        requires
            self.can_sub(other),
        ensures
            p.x == self.x - other.x,
            p.y == self.y - other.y,
            p == self.spec_minus(other),
    {
        Point { x: self.x - other.x, y: self.y - other.y }
    }

    /// Whether both coordinates multiplied by `factor` are representable.
    pub open spec fn can_scale(self, factor: i32) -> bool {
        fits_i32(self.x * factor) && fits_i32(self.y * factor)
    }

    /// Multiplies both coordinates by `factor`.
    pub fn scaled(self, factor: i32) -> (p: Point)
        requires
            self.can_scale(factor),
        ensures
            p.x == self.x * factor,
            p.y == self.y * factor,
    {
        Point { x: self.x * factor, y: self.y * factor }
    }

    /// Mirrors the point through the origin.
    pub fn negated(self) -> (p: Point)
        requires
            self.x > i32::MIN,
            self.y > i32::MIN,
        ensures
            p.x == -self.x,
            p.y == -self.y,
            p == self.spec_negated(),
    {
        Point { x: -self.x, y: -self.y }
    }
}

impl Default for Point {
    /// The origin.
    fn default() -> (p: Point)
        ensures
            p == (Point { x: 0, y: 0 }),
    {
        Point { x: 0, y: 0 }
    }
}

/// A width and a height, both counted in pixels.
#[derive(Copy, Clone, Debug, PartialEq, Eq, Structural, Hash, PartialOrd, Ord)]
pub struct Size {
    /// Extent along the x axis.
    pub width: u32,
    /// Extent along the y axis.
    pub height: u32,
}

impl Size {
    /// Creates a size of `width` by `height` pixels.
    pub fn new(width: u32, height: u32) -> (s: Size)
        ensures
            s == (Size { width, height }),
    {
        Size { width, height }
    }
}

impl Default for Size {
    /// The empty size.
    fn default() -> (s: Size)
        ensures
            s == (Size { width: 0, height: 0 }),
    {
        Size { width: 0, height: 0 }
    }
}

/// An axis-aligned rectangle given by its top left pixel and its size.
#[derive(Copy, Clone, Debug, PartialEq, Eq, Structural, Hash, PartialOrd, Ord)]
pub struct Rectangle {
    /// The pixel in the top left corner.
    pub top_left: Point,
    /// Number of pixel columns and rows covered.
    pub size: Size,
}

impl Default for Rectangle {
    /// The empty rectangle at the origin.
    fn default() -> (r: Rectangle)
        ensures
            r == (Rectangle { top_left: Point { x: 0, y: 0 }, size: Size { width: 0, height: 0 } }),
    {
        Rectangle { top_left: Point { x: 0, y: 0 }, size: Size { width: 0, height: 0 } }
    }
}

/// The smaller of two integers.
pub open spec fn spec_min(a: int, b: int) -> int {
    if a <= b {
        a
    } else {
        b
    }
}

/// The larger of two integers.
pub open spec fn spec_max(a: int, b: int) -> int {
    if a >= b {
        a
    } else {
        b
    }
}

/// `n` steps of the unit `u`, which is `-1`, `0` or `1`: the product of the
/// two, written without a multiplication.
pub open spec fn steps_of(n: int, u: int) -> int {
    if u == 1 {
        n
    } else if u == -1 {
        -n
    } else {
        0
    }
}

/// The absolute value of an integer.
pub open spec fn spec_abs(a: int) -> int {
    if a >= 0 {
        a
    } else {
        -a
    }
}

impl Rectangle {
    /// Creates a rectangle from its top left corner and size.
    pub fn new(top_left: Point, size: Size) -> (r: Rectangle)
        ensures
            r == (Rectangle { top_left, size }),
    {
        Rectangle { top_left, size }
    }

    /// Whether the smallest rectangle containing both corners has a
    /// representable size.
    pub open spec fn corners_fit(a: Point, b: Point) -> bool {
        &&& spec_abs(a.x - b.x) + 1 <= u32::MAX
        &&& spec_abs(a.y - b.y) + 1 <= u32::MAX
    }

    /// The smallest rectangle containing both corners, whatever their order.
    pub open spec fn spec_with_corners(a: Point, b: Point) -> Rectangle {
        Rectangle {
            top_left: Point {
                x: spec_min(a.x as int, b.x as int) as i32,
                y: spec_min(a.y as int, b.y as int) as i32,
            },
            size: Size {
                width: (spec_abs(a.x - b.x) + 1) as u32,
                height: (spec_abs(a.y - b.y) + 1) as u32,
            },
        }
    }

    /// Creates the smallest rectangle that contains both corner pixels.
    ///
    /// The corners may be given in any order; the size is never negative and
    /// counts both corner pixels.
    pub fn with_corners(a: Point, b: Point) -> (r: Rectangle)
        requires
            Self::corners_fit(a, b),
        ensures
            r == Self::spec_with_corners(a, b),
            r.top_left.x <= a.x && r.top_left.x <= b.x,
            r.top_left.y <= a.y && r.top_left.y <= b.y,
            r.size.width >= 1 && r.size.height >= 1,
    {
        let left: i32 = if a.x <= b.x { a.x } else { b.x };
        let top: i32 = if a.y <= b.y { a.y } else { b.y };
        let right: i32 = if a.x <= b.x { b.x } else { a.x };
        let bottom: i32 = if a.y <= b.y { b.y } else { a.y };
        let width: i64 = right as i64 - left as i64 + 1;
        let height: i64 = bottom as i64 - top as i64 + 1;
        Rectangle {
            top_left: Point { x: left, y: top },
            size: Size { width: width as u32, height: height as u32 },
        }
    }

    /// The pixel at the middle of the rectangle, rounded towards the top left.
    pub open spec fn spec_center(self) -> Point {
        Point {
            x: (self.top_left.x + (spec_max(self.size.width as int, 1) - 1) / 2) as i32,
            y: (self.top_left.y + (spec_max(self.size.height as int, 1) - 1) / 2) as i32,
        }
    }

    /// Whether the bottom right pixel has representable coordinates.
    pub open spec fn extent_fits(self) -> bool {
        &&& fits_i32(self.top_left.x + spec_max(self.size.width as int, 1) - 1)
        &&& fits_i32(self.top_left.y + spec_max(self.size.height as int, 1) - 1)
    }

    /// Returns the pixel at the middle of the rectangle.
    ///
    /// With an even width or height the middle falls between two pixels and
    /// the one nearer to the top left corner is returned. An empty rectangle
    /// has its top left corner as its center.
    pub fn center(&self) -> (p: Point)
        requires
            self.extent_fits(),
        ensures
            p == self.spec_center(),
            self.top_left.x <= p.x,
            self.top_left.y <= p.y,
    {
        let w: i64 = if self.size.width >= 1 { self.size.width as i64 - 1 } else { 0 };
        let h: i64 = if self.size.height >= 1 { self.size.height as i64 - 1 } else { 0 };
        let x: i64 = self.top_left.x as i64 + w / 2;
        let y: i64 = self.top_left.y as i64 + h / 2;
        Point { x: x as i32, y: y as i32 }
    }
}

impl Rectangle {
    /// The number of pixels in the rectangle.
    pub open spec fn cell_count(self) -> nat {
        (self.size.width * self.size.height) as nat
    }

    /// Pixel number `i` of the rectangle, counted row by row from the top
    /// left corner, each row from left to right.
    pub open spec fn spec_cell(self, i: nat) -> Point {
        spec_point(
            self.top_left.x + i % (self.size.width as nat),
            self.top_left.y + i / (self.size.width as nat),
        )
    }

    /// Returns an iterator over the pixels of the rectangle, row by row.
    pub fn points(&self) -> (it: RectanglePoints)
        requires
            self.extent_fits(),
        ensures
            it.wf(),
            it.area() == *self,
            it.produced() == 0,
    {
        proof {
            assert(0 * self.size.width == 0);
        }
        RectanglePoints { area: *self, column: 0, row: 0 }
    }
}

/// Iterator over the pixels of a rectangle.
///
/// The pixels come row by row from the top, each row from left to right.
#[derive(Copy, Clone, Debug)]
pub struct RectanglePoints {
    area: Rectangle,
    column: u32,
    row: u32,
}

impl RectanglePoints {
    /// The rectangle whose pixels are produced.
    pub closed spec fn area(self) -> Rectangle {
        self.area
    }

    /// The number of pixels produced so far.
    pub closed spec fn produced(self) -> nat {
        (self.row * self.area.size.width + self.column) as nat
    }

    /// Whether the iterator stands on a pixel of its rectangle or at its end.
    pub closed spec fn wf(self) -> bool {
        &&& self.area.extent_fits()
        &&& self.row <= self.area.size.height
        &&& self.column < self.area.size.width || self.column == 0
        &&& self.row == self.area.size.height ==> self.column == 0
    }

    /// An iterator in order has produced no more pixels than there are.
    pub proof fn lemma_produced_bounded(self)
        requires
            self.wf(),
        ensures
            self.produced() <= self.area().cell_count(),
    {
        let w = self.area.size.width as int;
        let h = self.area.size.height as int;
        let r = self.row as int;
        let c = self.column as int;
        assert(r * w + c <= w * h) by (nonlinear_arith)
            requires
                0 <= r <= h,
                0 <= c,
                c < w || c == 0,
                r == h ==> c == 0,
                w >= 0,
        {
            if r < h {
                assert((r + 1) * w <= h * w);
            }
        }
    }

    /// Returns the next pixel of the rectangle, or `None` after the last.
    pub fn next(&mut self) -> (r: Option<Point>)
        requires
            old(self).wf(),
        ensures
            final(self).wf(),
            final(self).area() == old(self).area(),
            old(self).produced() < old(self).area().cell_count() ==> r == Some(
                old(self).area().spec_cell(old(self).produced()),
            ) && final(self).produced() == old(self).produced() + 1,
            old(self).produced() >= old(self).area().cell_count() ==> r is None && *final(self)
                == *old(self),
    {
        let width: u32 = self.area.size.width;
        let height: u32 = self.area.size.height;
        proof {
            let w = width as int;
            let h = height as int;
            let r = self.row as int;
            let c = self.column as int;
            self.lemma_produced_bounded();
            if w > 0 && r < h {
                assert(r * w + c < w * h) by (nonlinear_arith)
                    requires
                        0 <= r < h,
                        0 <= c < w,
                {
                    assert((r + 1) * w <= h * w);
                }
                lemma_fundamental_div_mod_converse(r * w + c, w, r, c);
                assert((r + 1) * w + 0 == r * w + c + 1 || c + 1 < w) by (nonlinear_arith)
                    requires
                        0 <= c < w,
                ;
            } else {
                assert(r * w + c >= w * h) by (nonlinear_arith)
                    requires
                        w == 0 || r == h,
                        c >= 0,
                        r >= 0,
                        h >= 0,
                ;
            }
        }
        if width == 0 || self.row >= height {
            return None;
        }
        let x: i64 = self.area.top_left.x as i64 + self.column as i64;
        let y: i64 = self.area.top_left.y as i64 + self.row as i64;
        if self.column + 1 == width {
            self.column = 0;
            self.row = self.row + 1;
        } else {
            self.column = self.column + 1;
        }
        Some(Point { x: x as i32, y: y as i32 })
    }
}

} // verus!
