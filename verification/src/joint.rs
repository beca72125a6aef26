//! The corner between two thick segments of a polyline.
//!
//! Where two segments of a stroked polyline meet, their edges have to be
//! joined. The edges of the two segments are extended until they cross. If
//! the crossing on the left is near enough, the corner is a sharp one, a
//! miter. If it is too far out, the corner is cut off, a bevel. If the
//! segments fold back onto each other, so that an edge of one runs through
//! the far end of the other, the joint is degenerate and only a patch is
//! left to fill. Segments on one line need no corner at all.

use vstd::prelude::*;
use crate::bresenham::BresenhamParameters;
use crate::extents::lemma_extents_run_alongside;
use crate::geometry::{fits_i32, spec_point, Point, THICKNESS_MAX};
use crate::intersection::lemma_product_bound;
use crate::line::Line;
use crate::points::{lemma_minor_offset_bounds, lemma_times_unit};
use crate::thick_points::StrokeAlignment;

verus! {

/// Three corners of a triangle.
#[derive(Copy, Clone, Debug, PartialEq, Eq, Structural, Hash)]
pub struct Triangle {
    /// First corner
    pub p1: Point,
    /// Second corner
    pub p2: Point,
    /// Third corner
    pub p3: Point,
}

impl Triangle {
    /// Creates a triangle from its three corners.
    pub fn new(p1: Point, p2: Point, p3: Point) -> (t: Triangle)
        ensures
            t == (Triangle { p1, p2, p3 }),
    {
        Triangle { p1, p2, p3 }
    }
}

/// Where the left and the right edge of a thick segment end at a joint.
#[derive(Copy, Clone, Debug, PartialEq, Eq, Structural, Hash)]
pub struct EdgeCorners {
    /// The end of the left edge.
    pub left: Point,
    /// The end of the right edge.
    pub right: Point,
}

/// How two thick segments are joined.
#[derive(Copy, Clone, Debug, PartialEq, Eq, Structural, Hash)]
pub enum JointKind {
    /// A sharp corner: the edges of both segments run up to their crossing.
    Miter,
    /// A corner cut off, because the crossing of the left edges lies too
    /// far out. The triangle fills the gap between the two segments.
    Bevel {
        /// The patch between the ends of the two left edges and the crossing
        /// of the right edges.
        filler_triangle: Triangle,
    },
    /// The segments overlap each other. The triangle patches the overlap.
    Degenerate {
        /// The patch between the ends of the two left edges and the vertex.
        filler_triangle: Triangle,
    },
    /// The segments lie on one line and their edges never cross.
    Colinear,
}

/// The joint between two consecutive thick segments.
#[derive(Copy, Clone, Debug, PartialEq, Eq, Structural, Hash)]
pub struct Joint {
    /// How the segments are joined.
    pub kind: JointKind,
    /// Where the edges of the incoming segment end.
    pub first_edge_end: EdgeCorners,
    /// Where the edges of the outgoing segment start.
    pub second_edge_start: EdgeCorners,
}

/// Whether an edge of one segment crosses the far end of the other.
///
/// The far ends are the line between the starts of the first segment's
/// edges and the line between the ends of the second segment's edges. On
/// each side the first is tried against the second segment's edge and the
/// second against the first segment's edge.
pub open spec fn edges_overlap(
    first_left: Line,
    first_right: Line,
    second_left: Line,
    second_right: Line,
) -> bool {
    let first_start = Line { start: first_left.start, end: first_right.start };
    let second_end = Line { start: second_left.end, end: second_right.end };
    ||| first_start.spec_segment_intersection(second_left)
    ||| second_end.spec_segment_intersection(first_left)
    ||| first_start.spec_segment_intersection(second_right)
    ||| second_end.spec_segment_intersection(first_right)
}

/// The squared distance from the vertex to the crossing of the left edges.
pub open spec fn miter_length_squared(mid: Point, first_left: Line, second_left: Line) -> int {
    let dx = second_left.crossing_x(first_left) - mid.x;
    let dy = second_left.crossing_y(first_left) - mid.y;
    dx * dx + dy * dy
}

/// The square of the longest miter allowed: twice the thickness.
pub open spec fn miter_limit(thickness: int) -> int {
    (2 * thickness) * (2 * thickness)
}

impl Joint {
    /// The joint whose corners are the ends of the edges as they are.
    pub open spec fn unjoined(
        kind: JointKind,
        first_left: Line,
        first_right: Line,
        second_left: Line,
        second_right: Line,
    ) -> Joint {
        Joint {
            kind,
            first_edge_end: EdgeCorners { left: first_left.end, right: first_right.end },
            second_edge_start: EdgeCorners { left: second_left.start, right: second_right.start },
        }
    }

    /// The joint at the vertex `mid` between a segment with the edges
    /// `first_left` and `first_right` and a segment with the edges
    /// `second_left` and `second_right`.
    ///
    /// It is `None` where a corner that the joint needs lies beyond the
    /// `i32` range.
    pub open spec fn spec_from_edges(
        mid: Point,
        first_left: Line,
        first_right: Line,
        second_left: Line,
        second_right: Line,
        thickness: int,
    ) -> Option<Joint> {
        let lx = second_left.crossing_x(first_left);
        let ly = second_left.crossing_y(first_left);
        let rx = second_right.crossing_x(first_right);
        let ry = second_right.crossing_y(first_right);
        let l = spec_point(lx, ly);
        let r = spec_point(rx, ry);
        if second_left.denominator(first_left) == 0 || second_right.denominator(first_right)
            == 0 {
            Some(
                Self::unjoined(
                    JointKind::Colinear,
                    first_left,
                    first_right,
                    second_left,
                    second_right,
                ),
            )
        } else if edges_overlap(first_left, first_right, second_left, second_right) {
            Some(
                Self::unjoined(
                    JointKind::Degenerate {
                        filler_triangle: Triangle {
                            p1: first_left.end,
                            p2: second_left.start,
                            p3: mid,
                        },
                    },
                    first_left,
                    first_right,
                    second_left,
                    second_right,
                ),
            )
        } else if !(fits_i32(rx) && fits_i32(ry)) {
            None
        } else if miter_length_squared(mid, first_left, second_left) <= miter_limit(thickness) {
            if fits_i32(lx) && fits_i32(ly) {
                Some(
                    Joint {
                        kind: JointKind::Miter,
                        first_edge_end: EdgeCorners { left: l, right: r },
                        second_edge_start: EdgeCorners { left: l, right: r },
                    },
                )
            } else {
                None
            }
        } else {
            Some(
                Joint {
                    kind: JointKind::Bevel {
                        filler_triangle: Triangle {
                            p1: first_left.end,
                            p2: second_left.start,
                            p3: r,
                        },
                    },
                    first_edge_end: EdgeCorners { left: first_left.end, right: r },
                    second_edge_start: EdgeCorners { left: second_left.start, right: r },
                },
            )
        }
    }

    /// The joint at `mid` of the polyline through `start`, `mid` and `end`,
    /// stroked at `thickness` with the given alignment.
    pub open spec fn spec_from_points(
        start: Point,
        mid: Point,
        end: Point,
        thickness: int,
        alignment: StrokeAlignment,
    ) -> Option<Joint> {
        let first = (Line { start, end: mid }).spec_extents_aligned(thickness, alignment);
        let second = (Line { start: mid, end }).spec_extents_aligned(thickness, alignment);
        Self::spec_from_edges(mid, first.0, first.1, second.0, second.1, thickness)
    }

    /// Whether the joint is degenerate.
    pub fn is_degenerate(&self) -> (b: bool)
        ensures
            b == (self.kind is Degenerate),
    {
        match self.kind {
            JointKind::Degenerate { .. } => true,
            _ => false,
        }
    }

    /// Whether the segments of the joint lie on one line.
    pub fn is_colinear(&self) -> (b: bool)
        ensures
            b == (self.kind is Colinear),
    {
        match self.kind {
            JointKind::Colinear => true,
            _ => false,
        }
    }

    /// Builds the joint between two segments from their edges.
    ///
    /// The left edges and the right edges are intersected as infinite
    /// lines. If a pair is parallel, the joint is `Colinear`. If an edge
    /// crosses the far end of the other segment, it is `Degenerate`. Else it
    /// is a `Miter` if the crossing of the left edges lies no more than
    /// twice the thickness from `mid`, and a `Bevel` if it lies further out.
    /// Every input is accepted; `None` is returned where a corner of the
    /// joint has no `i32` coordinates.
    pub fn from_edges(
        mid: Point,
        first_left: &Line,
        first_right: &Line,
        second_left: &Line,
        second_right: &Line,
        thickness: i32,
    ) -> (joint: Option<Joint>)
        ensures
            joint == Self::spec_from_edges(
                mid,
                *first_left,
                *first_right,
                *second_left,
                *second_right,
                thickness as int,
            ),
    {
        let corners_first = EdgeCorners { left: first_left.end, right: first_right.end };
        let corners_second = EdgeCorners { left: second_left.start, right: second_right.start };
        let left = second_left.wide_crossing(first_left);
        let right = second_right.wide_crossing(first_right);
        let (lx, ly, rx, ry) = match (left, right) {
            (Some((lx, ly, _)), Some((rx, ry, _))) => (lx, ly, rx, ry),
            _ => {
                return Some(
                    Joint {
                        kind: JointKind::Colinear,
                        first_edge_end: corners_first,
                        second_edge_start: corners_second,
                    },
                );
            },
        };
        let first_start = Line::new(first_left.start, first_right.start);
        let second_end = Line::new(second_left.end, second_right.end);
        let overlap_left: bool = first_start.segment_intersection(second_left)
            || second_end.segment_intersection(first_left);
        let overlap_right: bool = first_start.segment_intersection(second_right)
            || second_end.segment_intersection(first_right);
        if overlap_left || overlap_right {
            return Some(
                Joint {
                    kind: JointKind::Degenerate {
                        filler_triangle: Triangle::new(first_left.end, second_left.start, mid),
                    },
                    first_edge_end: corners_first,
                    second_edge_start: corners_second,
                },
            );
        }
        if rx < -0x8000_0000 || rx > 0x7fff_ffff || ry < -0x8000_0000 || ry > 0x7fff_ffff {
            return None;
        }
        let r = Point { x: rx as i32, y: ry as i32 };
        if is_within(lx - mid.x as i128, ly - mid.y as i128, thickness) {
            if lx < -0x8000_0000 || lx > 0x7fff_ffff || ly < -0x8000_0000 || ly > 0x7fff_ffff {
                return None;
            }
            let l = Point { x: lx as i32, y: ly as i32 };
            let corners = EdgeCorners { left: l, right: r };
            Some(Joint { kind: JointKind::Miter, first_edge_end: corners, second_edge_start: corners })
        } else {
            Some(
                Joint {
                    kind: JointKind::Bevel {
                        filler_triangle: Triangle::new(first_left.end, second_left.start, r),
                    },
                    first_edge_end: EdgeCorners { left: first_left.end, right: r },
                    second_edge_start: EdgeCorners { left: second_left.start, right: r },
                },
            )
        }
    }

    /// Builds the joint at `mid` of the polyline through `start`, `mid` and
    /// `end`, stroked at `thickness` with the given alignment.
    ///
    /// The edges of both segments are taken from their extents and joined
    /// as `from_edges` says.
    pub fn from_points(
        start: Point,
        mid: Point,
        end: Point,
        thickness: i32,
        alignment: StrokeAlignment,
    ) -> (joint: Option<Joint>)
        requires
            start.in_bounds(),
            mid.in_bounds(),
            end.in_bounds(),
            0 <= thickness <= THICKNESS_MAX,
        ensures
            joint == Self::spec_from_points(start, mid, end, thickness as int, alignment),
            (start.y == mid.y && mid.y == end.y) || (start.x == mid.x && mid.x == end.x)
                ==> match joint {
                Some(j) => j.kind == JointKind::Colinear,
                None => false,
            },
    {
        proof {
            if (start.y == mid.y && mid.y == end.y) || (start.x == mid.x && mid.x == end.x) {
                lemma_joint_of_flat_segments_is_colinear(
                    start,
                    mid,
                    end,
                    thickness as int,
                    alignment,
                );
            }
        }
        let first_line = Line::new(start, mid);
        let second_line = Line::new(mid, end);
        let (first_left, first_right) = first_line.extents_aligned(thickness, alignment);
        let (second_left, second_right) = second_line.extents_aligned(thickness, alignment);
        Self::from_edges(mid, &first_left, &first_right, &second_left, &second_right, thickness)
    }
}

/// Whether the vector `(dx, dy)` is no longer than twice the thickness.
fn is_within(dx: i128, dy: i128, thickness: i32) -> (b: bool)
    requires
        -0x4_0000_0000_0000_0000_0000_0000 <= dx <= 0x4_0000_0000_0000_0000_0000_0000,
        -0x4_0000_0000_0000_0000_0000_0000 <= dy <= 0x4_0000_0000_0000_0000_0000_0000,
    ensures
        b == (dx * dx + dy * dy <= miter_limit(thickness as int)),
{
    let t: i128 = thickness as i128;
    let reach: i128 = if t < 0 { 0 - 2 * t } else { 2 * t };
    let ax: i128 = if dx < 0 { -dx } else { dx };
    let ay: i128 = if dy < 0 { -dy } else { dy };
    proof {
        assert(dx * dx == ax * ax && dy * dy == ay * ay) by (nonlinear_arith)
            requires
                ax == dx || ax == -dx,
                ay == dy || ay == -dy,
        ;
        assert((2 * t) * (2 * t) == reach * reach) by (nonlinear_arith)
            requires
                reach == 2 * t || reach == -(2 * t),
        ;
        assert(ax * ax >= 0 && ay * ay >= 0) by (nonlinear_arith);
    }
    if ax > reach || ay > reach {
        proof {
            assert(ax > reach ==> ax * ax > reach * reach) by (nonlinear_arith)
                requires
                    reach >= 0,
            ;
            assert(ay > reach ==> ay * ay > reach * reach) by (nonlinear_arith)
                requires
                    reach >= 0,
            ;
        }
        false
    } else {
        proof {
            lemma_product_bound(ax as int, ax as int, 0x1_0000_0000, 0x1_0000_0000);
            lemma_product_bound(ay as int, ay as int, 0x1_0000_0000, 0x1_0000_0000);
            lemma_product_bound(reach as int, reach as int, 0x1_0000_0000, 0x1_0000_0000);
        }
        ax * ax + ay * ay <= reach * reach
    }
}

/// An edge that runs alongside a horizontal line is horizontal, and one
/// that runs alongside a vertical line is vertical.
pub proof fn lemma_edge_of_flat_line_is_flat(line: Line, edge: Line)
    requires
        line.runs_alongside(edge),
    ensures
        line.dy() == 0 ==> edge.dy() == 0,
        line.dx() == 0 ==> edge.dx() == 0,
{
    let last = line.major_delta();
    if last >= 1 {
        let k = (last - 1) as nat;
        let p = BresenhamParameters::spec_new(line);
        lemma_minor_offset_bounds(line, k);
        lemma_times_unit(k as int, p.position_step_major.x as int);
        lemma_times_unit(k as int, p.position_step_major.y as int);
        lemma_times_unit(line.minor_offset(k), p.position_step_minor.x as int);
        lemma_times_unit(line.minor_offset(k), p.position_step_minor.y as int);
    }
}

/// Two segments that lie on one horizontal or on one vertical line have a
/// `Colinear` joint, whose corners are the ends of the edges of the first
/// segment and the starts of those of the second.
pub proof fn lemma_joint_of_flat_segments_is_colinear(
    start: Point,
    mid: Point,
    end: Point,
    thickness: int,
    alignment: StrokeAlignment,
)
    requires
        start.in_bounds(),
        mid.in_bounds(),
        end.in_bounds(),
        0 <= thickness <= THICKNESS_MAX,
        (start.y == mid.y && mid.y == end.y) || (start.x == mid.x && mid.x == end.x),
    ensures
        ({
            let first = (Line { start, end: mid }).spec_extents_aligned(thickness, alignment);
            let second = (Line { start: mid, end }).spec_extents_aligned(thickness, alignment);
            Joint::spec_from_points(start, mid, end, thickness, alignment) == Some(
                Joint::unjoined(JointKind::Colinear, first.0, first.1, second.0, second.1),
            )
        }),
{
    let first_line = Line { start, end: mid };
    let second_line = Line { start: mid, end };
    let first = first_line.spec_extents_aligned(thickness, alignment);
    let second = second_line.spec_extents_aligned(thickness, alignment);
    lemma_extents_run_alongside(first_line, thickness, alignment);
    lemma_extents_run_alongside(second_line, thickness, alignment);
    lemma_edge_of_flat_line_is_flat(first_line, first.0);
    lemma_edge_of_flat_line_is_flat(second_line, second.0);
    let a1 = second.0.coef_a();
    let b1 = second.0.coef_b();
    let a2 = first.0.coef_a();
    let b2 = first.0.coef_b();
    assert(a1 * b2 - a2 * b1 == 0) by (nonlinear_arith)
        requires
            (a1 == 0 && a2 == 0) || (b1 == 0 && b2 == 0),
    ;
}

} // verus!
