//! How the pixels of a stroke lie between the edges of its line.
//!
//! A centered stroke takes its parallels from the two sides of the line in
//! turn, the left side first. The search for an edge goes out on one side
//! for as long as the bundle, with as many parallels again on the other
//! side less one, is not thicker than asked. So the left edge is the
//! outermost parallel that the stroke has on the left. On the right the
//! stroke has as many parallels as on the left if their number is odd, and
//! the right edge is the outermost of them; if their number is even, the
//! stroke has one parallel less on the right, and the right edge lies one
//! parallel beyond it.

use vstd::prelude::*;
use vstd::arithmetic::div_mod::lemma_fundamental_div_mod_converse;
use crate::bresenham::BresenhamParameters;
use crate::extents::{lemma_side_start_inv, lemma_side_step, SideSearch};
use crate::geometry::THICKNESS_MAX;
use crate::line::Line;
use crate::points::lemma_pixels_span_line;
use crate::thick_points::{
    bundle_thickness, left_ascends, lemma_search_bounded, lemma_start_inv, lemma_step_keeps_inv,
    major_of, minor_of, shapes_a_line, shaping_line, too_thick, Parallel, Search, Side,
    StrokeAlignment,
};

verus! {

impl Search {
    /// The outermost parallel on each side once the search is exhausted,
    /// given the outermost ones found so far; `None` for a side on which
    /// the search finds none. The line in the middle counts to the right.
    pub open spec fn outermost(self, left: Option<Parallel>, right: Option<Parallel>) -> (
        Option<Parallel>,
        Option<Parallel>,
    )
        decreases 2 * self.thickness - self.produced,
        when self.inv()
    {
        if self.exhausted() {
            (left, right)
        } else {
            proof {
                lemma_search_bounded(self);
                lemma_step_keeps_inv(self);
            }
            let (next, parallel, side) = self.step();
            match side {
                Side::Left => next.outermost(Some(parallel), right),
                Side::Right => next.outermost(left, Some(parallel)),
            }
        }
    }
}

/// A bundle that is thicker than asked stays so with more parallels.
pub proof fn lemma_thicker_with_more(p: BresenhamParameters, thickness: int, count: int, more: int)
    requires
        shapes_a_line(p),
        0 <= count <= more,
        too_thick(p, thickness, count),
    ensures
        too_thick(p, thickness, more),
{
    let a = major_of(p);
    let b = minor_of(p);
    let x = bundle_thickness(p, count);
    let y = bundle_thickness(p, more);
    assert(0 <= x <= y) by (nonlinear_arith)
        requires
            x == a + b + count * (2 * a),
            y == a + b + more * (2 * a),
            0 <= count <= more,
            a >= 1,
            b >= 0,
    ;
    assert(x * x <= y * y) by (nonlinear_arith)
        requires
            0 <= x <= y,
    ;
}

/// The search on the left, or on the right, of a centered stroke that
/// stands where the walk `walker` stands after `found` parallels.
pub open spec fn side_of(s: Search, left: bool, found: nat) -> SideSearch {
    SideSearch {
        parameters: s.parameters,
        thickness: s.thickness,
        stride: 2,
        found,
        walker: if left {
            s.left
        } else {
            s.right
        },
        ascends: left == left_ascends(s.parameters),
    }
}

/// A centered stroke and the searches for the two edges go the same way:
/// the stroke ends with the outermost parallel of the search on its left,
/// and, if it has an odd number of parallels, with that of the search on
/// its right, where that search finds any.
proof fn lemma_stroke_follows_sides(s: Search, left: Option<Parallel>, right: Option<Parallel>)
    requires
        s.inv(),
        s.alignment == StrokeAlignment::Center,
        s.produced >= 1,
        side_of(s, true, (s.produced / 2) as nat).inv(),
        side_of(s, false, ((s.produced - 1) / 2) as nat).inv(),
    ensures
        s.outermost(left, right).0 == side_of(s, true, (s.produced / 2) as nat).outermost(left),
        s.total() % 2 == 1 ==> s.outermost(left, right).1 == side_of(
            s,
            false,
            ((s.produced - 1) / 2) as nat,
        ).outermost(right),
        s.total() >= s.produced,
    decreases 2 * s.thickness - s.produced,
{
    let p = s.parameters;
    let k = s.produced as int;
    let l = side_of(s, true, (k / 2) as nat);
    let r = side_of(s, false, ((k - 1) / 2) as nat);
    if s.exhausted() {
        lemma_thicker_with_more(p, s.thickness, k, k + 1);
        assert(l.reach() == k || l.reach() == k + 1);
        assert(l.exhausted());
        if k % 2 == 1 {
            assert(r.reach() == k);
        }
    } else {
        lemma_search_bounded(s);
        lemma_step_keeps_inv(s);
        let next = s.step().0;
        let parallel = s.step().1;
        if k % 2 == 1 {
            assert(l.reach() == k);
            lemma_side_step(l);
            assert(l.step().0 == side_of(next, true, (next.produced / 2) as nat));
            assert(r == side_of(next, false, ((next.produced - 1) / 2) as nat));
            lemma_stroke_follows_sides(next, Some(parallel), right);
        } else {
            assert(r.reach() == k - 1);
            if r.exhausted() {
                lemma_thicker_with_more(p, s.thickness, k - 1, k);
            }
            lemma_side_step(r);
            assert(r.step().0 == side_of(next, false, ((next.produced - 1) / 2) as nat));
            assert(l == side_of(next, true, (next.produced / 2) as nat));
            lemma_stroke_follows_sides(next, left, Some(parallel));
        }
    }
}

/// The left edge of a line is the edge that the outermost parallel on the
/// left of the centered stroke makes: the pixels of the stroke reach the
/// left edge, and none lies beyond it.
pub proof fn lemma_left_edge_bounds_the_stroke(line: Line, thickness: int)
    requires
        line.in_bounds(),
        0 <= thickness <= THICKNESS_MAX,
    ensures
        line.edge(
            Search::start(line, thickness, StrokeAlignment::Center).outermost(None, None).0,
        ) == line.spec_extents(thickness).0,
{
    let s = Search::start(line, thickness, StrokeAlignment::Center);
    let p = s.parameters;
    lemma_start_inv(line, thickness, StrokeAlignment::Center);
    lemma_side_start_inv(line, thickness, 2, left_ascends(p));
    lemma_side_start_inv(line, thickness, 2, !left_ascends(p));
    let l = SideSearch::start(line, thickness, 2, left_ascends(p));
    if s.exhausted() {
        lemma_thicker_with_more(p, thickness, 0, 1);
        assert(l.reach() == 1);
    } else {
        lemma_step_keeps_inv(s);
        let next = s.step().0;
        assert(side_of(next, true, 0) == l);
        assert(side_of(next, false, 0) == SideSearch::start(line, thickness, 2, !left_ascends(p)));
        lemma_stroke_follows_sides(next, None, Some(s.step().1));
    }
}

/// The edge that the line in the middle makes, taken as a parallel, is the
/// line itself.
proof fn lemma_edge_of_middle_line(line: Line)
    requires
        line.in_bounds(),
    ensures
        line.edge(Some(Search::start(line, 0, StrokeAlignment::Center).right.parallel_here()))
            == line,
{
    let p = BresenhamParameters::spec_new(shaping_line(line));
    if line.start == line.end {
        lemma_fundamental_div_mod_converse(0, 2, 0, 0);
        assert(0 * p.error_step_major == 0);
        assert(0 * p.position_step_major.x == 0 && 0 * p.position_step_major.y == 0);
        assert(0 * p.position_step_minor.x == 0 && 0 * p.position_step_minor.y == 0);
    } else {
        lemma_pixels_span_line(line);
    }
}

/// Where the centered stroke has an odd number of parallels, the right
/// edge of the line is the edge that the outermost parallel on the right
/// of the stroke makes. Where their number is even, the stroke has one
/// parallel less on the right than on the left, and the right edge lies
/// one parallel beyond its pixels.
pub proof fn lemma_right_edge_bounds_the_stroke(line: Line, thickness: int)
    requires
        line.in_bounds(),
        0 <= thickness <= THICKNESS_MAX,
        Search::start(line, thickness, StrokeAlignment::Center).total() % 2 == 1,
    ensures
        line.edge(
            Search::start(line, thickness, StrokeAlignment::Center).outermost(None, None).1,
        ) == line.spec_extents(thickness).1,
{
    let s = Search::start(line, thickness, StrokeAlignment::Center);
    let p = s.parameters;
    lemma_start_inv(line, thickness, StrokeAlignment::Center);
    lemma_side_start_inv(line, thickness, 2, left_ascends(p));
    lemma_side_start_inv(line, thickness, 2, !left_ascends(p));
    let r = SideSearch::start(line, thickness, 2, !left_ascends(p));
    lemma_step_keeps_inv(s);
    let next = s.step().0;
    let middle = s.step().1;
    assert(side_of(next, true, 0) == SideSearch::start(line, thickness, 2, left_ascends(p)));
    assert(side_of(next, false, 0) == r);
    lemma_stroke_follows_sides(next, None, Some(middle));
    lemma_edge_of_middle_line(line);
    if !r.exhausted() {
        lemma_side_step(r);
        assert(r.outermost(Some(middle)) == r.outermost(None));
    }
}

} // verus!
