//! Moving a line moves its edges with it.
//!
//! The search for the parallels of a line looks at the extents of the line
//! only, never at where the line lies. So the parallels of a line that is
//! moved by some vector are the parallels of the line, moved by that vector,
//! and so are its edges.

use vstd::prelude::*;
use crate::bresenham::{BresenhamParameters, Cursor};
use crate::extents::{
    lemma_minor_moves_bound, lemma_outermost_parallel_in_reach, lemma_side_start_inv,
    lemma_side_step, parallel_in_reach, strides, SideSearch,
};
use crate::geometry::{Point, THICKNESS_MAX};
use crate::line::Line;
use crate::points::lemma_times_unit;
use crate::thick_points::{left_ascends, shaping_line, Parallel, StrokeAlignment, Walker};

verus! {

impl Walker {
    /// The walk moved by `(vx, vy)`.
    pub open spec fn moved(self, vx: int, vy: int) -> Walker {
        Walker {
            x: self.x + vx,
            y: self.y + vy,
            parallel_error: self.parallel_error,
            perpendicular_error: self.perpendicular_error,
            pending: self.pending,
        }
    }
}

impl Parallel {
    /// The parallel moved by `(vx, vy)`.
    pub open spec fn moved(self, vx: int, vy: int) -> Parallel {
        Parallel {
            start: Cursor { x: self.start.x + vx, y: self.start.y + vy, error: self.start.error },
            reduction: self.reduction,
        }
    }
}

/// The parallel moved by `(vx, vy)`, if there is one.
pub open spec fn moved_parallel(parallel: Option<Parallel>, vx: int, vy: int) -> Option<Parallel> {
    match parallel {
        None => None,
        Some(q) => Some(q.moved(vx, vy)),
    }
}

impl SideSearch {
    /// The search with its walk moved by `(vx, vy)`.
    pub open spec fn moved(self, vx: int, vy: int) -> SideSearch {
        SideSearch {
            parameters: self.parameters,
            thickness: self.thickness,
            stride: self.stride,
            found: self.found,
            walker: self.walker.moved(vx, vy),
            ascends: self.ascends,
        }
    }
}

/// A step of a search that is moved is the step of the search, moved.
pub proof fn lemma_step_of_moved_search(s: SideSearch, vx: int, vy: int)
    ensures
        s.moved(vx, vy).exhausted() == s.exhausted(),
        s.moved(vx, vy).step().0 == s.step().0.moved(vx, vy),
        s.moved(vx, vy).step().1 == s.step().1.moved(vx, vy),
{
}

/// The outermost parallel of a search that is moved is that of the search,
/// moved.
pub proof fn lemma_outermost_of_moved_search(
    s: SideSearch,
    last: Option<Parallel>,
    vx: int,
    vy: int,
)
    requires
        s.inv(),
        s.moved(vx, vy).inv(),
    ensures
        s.moved(vx, vy).outermost(moved_parallel(last, vx, vy)) == moved_parallel(
            s.outermost(last),
            vx,
            vy,
        ),
    decreases 2 * s.thickness - s.found,
{
    lemma_step_of_moved_search(s, vx, vy);
    if !s.exhausted() {
        lemma_side_step(s);
        lemma_side_step(s.moved(vx, vy));
        lemma_outermost_of_moved_search(s.step().0, Some(s.step().1), vx, vy);
    }
}

/// The edge that a moved parallel makes beside a moved line is the edge
/// that the parallel makes beside the line, moved.
proof fn lemma_edge_of_moved_parallel(line: Line, by: Point, parallel: Option<Parallel>)
    requires
        line.in_bounds(),
        line.spec_translate(by).in_bounds(),
        line.can_translate(by),
        parallel_in_reach(BresenhamParameters::spec_new(shaping_line(line)), parallel),
    ensures
        line.spec_translate(by).edge(moved_parallel(parallel, by.x as int, by.y as int))
            == line.edge(parallel).spec_translate(by),
{
    let moved = line.spec_translate(by);
    let p = BresenhamParameters::spec_new(shaping_line(line));
    assert(BresenhamParameters::spec_new(shaping_line(moved)) == p);
    if let Some(q) = parallel {
        let k = (line.major_delta() - q.reduction) as nat;
        let c = Cursor { x: q.start.x, y: q.start.y, error: 0 };
        let m = c.minor_moves(p, k);
        lemma_minor_moves_bound(c, p, k);
        lemma_times_unit(k as int, p.position_step_major.x as int);
        lemma_times_unit(k as int, p.position_step_major.y as int);
        lemma_times_unit(m, p.position_step_minor.x as int);
        lemma_times_unit(m, p.position_step_minor.y as int);
    }
}

/// The outermost parallel on a side of a line that is moved is that of the
/// line, moved.
proof fn lemma_side_of_moved_line(
    line: Line,
    by: Point,
    thickness: int,
    stride: Option<int>,
    left: bool,
)
    requires
        line.in_bounds(),
        line.can_translate(by),
        line.spec_translate(by).in_bounds(),
        0 <= thickness <= THICKNESS_MAX,
        stride matches Some(n) ==> 1 <= n <= 2,
    ensures
        line.spec_translate(by).edge(
            line.spec_translate(by).outermost_parallel(thickness, stride, left),
        ) == line.edge(line.outermost_parallel(thickness, stride, left)).spec_translate(by),
{
    let moved = line.spec_translate(by);
    let p = BresenhamParameters::spec_new(shaping_line(line));
    assert(BresenhamParameters::spec_new(shaping_line(moved)) == p);
    let vx = by.x as int;
    let vy = by.y as int;
    if let Some(n) = stride {
        let up = left == left_ascends(p);
        let s = SideSearch::start(line, thickness, n, up);
        lemma_side_start_inv(line, thickness, n, up);
        lemma_side_start_inv(moved, thickness, n, up);
        assert(SideSearch::start(moved, thickness, n, up) == s.moved(vx, vy));
        lemma_outermost_of_moved_search(s, None, vx, vy);
    }
    lemma_outermost_parallel_in_reach(line, thickness, stride, left);
    lemma_edge_of_moved_parallel(line, by, line.outermost_parallel(thickness, stride, left));
}

/// The edges of a line that is moved are the edges of the line, moved.
pub proof fn lemma_extents_of_moved_line(
    line: Line,
    by: Point,
    thickness: int,
    alignment: StrokeAlignment,
)
    requires
        line.in_bounds(),
        line.can_translate(by),
        line.spec_translate(by).in_bounds(),
        0 <= thickness <= THICKNESS_MAX,
    ensures
        line.spec_translate(by).spec_extents_aligned(thickness, alignment).0
            == line.spec_extents_aligned(thickness, alignment).0.spec_translate(by),
        line.spec_translate(by).spec_extents_aligned(thickness, alignment).1
            == line.spec_extents_aligned(thickness, alignment).1.spec_translate(by),
{
    lemma_side_of_moved_line(line, by, thickness, strides(alignment).0, true);
    lemma_side_of_moved_line(line, by, thickness, strides(alignment).1, false);
}

} // verus!
