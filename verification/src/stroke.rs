//! The pixels of a thick line.
//!
//! A thick line is drawn parallel by parallel: the line in the middle
//! first, then the parallels that the search finds beside it, each walked
//! from its start by a stepper. A horizontal or vertical line of some
//! thickness is drawn as that many rows of pixels; where their number is
//! even, the row that has no partner lies on the left of the line.

use vstd::prelude::*;
use crate::bresenham::{lemma_closed_form, major_length, Bresenham, BresenhamParameters, Cursor};
use crate::geometry::{spec_point, Point, COORD_MAX, THICKNESS_MAX};
use crate::line::Line;
use crate::points::lemma_pixels_span_line;
use crate::thick_points::{
    lemma_hairline_search, lemma_search_bounded, lemma_start_inv, lemma_step_keeps_inv,
    ParallelsIterator, Search, StrokeAlignment,
};

verus! {

/// The pixels of a thick line as a state machine: the search for the
/// parallels, and the walk along the parallel found last.
pub struct Stroke {
    /// The search for the parallels.
    pub search: Search,
    /// The stepper on the parallel found last.
    pub current: Cursor,
    /// The number of pixels still to come on that parallel.
    pub remaining: nat,
    /// The number of pixels of a full parallel.
    pub length: nat,
}

impl Stroke {
    /// The stroke of `line` at `thickness` with the given alignment, before
    /// its first pixel.
    pub open spec fn start(line: Line, thickness: int, alignment: StrokeAlignment) -> Stroke {
        Stroke {
            search: Search::start(line, thickness, alignment),
            current: line.origin(),
            remaining: 0,
            length: line.spec_major_length() as nat,
        }
    }

    /// Whether no pixel is left: the parallel is walked to its end and the
    /// search finds no other.
    pub open spec fn finished(self) -> bool {
        self.remaining == 0 && self.search.exhausted()
    }

    /// The next pixel of the stroke and the stroke after it.
    ///
    /// On a parallel, that is the pixel its stepper reports. At the end of a
    /// parallel the search moves on, and the pixel is the first of the
    /// parallel it finds.
    pub open spec fn step(self) -> (Stroke, int, int) {
        let p = self.search.parameters;
        if self.remaining > 0 {
            (
                Stroke {
                    search: self.search,
                    current: self.current.step(p),
                    remaining: (self.remaining - 1) as nat,
                    length: self.length,
                },
                self.current.current_x(p),
                self.current.current_y(p),
            )
        } else {
            let (search, parallel, side) = self.search.step();
            (
                Stroke {
                    search,
                    current: parallel.start.step(p),
                    remaining: (self.length - parallel.reduction - 1) as nat,
                    length: self.length,
                },
                parallel.start.current_x(p),
                parallel.start.current_y(p),
            )
        }
    }

    /// All pixels of the stroke still to come, in their order.
    pub open spec fn pixels(self) -> Seq<Point>
        decreases 2 * self.search.thickness - self.search.produced, self.remaining,
        when self.inv()
    {
        if self.finished() {
            Seq::empty()
        } else {
            proof {
                lemma_stroke_step(self);
                if self.remaining == 0 {
                    lemma_search_bounded(self.search);
                    lemma_step_keeps_inv(self.search);
                }
            }
            let (next, x, y) = self.step();
            seq![spec_point(x, y)] + next.pixels()
        }
    }

    /// What every stroke of a supported line and thickness keeps true.
    pub open spec fn inv(self) -> bool {
        let p = self.search.parameters;
        let reach = COORD_MAX + 2 * THICKNESS_MAX + 1 + 2 * (self.length - self.remaining);
        &&& self.search.inv()
        &&& 1 <= self.length <= 2 * COORD_MAX + 1
        &&& self.remaining < self.length
        &&& p.error_step_major > 0 ==> self.length >= 2
        &&& self.remaining > 0 ==> {
            &&& -reach <= self.current.x <= reach
            &&& -reach <= self.current.y <= reach
            &&& self.current.error_in_range(p)
        }
    }
}

/// A step of a stroke that is not finished keeps the stroke's invariant
/// and reports a pixel with representable coordinates.
pub proof fn lemma_stroke_step(s: Stroke)
    requires
        s.inv(),
        !s.finished(),
    ensures
        s.step().0.inv(),
        i32::MIN <= s.step().1 <= i32::MAX,
        i32::MIN <= s.step().2 <= i32::MAX,
{
    let p = s.search.parameters;
    if s.remaining > 0 {
        lemma_closed_form(s.current, p, 1);
        assert(s.current.advance(p, 1) == s.current.advance(p, 0).step(p));
    } else {
        lemma_search_bounded(s.search);
        lemma_step_keeps_inv(s.search);
        let parallel = s.search.step().1;
        lemma_closed_form(parallel.start, p, 1);
        assert(parallel.start.advance(p, 1) == parallel.start.advance(p, 0).step(p));
    }
}

/// Iterator over the pixels of a thick line.
///
/// The pixels come parallel by parallel: the line in the middle first,
/// then in turn the parallels to its left and to its right, each walked
/// from its start.
#[derive(Copy, Clone, Debug)]
pub struct ThickPoints {
    parallel: Bresenham,
    parallel_length: u64,
    parallel_points_remaining: u64,
    iter: ParallelsIterator,
}

impl View for ThickPoints {
    type V = Stroke;

    closed spec fn view(&self) -> Stroke {
        Stroke {
            search: self.iter@,
            current: self.parallel@,
            remaining: self.parallel_points_remaining as nat,
            length: self.parallel_length as nat,
        }
    }
}

impl ThickPoints {
    /// Whether the iterator's numbers are those of the stroke it stands for.
    pub closed spec fn wf(self) -> bool {
        self.iter.wf() && self@.inv()
    }

    /// Creates the iterator over the pixels of `line` stroked at
    /// `thickness`, the stroke centered on the line.
    pub fn new(line: &Line, thickness: i32) -> (it: ThickPoints)
        requires
            line.in_bounds(),
            0 <= thickness <= THICKNESS_MAX,
        ensures
            it.wf(),
            it@ == Stroke::start(*line, thickness as int, StrokeAlignment::Center),
            thickness == 0 ==> it@.finished(),
    {
        Self::with_alignment(line, thickness, StrokeAlignment::Center)
    }

    /// Creates the iterator over the pixels of `line` stroked at `thickness`
    /// with the given alignment.
    pub fn with_alignment(line: &Line, thickness: i32, alignment: StrokeAlignment) -> (it:
        ThickPoints)
        requires
            line.in_bounds(),
            0 <= thickness <= THICKNESS_MAX,
        ensures
            it.wf(),
            it@ == Stroke::start(*line, thickness as int, alignment),
            thickness == 0 ==> it@.finished(),
    {
        let it = ThickPoints {
            parallel: Bresenham::new(line.start),
            parallel_length: major_length(line),
            parallel_points_remaining: 0,
            iter: ParallelsIterator::with_alignment(line, thickness, alignment),
        };
        proof {
            let s = it@.search;
            assert(0 * (2 * s.major()) == 0);
            if thickness == 0 {
                assert(s.threshold() == 0) by (nonlinear_arith)
                    requires
                        s.threshold() == 4 * (s.thickness * s.thickness) * (s.major() * s.major()
                            + s.minor() * s.minor()),
                        s.thickness == 0,
                ;
                assert(s.accumulator() * s.accumulator() > 0) by (nonlinear_arith)
                    requires
                        s.accumulator() >= 1,
                ;
            }
        }
        it
    }

    /// Returns the next pixel of the thick line, or `None` after the last.
    pub fn next(&mut self) -> (r: Option<Point>)
        requires
            old(self).wf(),
        ensures
            final(self).wf(),
            old(self)@.finished() ==> r is None && *final(self) == *old(self),
            !old(self)@.finished() ==> match r {
                Some(point) => (final(self)@, point.x as int, point.y as int) == old(
                    self,
                )@.step(),
                None => false,
            },
            match r {
                Some(point) => old(self)@.pixels().len() > 0 && point == old(self)@.pixels()[0]
                    && final(self)@.pixels() == old(self)@.pixels().drop_first(),
                None => old(self)@.pixels().len() == 0,
            },
    {
        let p = self.iter.parameters();
        proof {
            if !self@.finished() {
                lemma_stroke_step(self@);
                let s = self@;
                let first = seq![spec_point(s.step().1, s.step().2)];
                assert((first + s.step().0.pixels()).drop_first() == s.step().0.pixels());
            }
        }
        if self.parallel_points_remaining > 0 {
            self.parallel_points_remaining = self.parallel_points_remaining - 1;
            return Some(self.parallel.next(&p));
        }
        match self.iter.next() {
            None => None,
            Some((stepper, reduction, side)) => {
                self.parallel = stepper;
                self.parallel_points_remaining = self.parallel_length - reduction - 1;
                Some(self.parallel.next(&p))
            },
        }
    }
}

impl Line {
    /// The pixels of the line stroked at `thickness`, centered on the line,
    /// in the order in which they are drawn.
    pub open spec fn spec_thick_pixels(self, thickness: int) -> Seq<Point> {
        Stroke::start(self, thickness, StrokeAlignment::Center).pixels()
    }

    /// Returns an iterator over the pixels of the line stroked at
    /// `thickness`. At a thickness of zero it has no pixels.
    pub fn thick_points(&self, thickness: i32) -> (it: ThickPoints)
        requires
            self.in_bounds(),
            0 <= thickness <= THICKNESS_MAX,
        ensures
            it.wf(),
            it@ == Stroke::start(*self, thickness as int, StrokeAlignment::Center),
            it@.pixels() == self.spec_thick_pixels(thickness as int),
            thickness == 0 ==> it@.pixels().len() == 0,
    {
        ThickPoints::new(self, thickness)
    }
}

/// Once the search is exhausted, what is left of a stroke on the line in
/// the middle is the rest of the line's pixels.
proof fn lemma_rest_of_middle_line(line: Line, s: Stroke, j: nat)
    requires
        line.start != line.end,
        s.inv(),
        s.search.exhausted(),
        s.search.parameters == BresenhamParameters::spec_new(line),
        s.length == line.spec_major_length(),
        1 <= j <= s.length,
        s.remaining == s.length - j,
        s.current == line.origin().advance(s.search.parameters, j),
    ensures
        s.pixels() == line.spec_pixels().skip(j as int),
    decreases s.remaining,
{
    let p = s.search.parameters;
    if s.remaining > 0 {
        lemma_stroke_step(s);
        lemma_closed_form(line.origin(), p, j);
        let next = s.step().0;
        assert(next.current == line.origin().advance(p, j + 1));
        lemma_rest_of_middle_line(line, next, j + 1);
        assert(spec_point(s.step().1, s.step().2) == line.spec_pixel(j));
        assert(seq![line.spec_pixel(j)] + line.spec_pixels().skip((j + 1) as int)
            == line.spec_pixels().skip(j as int));
    } else {
        assert(line.spec_pixels().skip(j as int) == Seq::<Point>::empty());
    }
}

/// A stroke of thickness one has the pixels of the line, and no others.
pub proof fn lemma_stroke_of_hairline(line: Line)
    requires
        line.in_bounds(),
    ensures
        line.spec_thick_pixels(1) == line.spec_pixels(),
{
    let s = Stroke::start(line, 1, StrokeAlignment::Center);
    let p = s.search.parameters;
    lemma_start_inv(line, 1, StrokeAlignment::Center);
    lemma_hairline_search(line, StrokeAlignment::Center);
    lemma_stroke_step(s);
    lemma_pixels_span_line(line);
    let next = s.step().0;
    assert(s.inv() && !s.finished());
    assert(s.pixels() == seq![spec_point(s.step().1, s.step().2)] + next.pixels());
    assert(spec_point(s.step().1, s.step().2) == line.start);
    if line.start == line.end {
        assert(next.inv() && next.finished());
        assert(next.pixels() == Seq::<Point>::empty());
        assert(seq![line.start] + Seq::<Point>::empty() == line.spec_pixels());
    } else {
        assert(next.current == line.origin().advance(p, 1)) by {
            assert(line.origin().advance(p, 1) == line.origin().advance(p, 0).step(p));
        }
        lemma_rest_of_middle_line(line, next, 1);
        assert(seq![line.spec_pixel(0)] + line.spec_pixels().skip(1) == line.spec_pixels());
    }
}

} // verus!
