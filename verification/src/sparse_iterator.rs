//! Pixels of a rectangle of which only some have a color.

use vstd::prelude::*;
use vstd::std_specs::iter::IteratorSpec;
use crate::geometry::{Point, Rectangle, RectanglePoints};

verus! {

/// A pixel: a position with a color.
#[derive(Debug, PartialEq, Eq)]
pub struct Pixel<C>(pub Point, pub C);

/// Iterator over the colored pixels of a rectangle.
///
/// The colors are given for the pixels of the rectangle in their order, row
/// by row. A pixel whose color is `None` is left out.
#[verifier::reject_recursive_types(C)]
#[verifier::reject_recursive_types(I)]
pub struct SparseIterator<C, I: Iterator<Item = Option<C>>> {
    area: RectanglePoints,
    colors: I,
}

impl<C, I: Iterator<Item = Option<C>>> SparseIterator<C, I> {
    /// The rectangle whose pixels are produced.
    pub closed spec fn area(self) -> Rectangle {
        self.area.area()
    }

    /// The iterator that gives the colors of the pixels still to come.
    pub closed spec fn colors(self) -> I {
        self.colors
    }

    /// The number of pixels of the rectangle passed so far, colored or not.
    pub closed spec fn position(self) -> nat {
        self.area.produced()
    }

    /// Whether the iterator stands on a pixel of its rectangle or at its end.
    pub closed spec fn wf(self) -> bool {
        self.area.wf()
    }

    /// Creates the iterator over the pixels of `area` that `iter` gives a
    /// color, the colors taken in the order of the pixels.
    pub fn new(area: Rectangle, iter: I) -> (it: Self)
        requires
            area.extent_fits(),
        ensures
            it.wf(),
            it.area() == area,
            it.position() == 0,
            it.colors() == iter,
    {
        SparseIterator { area: area.points(), colors: iter }
    }

    /// Returns the next pixel that has a color.
    ///
    /// Pixels and colors are taken in pairs until a color is found. The
    /// end is reached when the rectangle has no pixel left, or the colors
    /// run out.
    pub fn next(&mut self) -> (r: Option<Pixel<C>>)
        requires
            old(self).wf(),
        ensures
            final(self).wf(),
            final(self).area() == old(self).area(),
            old(self).position() <= final(self).position(),
            old(self).position() >= old(self).area().cell_count() ==> r is None,
            match r {
                Some(Pixel(point, color)) => {
                    &&& old(self).position() < final(self).position()
                    &&& final(self).position() <= old(self).area().cell_count()
                    &&& point == old(self).area().spec_cell((final(self).position() - 1) as nat)
                },
                None => true,
            },
            old(self).colors().obeys_prophetic_iter_laws() ==> ({
                let colors = old(self).colors().remaining();
                let start = old(self).position();
                let cells = old(self).area().cell_count();
                match r {
                    Some(Pixel(point, color)) => exists|j: int|
                        {
                            &&& 0 <= j < colors.len()
                            &&& start + j < cells
                            &&& forall|i: int| 0 <= i < j ==> (#[trigger] colors[i]) is None
                            &&& #[trigger] colors[j] == Some(color)
                            &&& point == old(self).area().spec_cell((start + j) as nat)
                            &&& final(self).position() == start + j + 1
                            &&& final(self).colors().remaining() == colors.skip(j + 1)
                        },
                    None => forall|j: int|
                        0 <= j < colors.len() && start + j < cells ==> (#[trigger] colors[j])
                            is None,
                }
            }),
    {
        let ghost colors = self.colors.remaining();
        let ghost start = self.position();
        let ghost cells = self.area().cell_count();
        let ghost mut n: int = 0;
        proof {
            self.area.lemma_produced_bounded();
        }
        loop
            invariant
                self.wf(),
                self.area() == old(self).area(),
                cells == self.area().cell_count(),
                start == old(self).position(),
                colors == old(self).colors().remaining(),
                0 <= n,
                self.position() == start + n,
                start + n <= cells,
                self.colors.obeys_prophetic_iter_laws() == old(
                    self,
                ).colors.obeys_prophetic_iter_laws(),
                self.colors.obeys_prophetic_iter_laws() ==> {
                    &&& n <= colors.len()
                    &&& self.colors.remaining() == colors.skip(n)
                    &&& forall|i: int| 0 <= i < n ==> (#[trigger] colors[i]) is None
                },
            decreases cells - start - n,
        {
            let point = match self.area.next() {
                None => {
                    return None;
                },
                Some(point) => point,
            };
            let ghost before = self.colors.remaining();
            let color = match self.colors.next() {
                None => {
                    proof {
                        if self.colors.obeys_prophetic_iter_laws() {
                            assert(before.len() == colors.len() - n);
                        }
                    }
                    return None;
                },
                Some(color) => color,
            };
            proof {
                if self.colors.obeys_prophetic_iter_laws() {
                    assert(before.len() == colors.len() - n);
                    assert(colors.skip(n)[0] == colors[n]);
                    assert(colors.skip(n).drop_first() == colors.skip(n + 1));
                }
                self.area.lemma_produced_bounded();
            }
            if let Some(color) = color {
                proof {
                    if self.colors.obeys_prophetic_iter_laws() {
                        assert(colors[n] == Some(color));
                    }
                }
                return Some(Pixel(point, color));
            }
            proof {
                n = n + 1;
            }
        }
    }
}

} // verus!
