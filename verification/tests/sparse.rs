use stroke_geometry::geometry::{Point, Rectangle, Size};
use stroke_geometry::sparse_iterator::{Pixel, SparseIterator};

#[test]
fn rectangle_points_come_row_by_row() {
    let mut points = Rectangle::new(Point::new(-1, 4), Size::new(3, 2)).points();
    let mut found = Vec::new();
    while let Some(p) = points.next() {
        found.push((p.x, p.y));
    }
    assert_eq!(found, vec![(-1, 4), (0, 4), (1, 4), (-1, 5), (0, 5), (1, 5)]);
    assert_eq!(points.next(), None);
}

#[test]
fn rectangle_without_area_has_no_points() {
    assert_eq!(Rectangle::new(Point::new(3, 3), Size::new(0, 5)).points().next(), None);
    assert_eq!(Rectangle::new(Point::new(3, 3), Size::new(5, 0)).points().next(), None);
}

#[test]
fn rectangle_points_reach_the_limits_of_the_grid() {
    let mut points = Rectangle::new(Point::new(i32::MAX - 1, i32::MAX), Size::new(2, 1)).points();
    assert_eq!(points.next(), Some(Point::new(i32::MAX - 1, i32::MAX)));
    assert_eq!(points.next(), Some(Point::new(i32::MAX, i32::MAX)));
    assert_eq!(points.next(), None);
}

#[test]
fn sparse_iterator_leaves_out_pixels_without_color() {
    let colors = vec![None, Some('a'), None, None, Some('b'), Some('c')];
    let area = Rectangle::new(Point::new(10, 20), Size::new(3, 2));
    let mut it = SparseIterator::new(area, colors.into_iter());
    assert_eq!(it.next(), Some(Pixel(Point::new(11, 20), 'a')));
    assert_eq!(it.next(), Some(Pixel(Point::new(11, 21), 'b')));
    assert_eq!(it.next(), Some(Pixel(Point::new(12, 21), 'c')));
    assert_eq!(it.next(), None);
}

#[test]
fn sparse_iterator_ends_with_the_rectangle() {
    let colors = vec![Some(1u8), None, Some(3), Some(4)];
    let area = Rectangle::new(Point::new(0, 0), Size::new(1, 3));
    let mut it = SparseIterator::new(area, colors.into_iter());
    assert_eq!(it.next(), Some(Pixel(Point::new(0, 0), 1)));
    assert_eq!(it.next(), Some(Pixel(Point::new(0, 2), 3)));
    assert_eq!(it.next(), None);
}

#[test]
fn sparse_iterator_ends_with_the_colors() {
    let colors = vec![None, Some(7u8)];
    let area = Rectangle::new(Point::new(0, 0), Size::new(4, 4));
    let mut it = SparseIterator::new(area, colors.into_iter());
    assert_eq!(it.next(), Some(Pixel(Point::new(1, 0), 7)));
    assert_eq!(it.next(), None);
}

#[test]
fn sparse_iterator_without_colors_is_empty() {
    let colors: Vec<Option<u8>> = vec![None, None, None];
    let area = Rectangle::new(Point::new(0, 0), Size::new(2, 2));
    let mut it = SparseIterator::new(area, colors.into_iter());
    assert_eq!(it.next(), None);
}
