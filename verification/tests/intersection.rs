use stroke_geometry::geometry::{Point, Rectangle, Size};
use stroke_geometry::intersection::Intersection;
use stroke_geometry::line::{same_signs, Line};

fn line(x1: i32, y1: i32, x2: i32, y2: i32) -> Line {
    Line::new(Point::new(x1, y1), Point::new(x2, y2))
}

#[test]
fn crossing_diagonals_meet_in_the_middle() {
    let a = line(0, 0, 10, 10);
    let b = line(0, 10, 10, 0);
    assert_eq!(a.intersection(&b), Some((Point::new(5, 5), true)));
    assert_eq!(b.intersection(&a), Some((Point::new(5, 5), true)));
    assert!(a.segment_intersection(&b));
}

#[test]
fn parallel_lines_do_not_intersect() {
    let a = line(0, 0, 10, 0);
    let b = line(0, 5, 10, 5);
    assert_eq!(a.intersection(&b), None);
    assert_eq!(a.line_intersection(&b), Intersection::Colinear);
    assert!(!a.segment_intersection(&b));
}

#[test]
fn overlapping_lines_do_not_intersect() {
    let a = line(0, 0, 10, 0);
    let b = line(5, 0, 20, 0);
    assert_eq!(a.intersection(&b), None);
    assert!(!a.segment_intersection(&b));
}

#[test]
fn crossing_off_the_segments() {
    let a = line(0, 0, 1, 1);
    let b = line(5, 0, 5, 1);
    assert_eq!(a.intersection(&b), Some((Point::new(5, 5), false)));
    assert!(!a.segment_intersection(&b));
}

#[test]
fn touching_ends_count_as_intersecting() {
    let a = line(0, 0, 5, 5);
    let b = line(5, 5, 5, 9);
    assert_eq!(a.intersection(&b), Some((Point::new(5, 5), true)));
    assert!(a.segment_intersection(&b));
}

#[test]
fn crossing_is_rounded_half_away_from_zero() {
    // The exact crossings are (1/2, 1/2) and (-1/2, -1/2).
    assert_eq!(line(0, 0, 1, 1).intersection(&line(0, 1, 1, 0)), Some((Point::new(1, 1), true)));
    assert_eq!(
        line(0, 0, -1, -1).intersection(&line(0, -1, -1, 0)),
        Some((Point::new(-1, -1), true))
    );
}

#[test]
fn crossing_is_rounded_to_the_nearest() {
    // The exact crossings are (1, 1/3), (1, 2/3) and (1, -2/3).
    assert_eq!(line(0, 0, 3, 1).intersection(&line(1, 0, 1, 5)), Some((Point::new(1, 0), true)));
    assert_eq!(line(0, 0, 3, 2).intersection(&line(1, 0, 1, 5)), Some((Point::new(1, 1), true)));
    assert_eq!(
        line(0, 0, 3, -2).intersection(&line(1, 0, 1, 5)),
        Some((Point::new(1, -1), false))
    );
}

#[test]
fn crossing_beyond_the_grid_is_told_apart() {
    let a = line(0, 0, i32::MAX, 1);
    let b = line(0, 2, i32::MAX, 2);
    assert_eq!(a.line_intersection(&b), Intersection::OutOfRange);
    assert!(!a.segment_intersection(&b));
}

#[test]
fn crossing_of_lines_at_the_limits_of_the_grid() {
    // The diagonals of the whole grid cross at (-1/2, -1/2).
    let a = line(i32::MIN, i32::MIN, i32::MAX, i32::MAX);
    let b = line(i32::MIN, i32::MAX, i32::MAX, i32::MIN);
    assert_eq!(
        a.line_intersection(&b),
        Intersection::Point { point: Point::new(-1, -1), on_segments: true }
    );
}

#[test]
fn same_signs_treats_zero_as_positive() {
    assert!(same_signs(3, 7));
    assert!(same_signs(-3, -7));
    assert!(!same_signs(3, -7));
    assert!(!same_signs(-3, 7));
    assert!(same_signs(0, 7));
    assert!(!same_signs(0, -7));
    assert!(same_signs(i32::MAX, 1));
    assert!(!same_signs(i32::MIN, i32::MAX));
}

#[test]
fn bounding_box_of_a_single_pixel() {
    assert_eq!(
        line(4, -4, 4, -4).bounding_box(),
        Rectangle::new(Point::new(4, -4), Size::new(1, 1))
    );
}

#[test]
fn bounding_box_ignores_direction() {
    let lines = [line(3, 9, -2, 4), line(0, 0, 5, -5), line(-1, -1, -1, 8)];
    for l in lines {
        assert_eq!(l.bounding_box(), l.reversed().bounding_box());
    }
    assert_eq!(line(3, 9, -2, 4).bounding_box(), Rectangle::new(Point::new(-2, 4), Size::new(6, 6)));
}

#[test]
fn translate_there_and_back() {
    let l = line(5, 10, 15, 20);
    let by = Point::new(10, -7);
    let moved = l.translate(by);
    assert_eq!(moved, line(15, 3, 25, 13));
    assert_eq!(moved.translate(by.negated()), l);

    let mut m = l;
    m.translate_mut(Point::new(10, 10));
    assert_eq!(m, line(15, 20, 25, 30));
}

#[test]
fn split_in_half_meets_at_the_center() {
    let (a, b) = line(0, 0, 10, 4).split_in_half();
    assert_eq!(a, line(0, 0, 5, 2));
    assert_eq!(b, line(5, 2, 10, 4));

    let (a, b) = line(10, 0, 0, 10).split_in_half();
    assert_eq!(a, line(10, 0, 5, 5));
    assert_eq!(b, line(5, 5, 0, 10));

    // An odd extent is halved towards the top left.
    let (a, b) = line(3, 3, 0, 0).split_in_half();
    assert_eq!(a, line(3, 3, 1, 1));
    assert_eq!(b, line(1, 1, 0, 0));
}

#[test]
fn length_squared_by_axis() {
    assert_eq!(line(1, 1, 4, -3).length_squared(), Size::new(9, 16));
    assert_eq!(line(0, 0, 0, 0).length_squared(), Size::new(0, 0));
    assert_eq!(line(0, 0, -65535, 65535).length_squared(), Size::new(4_294_836_225, 4_294_836_225));
}

#[test]
fn rectangle_center() {
    assert_eq!(Rectangle::new(Point::new(2, 2), Size::new(5, 4)).center(), Point::new(4, 3));
    assert_eq!(Rectangle::new(Point::new(2, 2), Size::new(0, 0)).center(), Point::new(2, 2));
    assert_eq!(Rectangle::with_corners(Point::new(9, 1), Point::new(1, 9)).center(), Point::new(5, 5));
}
