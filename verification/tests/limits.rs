use stroke_geometry::geometry::{Point, COORD_MAX, THICKNESS_MAX};
use stroke_geometry::joint::{Joint, JointKind};
use stroke_geometry::line::Line;
use stroke_geometry::thick_points::StrokeAlignment;

fn line(x1: i32, y1: i32, x2: i32, y2: i32) -> Line {
    Line::new(Point::new(x1, y1), Point::new(x2, y2))
}

fn stroke(l: Line, thickness: i32) -> Vec<Point> {
    let mut out = Vec::new();
    let mut it = l.thick_points(thickness);
    while let Some(p) = it.next() {
        out.push(p);
    }
    out
}

#[test]
fn supported_range() {
    assert_eq!(COORD_MAX, 268_435_456);
    assert_eq!(THICKNESS_MAX, 268_435_456);
}

#[test]
fn extents_in_the_corners_of_the_supported_range() {
    let near = line(2, 2, 20, 8);
    let (left, right) = near.extents(5);
    let corners = [
        Point::new(COORD_MAX - 20, COORD_MAX - 8),
        Point::new(-COORD_MAX - 2, COORD_MAX - 8),
        Point::new(COORD_MAX - 20, -COORD_MAX - 2),
        Point::new(-COORD_MAX - 2, -COORD_MAX - 2),
    ];
    for by in corners {
        let far = near.translate(by);
        assert_eq!(far.extents(5), (left.translate(by), right.translate(by)));
    }
}

#[test]
fn stroke_in_the_corners_of_the_supported_range() {
    let near = line(3, 2, 10, 9);
    let pixels = stroke(near, 7);
    assert_eq!(pixels.len(), 5 * 8 + 4 * 7);
    let by = Point::new(COORD_MAX - 10, -COORD_MAX - 2);
    let moved: Vec<Point> = pixels.iter().map(|p| p.plus(by)).collect();
    assert_eq!(stroke(near.translate(by), 7), moved);
}

#[test]
fn extents_of_the_longest_supported_line() {
    let l = line(-COORD_MAX, -COORD_MAX, COORD_MAX, COORD_MAX);
    assert_eq!(
        l.extents(3),
        (
            line(-COORD_MAX + 1, -COORD_MAX - 1, COORD_MAX + 1, COORD_MAX - 1),
            line(-COORD_MAX - 1, -COORD_MAX + 1, COORD_MAX - 1, COORD_MAX + 1),
        )
    );
    let flat = line(-COORD_MAX, COORD_MAX, COORD_MAX, COORD_MAX);
    assert_eq!(
        flat.extents(4),
        (
            line(-COORD_MAX, COORD_MAX - 2, COORD_MAX, COORD_MAX - 2),
            line(-COORD_MAX, COORD_MAX + 2, COORD_MAX, COORD_MAX + 2),
        )
    );
}

#[test]
fn extents_of_a_very_thick_line() {
    let l = line(0, 0, 3, 0);
    assert_eq!(l.extents(100_000), (line(0, -50_000, 3, -50_000), line(0, 50_000, 3, 50_000)));
    let dot = line(COORD_MAX, -COORD_MAX, COORD_MAX, -COORD_MAX);
    assert_eq!(
        dot.extents(2_000_001),
        (
            line(COORD_MAX, -COORD_MAX - 1_000_000, COORD_MAX, -COORD_MAX - 1_000_000),
            line(COORD_MAX, -COORD_MAX + 1_000_000, COORD_MAX, -COORD_MAX + 1_000_000),
        )
    );
}

#[test]
fn joint_at_the_edge_of_the_supported_range() {
    let j = Joint::from_points(
        Point::new(COORD_MAX - 10, COORD_MAX),
        Point::new(COORD_MAX, COORD_MAX),
        Point::new(COORD_MAX, COORD_MAX - 10),
        4,
        StrokeAlignment::Center,
    )
    .unwrap();
    let near = Joint::from_points(
        Point::new(-10, 0),
        Point::new(0, 0),
        Point::new(0, -10),
        4,
        StrokeAlignment::Center,
    )
    .unwrap();
    assert_eq!(near.kind, JointKind::Miter);
    assert_eq!(j.kind, JointKind::Miter);
    let by = Point::new(COORD_MAX, COORD_MAX);
    assert_eq!(j.first_edge_end.left, near.first_edge_end.left.plus(by));
    assert_eq!(j.first_edge_end.right, near.first_edge_end.right.plus(by));
}

#[test]
fn stroke_has_at_least_as_many_rows_as_its_thickness() {
    for t in 0..15 {
        for l in [line(0, 0, 40, 0), line(0, 0, 40, 13), line(0, 0, 40, 40), line(0, 0, -7, 40)] {
            let pixels = stroke(l, t);
            // Count the pixels with the same major coordinate as the middle
            // of the line.
            let dx = (l.end.x - l.start.x).abs();
            let dy = (l.end.y - l.start.y).abs();
            let rows = if dy >= dx {
                pixels.iter().filter(|p| p.y == 20).count()
            } else {
                pixels.iter().filter(|p| p.x == 20).count()
            };
            assert!(rows as i32 >= t, "{:?} at {}: {}", l, t, rows);
            assert!(rows as i32 <= 2 * t);
        }
    }
}
