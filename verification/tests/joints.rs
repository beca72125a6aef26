use stroke_geometry::geometry::Point;
use stroke_geometry::joint::{EdgeCorners, Joint, JointKind, Triangle};
use stroke_geometry::line::Line;
use stroke_geometry::thick_points::{ParallelsIterator, Side, StrokeAlignment};

fn line(x1: i32, y1: i32, x2: i32, y2: i32) -> Line {
    Line::new(Point::new(x1, y1), Point::new(x2, y2))
}

fn corners(lx: i32, ly: i32, rx: i32, ry: i32) -> EdgeCorners {
    EdgeCorners { left: Point::new(lx, ly), right: Point::new(rx, ry) }
}

fn joint(start: (i32, i32), mid: (i32, i32), end: (i32, i32), thickness: i32) -> Joint {
    Joint::from_points(
        Point::new(start.0, start.1),
        Point::new(mid.0, mid.1),
        Point::new(end.0, end.1),
        thickness,
        StrokeAlignment::Center,
    )
    .unwrap()
}

#[test]
fn extents_of_horizontal_line() {
    assert_eq!(line(0, 0, 10, 0).extents(4), (line(0, -2, 10, -2), line(0, 2, 10, 2)));
    assert_eq!(line(0, 0, 10, 0).extents(2), (line(0, -1, 10, -1), line(0, 1, 10, 1)));
    assert_eq!(line(0, 0, 10, 0).extents(3), (line(0, -1, 10, -1), line(0, 1, 10, 1)));
    assert_eq!(line(0, 0, 10, 0).extents(1), (line(0, 0, 10, 0), line(0, 0, 10, 0)));
}

#[test]
fn extents_of_vertical_line_going_up() {
    assert_eq!(line(0, 0, 0, -10).extents(3), (line(-1, 0, -1, -10), line(1, 0, 1, -10)));
    assert_eq!(line(0, 0, 0, -10).extents(4), (line(-2, 0, -2, -10), line(2, 0, 2, -10)));
}

#[test]
fn extents_with_zero_thickness_are_the_line() {
    let l = line(2, 2, 20, 8);
    assert_eq!(l.extents(0), (l, l));
    let dot = line(5, 5, 5, 5);
    assert_eq!(dot.extents(0), (dot, dot));
}

#[test]
fn extents_of_sloped_line() {
    assert_eq!(line(2, 2, 20, 8).extents(5), (line(3, 0, 21, 6), line(1, 4, 19, 10)));
    assert_eq!(line(20, 8, 2, 2).extents(5), (line(19, 10, 1, 4), line(21, 6, 3, 0)));
    assert_eq!(line(2, 2, 20, 8).extents(6), (line(3, -1, 21, 5), line(1, 5, 19, 11)));
}

#[test]
fn extents_of_diagonal_may_end_on_a_shortened_parallel() {
    assert_eq!(line(3, 2, 10, 9).extents(7), (line(5, 0, 12, 7), line(1, 4, 8, 11)));
    assert_eq!(line(3, 2, 10, 9).extents(3), (line(4, 1, 11, 8), line(2, 3, 9, 10)));
    assert_eq!(line(3, 2, 10, 9).extents(2), (line(4, 2, 10, 8), line(3, 3, 9, 9)));
}

#[test]
fn extents_of_a_single_pixel() {
    assert_eq!(line(5, 5, 5, 5).extents(3), (line(5, 4, 5, 4), line(5, 6, 5, 6)));
    assert_eq!(line(5, 5, 5, 5).extents(4), (line(5, 3, 5, 3), line(5, 7, 5, 7)));
}

#[test]
fn extents_on_one_side_only() {
    let l = line(0, 0, 10, 0);
    assert_eq!(l.extents_aligned(4, StrokeAlignment::Inside), (l, line(0, 3, 10, 3)));
    assert_eq!(l.extents_aligned(4, StrokeAlignment::Outside), (line(0, -3, 10, -3), l));
    assert_eq!(l.extents_aligned(4, StrokeAlignment::Center), l.extents(4));
}

#[test]
fn extents_are_the_same_on_every_call() {
    let l = line(-7, 3, 40, 29);
    let first = l.extents(9);
    assert_eq!(l.extents(9), first);
    assert_eq!(l.extents(9), first);
}

#[test]
fn parallels_of_a_sloped_line() {
    let mut it = ParallelsIterator::new(&line(2, 2, 20, 8), 5);
    let mut found = Vec::new();
    while let Some((stepper, reduction, side)) = it.next() {
        found.push((stepper.point.x, stepper.point.y, stepper.error, reduction, side));
    }
    assert_eq!(
        found,
        vec![
            (2, 2, 0, 0, Side::Right),
            (2, 1, 0, 0, Side::Left),
            (2, 3, 0, 0, Side::Right),
            (3, 0, 12, 0, Side::Left),
            (1, 4, -12, 0, Side::Right),
        ]
    );
}

#[test]
fn parallels_of_a_diagonal_fill_the_gaps() {
    let mut it = ParallelsIterator::new(&line(3, 2, 10, 9), 7);
    let mut found = Vec::new();
    while let Some((stepper, reduction, side)) = it.next() {
        found.push((stepper.point.x, stepper.point.y, stepper.error, reduction, side));
    }
    assert_eq!(
        found,
        vec![
            (3, 2, 0, 0, Side::Right),
            (4, 2, 0, 1, Side::Left),
            (3, 3, 0, 1, Side::Right),
            (4, 1, 0, 0, Side::Left),
            (2, 3, 0, 0, Side::Right),
            (5, 1, 0, 1, Side::Left),
            (2, 4, 0, 1, Side::Right),
            (5, 0, 0, 0, Side::Left),
            (1, 4, 0, 0, Side::Right),
        ]
    );
}

#[test]
fn thick_points_come_parallel_by_parallel() {
    let mut it = line(0, 0, 3, 1).thick_points(2);
    let mut found = Vec::new();
    while let Some(p) = it.next() {
        found.push((p.x, p.y));
    }
    assert_eq!(found, vec![(0, 0), (1, 0), (2, 1), (3, 1), (0, -1), (1, -1), (2, 0), (3, 0)]);
    assert_eq!(it.next(), None);
}

#[test]
fn joint_of_segments_on_one_line_is_colinear() {
    let j = joint((0, 0), (10, 0), (20, 0), 4);
    assert_eq!(j.kind, JointKind::Colinear);
    assert!(j.is_colinear());
    assert!(!j.is_degenerate());
    assert_eq!(j.first_edge_end, corners(10, -2, 10, 2));
    assert_eq!(j.second_edge_start, corners(10, -2, 10, 2));
}

#[test]
fn joint_of_a_right_angle_is_a_miter() {
    let j = joint((0, 0), (10, 0), (10, 10), 4);
    assert_eq!(j.kind, JointKind::Miter);
    assert_eq!(j.first_edge_end, corners(12, -2, 8, 2));
    assert_eq!(j.second_edge_start, corners(12, -2, 8, 2));

    // However thick the stroke, the crossing of the left edges of a right
    // angle lies nearer than twice the thickness.
    let j = joint((0, 0), (2, 0), (2, 2), 5);
    assert_eq!(j.kind, JointKind::Miter);
    assert_eq!(j.first_edge_end, corners(4, -2, 0, 2));
}

#[test]
fn joint_of_a_sharp_turn_is_a_bevel() {
    let j = joint((0, 0), (40, 0), (0, 10), 4);
    let filler = Triangle::new(Point::new(40, -2), Point::new(41, 2), Point::new(24, 2));
    assert_eq!(j.kind, JointKind::Bevel { filler_triangle: filler });
    assert_eq!(j.first_edge_end, corners(40, -2, 24, 2));
    assert_eq!(j.second_edge_start, corners(41, 2, 24, 2));
    assert!(filler.p1 != filler.p2 && filler.p2 != filler.p3 && filler.p1 != filler.p3);
}

#[test]
fn joint_of_a_fold_is_degenerate() {
    let j = joint((0, 0), (20, 0), (0, 1), 4);
    assert_eq!(
        j.kind,
        JointKind::Degenerate {
            filler_triangle: Triangle::new(Point::new(20, -2), Point::new(20, 2), Point::new(20, 0)),
        }
    );
    assert!(j.is_degenerate());
    assert_eq!(j.first_edge_end, corners(20, -2, 20, 2));
    assert_eq!(j.second_edge_start, corners(20, 2, 20, -2));
}

#[test]
fn joint_from_edges_with_a_corner_beyond_the_grid() {
    // The right edges cross far beyond the grid, the left edges near by.
    let first_left = line(0, 0, 10, 0);
    let second_left = line(10, 0, 10, 10);
    let first_right = line(0, 2, i32::MAX, 3);
    let second_right = line(0, 4, i32::MAX, 4);
    let j = Joint::from_edges(
        Point::new(10, 1),
        &first_left,
        &first_right,
        &second_left,
        &second_right,
        4,
    );
    assert_eq!(j, None);
}

#[test]
fn joint_from_edges_takes_the_miter_limit_from_the_thickness() {
    let first_left = line(0, 0, 10, 0);
    let first_right = line(0, 4, 10, 4);
    let second_left = line(16, 0, 16, 10);
    let second_right = line(12, 4, 12, 10);
    let mid = Point::new(10, 0);
    // The left edges cross at (16, 0), six pixels from `mid`.
    let near = Joint::from_edges(mid, &first_left, &first_right, &second_left, &second_right, 3);
    assert_eq!(near.unwrap().kind, JointKind::Miter);
    assert_eq!(near.unwrap().first_edge_end, corners(16, 0, 12, 4));
    let far = Joint::from_edges(mid, &first_left, &first_right, &second_left, &second_right, 2);
    assert_eq!(
        far.unwrap().kind,
        JointKind::Bevel {
            filler_triangle: Triangle::new(Point::new(10, 0), Point::new(16, 0), Point::new(12, 4)),
        }
    );
}

#[test]
fn extents_of_a_hairline_are_the_line() {
    for l in [line(2, 2, 20, 8), line(3, 2, 10, 9), line(0, 0, -7, 3), line(4, 4, 4, 4)] {
        assert_eq!(l.extents(1), (l, l));
        assert_eq!(l.extents_aligned(1, StrokeAlignment::Inside), (l, l));
        assert_eq!(l.extents_aligned(1, StrokeAlignment::Outside), (l, l));
    }
}

#[test]
fn extents_of_flat_lines_are_mirror_images() {
    // Half the thickness to either side, rounded down.
    for t in 0..9 {
        let h = t / 2;
        assert_eq!(line(-3, 5, 12, 5).extents(t), (line(-3, 5 - h, 12, 5 - h), line(-3, 5 + h, 12, 5 + h)));
        assert_eq!(line(12, 5, -3, 5).extents(t), (line(12, 5 + h, -3, 5 + h), line(12, 5 - h, -3, 5 - h)));
        assert_eq!(line(1, 1, 1, 9).extents(t), (line(1 + h, 1, 1 + h, 9), line(1 - h, 1, 1 - h, 9)));
        assert_eq!(line(1, 9, 1, 1).extents(t), (line(1 - h, 9, 1 - h, 1), line(1 + h, 9, 1 + h, 1)));
    }
}

#[test]
fn extents_of_flat_lines_on_one_side() {
    for t in 1..9 {
        let l = line(-3, 5, 12, 5);
        assert_eq!(
            l.extents_aligned(t, StrokeAlignment::Outside),
            (line(-3, 5 - (t - 1), 12, 5 - (t - 1)), l)
        );
        assert_eq!(
            l.extents_aligned(t, StrokeAlignment::Inside),
            (l, line(-3, 5 + (t - 1), 12, 5 + (t - 1)))
        );
    }
}

#[test]
fn edges_lie_on_their_sides_about_the_thickness_apart() {
    for t in 2..14 {
        for l in [line(2, 2, 20, 8), line(0, 0, -9, 7), line(5, 5, 1, -13), line(3, 2, 10, 9)] {
            let (left, right) = l.extents(t);
            let dx = (l.end.x - l.start.x) as f64;
            let dy = (l.end.y - l.start.y) as f64;
            let length = (dx * dx + dy * dy).sqrt();
            // How far a point lies to the left of the line, in pixels.
            let lean = |p: Point| {
                ((p.x - l.start.x) as f64 * dy - (p.y - l.start.y) as f64 * dx) / length
            };
            assert!(lean(left.start) > 0.0, "{:?} at {}", l, t);
            assert!(lean(right.start) < 0.0, "{:?} at {}", l, t);
            let apart = lean(left.start) - lean(right.start);
            assert!(apart > t as f64 - 3.0 && apart < t as f64 + 1.5, "{:?} at {}: {}", l, t, apart);
        }
    }
}

#[test]
fn extents_run_alongside_the_line() {
    for t in 0..12 {
        for l in [line(2, 2, 20, 8), line(0, 0, -9, 7), line(5, 5, 1, -13), line(3, 2, 10, 9)] {
            let (left, right) = l.extents(t);
            let dx = l.end.x - l.start.x;
            let dy = l.end.y - l.start.y;
            for edge in [left, right] {
                let ex = edge.end.x - edge.start.x;
                let ey = edge.end.y - edge.start.y;
                // A full copy of the line, or one that misses its last pixel.
                assert!((dx - ex).abs() <= 1 && (dy - ey).abs() <= 1, "{:?} at {}", l, t);
                assert!(ex * dx >= 0 && ey * dy >= 0);
            }
        }
    }
}

#[test]
fn flat_segments_have_a_colinear_joint() {
    for t in 0..6 {
        let j = joint((0, 3), (10, 3), (25, 3), t);
        assert_eq!(j.kind, JointKind::Colinear);
        // Turning back on the same line is colinear as well.
        let j = joint((4, 0), (4, 10), (4, 2), t);
        assert_eq!(j.kind, JointKind::Colinear);
    }
}

#[test]
fn stroke_of_thickness_one_is_the_line() {
    for l in [line(2, 2, 20, 8), line(0, 0, -9, 7), line(5, 5, 1, -13), line(7, 7, 7, 7)] {
        let mut thick = Vec::new();
        let mut it = l.thick_points(1);
        while let Some(p) = it.next() {
            thick.push(p);
        }
        let mut thin = Vec::new();
        let mut it = l.points();
        while let Some(p) = it.next() {
            thin.push(p);
        }
        assert_eq!(thick, thin);
    }
}

#[test]
fn default_values() {
    assert_eq!(Point::default(), Point::new(0, 0));
    assert_eq!(Line::default(), line(0, 0, 0, 0));
}

#[test]
fn edges_bound_the_pixels_of_the_stroke() {
    for t in 0..14 {
        for l in [line(2, 2, 20, 8), line(0, 0, -9, 7), line(5, 5, 1, -13), line(3, 2, 10, 9), line(0, 0, 9, 0)] {
            let mut it = ParallelsIterator::new(&l, t);
            let mut count = 0;
            let mut last_left = l.start;
            let mut last_right = l.start;
            while let Some((stepper, _, side)) = it.next() {
                count += 1;
                match side {
                    Side::Left => last_left = stepper.point,
                    Side::Right => last_right = stepper.point,
                }
            }
            let (left, right) = l.extents(t);
            assert_eq!(left.start, last_left, "{:?} at {}", l, t);
            if count % 2 == 1 {
                assert_eq!(right.start, last_right, "{:?} at {}", l, t);
            } else if count > 0 {
                // One parallel beyond the pixels on the right.
                assert_ne!(right.start, last_right, "{:?} at {}", l, t);
            }
        }
    }
}
