use stroke_geometry::bresenham::{major_length, Bresenham, BresenhamParameters};
use stroke_geometry::geometry::Point;
use stroke_geometry::line::Line;

fn pixels(line: Line) -> Vec<(i32, i32)> {
    let mut out = Vec::new();
    let mut points = line.points();
    while let Some(p) = points.next() {
        out.push((p.x, p.y));
    }
    out
}

#[test]
fn parameters_of_a_shallow_line() {
    let p = BresenhamParameters::new(&Line::new(Point::new(2, 2), Point::new(20, 8)));
    assert_eq!(p.error_threshold, 18);
    assert_eq!(p.error_step_major, 12);
    assert_eq!(p.error_step_minor, 36);
    assert_eq!(p.position_step_major, Point::new(1, 0));
    assert_eq!(p.position_step_minor, Point::new(0, 1));
}

#[test]
fn parameters_of_a_steep_line_going_up_left() {
    let p = BresenhamParameters::new(&Line::new(Point::new(0, 0), Point::new(-3, -7)));
    assert_eq!(p.error_threshold, 7);
    assert_eq!(p.error_step_major, 6);
    assert_eq!(p.error_step_minor, 14);
    assert_eq!(p.position_step_major, Point::new(0, -1));
    assert_eq!(p.position_step_minor, Point::new(-1, 0));
}

#[test]
fn diagonal_counts_as_y_major() {
    let p = BresenhamParameters::new(&Line::new(Point::new(0, 0), Point::new(4, 4)));
    assert_eq!(p.position_step_major, Point::new(0, 1));
    assert_eq!(p.position_step_minor, Point::new(1, 0));
}

#[test]
fn single_pixel_line_has_zero_steps() {
    let p = BresenhamParameters::new(&Line::new(Point::new(7, -3), Point::new(7, -3)));
    assert_eq!(p.error_threshold, 0);
    assert_eq!(p.position_step_major, Point::zero());
    assert_eq!(p.position_step_minor, Point::zero());

    let mut stepper = Bresenham::new(Point::new(7, -3));
    assert_eq!(stepper.next(&p), Point::new(7, -3));
    assert_eq!(stepper.next(&p), Point::new(7, -3));
    assert_eq!(stepper.point, Point::new(7, -3));
}

#[test]
fn major_length_counts_both_ends() {
    assert_eq!(major_length(&Line::new(Point::new(2, 2), Point::new(20, 8))), 19);
    assert_eq!(major_length(&Line::new(Point::new(0, 0), Point::new(-3, -7))), 8);
    assert_eq!(major_length(&Line::new(Point::new(5, 5), Point::new(5, 5))), 1);
    assert_eq!(
        major_length(&Line::new(Point::new(i32::MIN, 0), Point::new(i32::MAX, 0))),
        4_294_967_296
    );
}

#[test]
fn stepper_takes_minor_move_past_threshold() {
    let line = Line::new(Point::new(2, 2), Point::new(20, 8));
    let p = BresenhamParameters::new(&line);
    let mut stepper = Bresenham::new(line.start);

    assert_eq!(stepper.next(&p), Point::new(2, 2));
    assert_eq!(stepper, Bresenham::with_initial_error(Point::new(3, 2), 12));
    assert_eq!(stepper.next(&p), Point::new(3, 2));
    assert_eq!(stepper, Bresenham::with_initial_error(Point::new(4, 2), 24));
    // 24 > 18: one pixel down, and 36 off the error.
    assert_eq!(stepper.peek(&p), Point::new(4, 3));
    assert_eq!(stepper.next(&p), Point::new(4, 3));
    assert_eq!(stepper, Bresenham::with_initial_error(Point::new(5, 3), 0));
}

#[test]
fn stepper_resumes_with_initial_error() {
    let line = Line::new(Point::new(2, 2), Point::new(20, 8));
    let p = BresenhamParameters::new(&line);
    let mut whole = Bresenham::new(line.start);
    for _ in 0..7 {
        whole.next(&p);
    }
    let mut resumed = Bresenham::with_initial_error(whole.point, whole.error);
    for _ in 0..12 {
        assert_eq!(resumed.next(&p), whole.next(&p));
    }
}

#[test]
fn points_of_a_steep_line() {
    assert_eq!(
        pixels(Line::new(Point::new(10, 10), Point::new(20, 30))),
        vec![
            (10, 10), (10, 11), (11, 12), (11, 13), (12, 14), (12, 15), (13, 16),
            (13, 17), (14, 18), (14, 19), (15, 20), (15, 21), (16, 22), (16, 23),
            (17, 24), (17, 25), (18, 26), (18, 27), (19, 28), (19, 29), (20, 30),
        ]
    );
}

#[test]
fn points_of_a_line_going_left() {
    assert_eq!(
        pixels(Line::new(Point::new(0, 0), Point::new(-5, 2))),
        vec![(0, 0), (-1, 0), (-2, 1), (-3, 1), (-4, 2), (-5, 2)]
    );
}

#[test]
fn points_of_a_single_pixel() {
    assert_eq!(pixels(Line::new(Point::new(3, 4), Point::new(3, 4))), vec![(3, 4)]);
}

#[test]
fn points_reach_the_limits_of_the_grid() {
    let line = Line::new(Point::new(i32::MAX - 2, i32::MIN), Point::new(i32::MAX, i32::MIN + 2));
    assert_eq!(
        pixels(line),
        vec![
            (i32::MAX - 2, i32::MIN),
            (i32::MAX - 1, i32::MIN + 1),
            (i32::MAX, i32::MIN + 2),
        ]
    );
}

#[test]
fn points_count_and_steps_in_all_octants() {
    let ends = [
        (13, 5), (5, 13), (-5, 13), (-13, 5), (-13, -5), (-5, -13), (5, -13), (13, -5),
        (9, 0), (0, 9), (-9, 0), (0, -9), (6, 6), (-6, 6), (6, -6), (-6, -6),
    ];
    for (x, y) in ends {
        let line = Line::new(Point::new(1, -2), Point::new(1 + x, -2 + y));
        let found = pixels(line);
        let dx: i32 = x;
        let dy: i32 = y;
        assert_eq!(found.len() as i32, dx.abs().max(dy.abs()) + 1);
        assert_eq!(found[0], (1, -2));
        assert_eq!(found[found.len() - 1], (1 + x, -2 + y));
        for pair in found.windows(2) {
            let step_x = (pair[1].0 - pair[0].0).abs();
            let step_y = (pair[1].1 - pair[0].1).abs();
            if dy.abs() >= dx.abs() {
                assert_eq!(step_y, 1);
                assert!(step_x <= 1);
            } else {
                assert_eq!(step_x, 1);
                assert!(step_y <= 1);
            }
        }
    }
}

#[test]
fn points_iterator_stays_exhausted() {
    let mut points = Line::new(Point::new(0, 0), Point::new(1, 0)).points();
    assert_eq!(points.next(), Some(Point::new(0, 0)));
    assert_eq!(points.next(), Some(Point::new(1, 0)));
    assert_eq!(points.next(), None);
    assert_eq!(points.next(), None);
}
