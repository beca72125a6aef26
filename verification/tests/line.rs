use stroke_geometry::geometry::{Point, Rectangle, Size};
use stroke_geometry::line::Line;

const SIDE: usize = 64;

/// A small monochrome display: `' '` for a pixel never drawn, else the
/// character it was drawn with.
struct Display {
    pixels: Vec<Vec<char>>,
}

impl Display {
    fn new() -> Self {
        Display { pixels: vec![vec![' '; SIDE]; SIDE] }
    }

    fn from_pattern(pattern: &[&str]) -> Self {
        let mut display = Display::new();
        for (y, row) in pattern.iter().enumerate() {
            for (x, c) in row.chars().enumerate() {
                display.pixels[y][x] = c;
            }
        }
        display
    }

    fn draw(&mut self, point: Point, color: char) {
        assert!(point.x >= 0 && point.y >= 0, "pixel {:?} is off the display", point);
        self.pixels[point.y as usize][point.x as usize] = color;
    }

    fn stroke(&mut self, line: Line, width: i32, color: char) {
        let mut points = line.thick_points(width);
        while let Some(point) = points.next() {
            self.draw(point, color);
        }
    }

    fn rows(&self) -> Vec<String> {
        self.pixels.iter().map(|row| row.iter().collect::<String>()).collect()
    }
}

#[test]
fn bounding_box() {
    let start = Point::new(10, 10);
    let end = Point::new(19, 29);

    let line: Line = Line::new(start, end);
    let backwards_line: Line = Line::new(end, start);

    assert_eq!(line.bounding_box(), Rectangle::new(start, Size::new(10, 20)));
    assert_eq!(backwards_line.bounding_box(), Rectangle::new(start, Size::new(10, 20)));
}

#[test]
fn no_stroke_width_no_line() {
    let start = Point::new(2, 3);
    let end = Point::new(3, 2);

    let mut pixels = Line::new(start, end).thick_points(0);

    assert_eq!(pixels.next(), None);
}

#[test]
fn thick_line_octant_1() {
    let mut display = Display::new();

    display.stroke(Line::new(Point::new(2, 2), Point::new(20, 8)), 5, '#');

    assert_eq!(
        display.rows(),
        Display::from_pattern(&[
            "   #                   ",
            "  #####                ",
            "  ########             ",
            "  ###########          ",
            " ###############       ",
            "    ###############    ",
            "       ############### ",
            "          ###########  ",
            "             ########  ",
            "                #####  ",
            "                   #   ",
        ])
        .rows()
    );
}

#[test]
fn thick_line_2px() {
    let mut display = Display::new();

    // Horizontal line
    display.stroke(Line::new(Point::new(2, 2), Point::new(10, 2)), 2, '#');

    // Vertical line
    display.stroke(Line::new(Point::new(2, 5), Point::new(2, 10)), 2, '.');

    assert_eq!(
        display.rows(),
        Display::from_pattern(&[
            "            ",
            "  ######### ",
            "  ######### ",
            "            ",
            "            ",
            "  ..        ",
            "  ..        ",
            "  ..        ",
            "  ..        ",
            "  ..        ",
            "  ..        ",
        ])
        .rows()
    );
}

// Check that 45 degree lines don't draw their right side 1px too long
#[test]
fn diagonal() {
    let mut display = Display::new();

    display.stroke(Line::new(Point::new(3, 2), Point::new(10, 9)), 7, '#');

    assert_eq!(
        display.rows(),
        Display::from_pattern(&[
            "     #        ",
            "    ###       ",
            "   #####      ",
            "  #######     ",
            " #########    ",
            "  #########   ",
            "   #########  ",
            "    ######### ",
            "     #######  ",
            "      #####   ",
            "       ###    ",
            "        #     ",
        ])
        .rows()
    );
}

#[test]
fn thick_line_3px() {
    let mut display = Display::new();

    // Horizontal line
    display.stroke(Line::new(Point::new(2, 2), Point::new(10, 2)), 3, '#');

    // Vertical line
    display.stroke(Line::new(Point::new(2, 5), Point::new(2, 10)), 3, '.');

    assert_eq!(
        display.rows(),
        Display::from_pattern(&[
            "            ",
            "  ######### ",
            "  ######### ",
            "  ######### ",
            "            ",
            " ...        ",
            " ...        ",
            " ...        ",
            " ...        ",
            " ...        ",
            " ...        ",
        ])
        .rows()
    );
}

#[test]
fn thick_line_0px() {
    let mut display = Display::new();

    display.stroke(Line::new(Point::new(2, 2), Point::new(2, 2)), 3, '#');

    assert_eq!(
        display.rows(),
        Display::from_pattern(&[
            "   ", //
            "  #", //
            "  #", //
            "  #", //
        ])
        .rows()
    );
}

#[test]
fn event_width_offset() {
    let mut display = Display::new();

    // Horizontal line
    display.stroke(Line::new(Point::new(2, 3), Point::new(10, 3)), 4, '#');

    // Vertical line
    display.stroke(Line::new(Point::new(2, 9), Point::new(10, 8)), 4, '#');

    assert_eq!(
        display.rows(),
        Display::from_pattern(&[
            "            ",
            "  ######### ",
            "  ######### ",
            "  ######### ",
            "  ######### ",
            "            ",
            "       #### ",
            "  ######### ",
            "  ######### ",
            "  ######### ",
            "  #####     ",
        ])
        .rows()
    );
}

#[test]
fn points_iter() {
    let line = Line::new(Point::new(10, 10), Point::new(20, 30));

    let mut styled_points: Vec<Point> = Vec::with_capacity(32);
    let mut stroke = line.clone().thick_points(1);
    while let Some(point) = stroke.next() {
        styled_points.push(point);
    }

    let mut points: Vec<Point> = Vec::with_capacity(32);
    let mut thin = line.points();
    while let Some(point) = thin.next() {
        points.push(point);
    }

    assert_eq!(points.len(), 21);
    assert_eq!(points, styled_points);
}

#[test]
fn perpendicular() {
    assert_eq!(
        Line::new(Point::zero(), Point::new(10, 0)).perpendicular(),
        Line::new(Point::zero(), Point::new(0, -10))
    );

    assert_eq!(
        Line::new(Point::new(10, 20), Point::new(20, 10)).perpendicular(),
        Line::new(Point::new(10, 20), Point::new(0, 10))
    );

    assert_eq!(
        Line::new(Point::zero(), Point::new(0, -10)).perpendicular(),
        Line::new(Point::zero(), Point::new(-10, 0))
    );
}
