//! Integer geometry for stroking thick lines on pixel displays.

pub mod bresenham;
pub mod extents;
pub mod geometry;
pub mod intersection;
pub mod joint;
pub mod line;
pub mod points;
pub mod rows;
pub mod shift;
pub mod sides;
pub mod sparse_iterator;
pub mod stroke;
pub mod thick_points;
