//! Two-dimensional geometric primitives: a unit-length direction, the shapes
//! built on it, and vertex paths with a fixed or a run-time vertex count.
//!
//! Coordinates are held as binary32 bit patterns, so every value is stored and
//! read back bit for bit, and the invariants of the shapes are stated exactly,
//! over the rational numbers that the patterns encode.

pub mod scalar;
pub mod vec2;
pub mod primitive;
pub mod direction;
pub mod shapes;
pub mod polyline;

pub use scalar::Scalar;
pub use vec2::Vec2;
pub use primitive::Primitive2d;
pub use direction::{Direction2d, InvalidDirectionError};
pub use shapes::{Ray2d, Circle, Plane2d, Line2d, LineSegment2d, Triangle, Rectangle, Quad, RegularPolygon};
pub use polyline::{Polyline2d, BoxedPolyline2d, Polygon, BoxedPolygon};
