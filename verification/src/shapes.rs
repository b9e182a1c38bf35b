//! The shapes that are given by a direction or by a few lengths.

use vstd::prelude::*;
use crate::direction::Direction2d;
use crate::primitive::Primitive2d;
use crate::scalar::Scalar;
use crate::vec2::Vec2;

verus! {

/// An infinite half-line from the origin, pointing in a direction.
#[derive(Clone, Copy, Debug)]
pub struct Ray2d(pub Direction2d);

impl Ray2d {
    /// The ray's direction is normalized.
    pub open spec fn well_formed(&self) -> bool {
        self.0.well_formed()
    }
}

/// A circle round the origin.
#[derive(Clone, Copy, Debug)]
pub struct Circle {
    /// The radius of the circle.
    pub radius: Scalar,
}

impl Primitive2d for Circle {
}

impl Circle {
    /// The radius is not a positive number. Such a circle can be made; what
    /// it means is left to whoever reads it.
    pub open spec fn is_degenerate_spec(&self) -> bool {
        !self.radius.is_positive_spec()
    }

    /// Tells whether the radius is not a positive number.
    pub fn is_degenerate(&self) -> (b: bool)
        ensures
            b == self.is_degenerate_spec(),
    {
        !self.radius.is_positive()
    }
}

/// An unbounded plane through the origin.
#[derive(Clone, Copy, Debug)]
pub struct Plane2d {
    /// The direction in which the plane points.
    pub normal: Direction2d,
}

impl Primitive2d for Plane2d {
}

impl Plane2d {
    /// The plane's normal is normalized.
    pub open spec fn well_formed(&self) -> bool {
        self.normal.well_formed()
    }
}

/// An infinite line through the origin, along a direction. For a finite
/// line see [`LineSegment2d`].
#[derive(Clone, Copy, Debug)]
pub struct Line2d {
    /// The direction of the line.
    pub direction: Direction2d,
}

impl Primitive2d for Line2d {
}

impl Line2d {
    /// The line's direction is normalized.
    pub open spec fn well_formed(&self) -> bool {
        self.direction.well_formed()
    }
}

/// A section of a line through the origin, along a direction.
#[derive(Clone, Debug)]
pub struct LineSegment2d {
    /// The direction of the line.
    pub direction: Direction2d,
    /// How far from the origin, along the direction, the segment starts.
    pub start: Scalar,
    /// How far from the origin, along the direction, the segment ends.
    pub end: Scalar,
}

impl Primitive2d for LineSegment2d {
}

impl LineSegment2d {
    /// The segment's direction is normalized.
    pub open spec fn well_formed(&self) -> bool {
        self.direction.well_formed()
    }

    /// The segment does not run from a finite start to a finite end at or
    /// after it. Such a segment can be made; it is to be read as empty or
    /// reversed.
    pub open spec fn is_degenerate_spec(&self) -> bool {
        !self.start.le_spec(self.end)
    }

    /// Tells whether the segment does not run from a finite start to a finite
    /// end at or after it.
    pub fn is_degenerate(&self) -> (b: bool)
        ensures
            b == self.is_degenerate_spec(),
    {
        !self.start.le(self.end)
    }
}

/// A triangle, given by its three corners.
#[derive(Clone, Debug)]
pub struct Triangle {
    /// The vertices of the triangle.
    pub vertcies: [Vec2; 3],
}

impl Primitive2d for Triangle {
}

impl View for Triangle {
    type V = Seq<Vec2>;

    open spec fn view(&self) -> Seq<Vec2> {
        self.vertcies@
    }
}

/// A rectangle with its centre at the origin and its sides along the axes.
#[derive(Clone, Copy, Debug)]
pub struct Rectangle {
    /// Half of the width of the rectangle.
    pub half_width: Scalar,
    /// Half of the height of the rectangle.
    pub half_height: Scalar,
}

impl Primitive2d for Rectangle {
}

impl Rectangle {
    /// One of the two half extents is not a positive number.
    pub open spec fn is_degenerate_spec(&self) -> bool {
        !(self.half_width.is_positive_spec() && self.half_height.is_positive_spec())
    }

    /// Tells whether one of the two half extents is not a positive number.
    pub fn is_degenerate(&self) -> (b: bool)
        ensures
            b == self.is_degenerate_spec(),
    {
        !(self.half_width.is_positive() && self.half_height.is_positive())
    }
}

/// Another name for [`Rectangle`].
pub type Quad = Rectangle;

/// A polygon whose vertices lie on a circle round the origin, equally far
/// apart.
#[derive(Clone, Copy, Debug)]
pub struct RegularPolygon {
    /// The circle on which all vertices lie.
    pub circumcircle: Circle,
    /// The number of vertices.
    pub n_vertices: usize,
}

impl Primitive2d for RegularPolygon {
}

impl RegularPolygon {
    /// The polygon has fewer than three vertices, or its circle is
    /// degenerate.
    pub open spec fn is_degenerate_spec(&self) -> bool {
        self.n_vertices < 3 || self.circumcircle.is_degenerate_spec()
    }

    /// Tells whether the polygon has fewer than three vertices or a
    /// degenerate circle.
    pub fn is_degenerate(&self) -> (b: bool)
        ensures
            b == self.is_degenerate_spec(),
    {
        self.n_vertices < 3 || self.circumcircle.is_degenerate()
    }
}

} // verus!
