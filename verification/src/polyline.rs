//! Vertex paths: open polylines and closed polygons, each with a vertex count
//! fixed by the type or chosen at run time.

use vstd::prelude::*;
use crate::primitive::Primitive2d;
use crate::vec2::Vec2;

verus! {

/// `Vec::into_boxed_slice` of std: the boxed slice holds the vector's items,
/// all of them and in the vector's order.
#[verifier::external_body]
fn into_boxed_slice(vertices: Vec<Vec2>) -> (boxed: Box<[Vec2]>)
    ensures
        boxed@ == vertices@,
{
    vertices.into_boxed_slice()
}

/// Copies a slice into an array of `N` items, where it has exactly `N`.
fn array_from_slice<const N: usize>(points: &[Vec2]) -> (r: Option<[Vec2; N]>)
    ensures
        r.is_some() <==> points@.len() == N,
        r matches Some(a) ==> a@ == points@,
{
    if points.len() != N {
        return None;
    }
    let mut a: [Vec2; N] = [Vec2::from_bits(0, 0); N];
    let mut i: usize = 0;
    while i < N
        invariant
            points@.len() == N,
            i <= N,
            forall|j: int| 0 <= j < i ==> a@[j] == points@[j],
        decreases N - i,
    {
        a[i] = points[i];
        i += 1;
    }
    assert(a@ =~= points@);
    Some(a)
}

/// A line along a path of `N` vertices. The path is open: no edge joins the
/// last vertex to the first.
#[derive(Clone, Debug)]
pub struct Polyline2d<const N: usize> {
    /// The vertices, in path order.
    pub vertices: [Vec2; N],
}

impl<const N: usize> Primitive2d for Polyline2d<N> {
}

impl<const N: usize> View for Polyline2d<N> {
    type V = Seq<Vec2>;

    open spec fn view(&self) -> Seq<Vec2> {
        self.vertices@
    }
}

impl<const N: usize> Polyline2d<N> {
    /// A polyline of the `N` vertices, in their order.
    pub fn new(vertices: [Vec2; N]) -> (p: Self)
        ensures
            p.vertices == vertices,
            p@ == vertices@,
            p@.len() == N,
    {
        Polyline2d { vertices }
    }

    /// A polyline of the vertices of a slice, in their order: made exactly
    /// when the slice holds `N` vertices.
    pub fn from_slice(points: &[Vec2]) -> (r: Option<Self>)
        ensures
            r.is_some() <==> points@.len() == N,
            r matches Some(p) ==> p@ == points@,
    {
        match array_from_slice::<N>(points) {
            Some(vertices) => Some(Polyline2d { vertices }),
            None => None,
        }
    }

    /// The number of vertices, which is `N`.
    pub fn len(&self) -> (n: usize)
        ensures
            n == N,
            n == self@.len(),
    {
        N
    }

    /// The vertex at a position of the path.
    pub fn vertex(&self, i: usize) -> (v: Vec2)
        requires
            i < N,
        ensures
            v == self@[i as int],
    {
        self.vertices[i]
    }
}

/// Copies a boxed slice of vertices, item by item.
fn copy_boxed(vertices: &Box<[Vec2]>) -> (copy: Box<[Vec2]>)
    ensures
        copy@ == vertices@,
{
    let n: usize = vertices.len();
    let mut items: Vec<Vec2> = Vec::with_capacity(n);
    let mut i: usize = 0;
    while i < n
        invariant
            n == vertices@.len(),
            i <= n,
            items@ == vertices@.take(i as int),
        decreases n - i,
    {
        items.push(vertices[i]);
        i += 1;
    }
    assert(items@ =~= vertices@);
    into_boxed_slice(items)
}

/// A line along a path of vertices whose number is chosen at run time. The
/// path is open, and its length is fixed once it is made.
#[derive(Debug)]
pub struct BoxedPolyline2d {
    /// The vertices, in path order.
    pub vertices: Box<[Vec2]>,
}

impl Primitive2d for BoxedPolyline2d {
}

impl View for BoxedPolyline2d {
    type V = Seq<Vec2>;

    open spec fn view(&self) -> Seq<Vec2> {
        self.vertices@
    }
}

impl Clone for BoxedPolyline2d {
    /// A polyline of the same vertices, in a buffer of its own.
    fn clone(&self) -> (p: Self)
        ensures
            p@ == self@,
    {
        BoxedPolyline2d { vertices: copy_boxed(&self.vertices) }
    }
}

impl BoxedPolyline2d {
    /// A polyline of the vertices, however many, in their order.
    pub fn new(vertices: Vec<Vec2>) -> (p: Self)
        ensures
            p@ == vertices@,
    {
        BoxedPolyline2d { vertices: into_boxed_slice(vertices) }
    }

    /// The number of vertices.
    pub fn len(&self) -> (n: usize)
        ensures
            n == self@.len(),
    {
        self.vertices.len()
    }

    /// The vertex at a position of the path.
    pub fn vertex(&self, i: usize) -> (v: Vec2)
        requires
            i < self@.len(),
        ensures
            v == self@[i as int],
    {
        self.vertices[i]
    }
}

/// A polygon of `N` vertices. The path is closed: an edge joins the last
/// vertex to the first.
#[derive(Clone, Debug)]
pub struct Polygon<const N: usize> {
    /// The vertices, in path order.
    pub vertices: [Vec2; N],
}

impl<const N: usize> Primitive2d for Polygon<N> {
}

impl<const N: usize> View for Polygon<N> {
    type V = Seq<Vec2>;

    open spec fn view(&self) -> Seq<Vec2> {
        self.vertices@
    }
}

impl<const N: usize> Polygon<N> {
    /// A polygon of the `N` vertices, in their order.
    pub fn new(vertices: [Vec2; N]) -> (p: Self)
        ensures
            p.vertices == vertices,
            p@ == vertices@,
            p@.len() == N,
    {
        Polygon { vertices }
    }

    /// A polygon of the vertices of a slice, in their order: made exactly
    /// when the slice holds `N` vertices.
    pub fn from_slice(points: &[Vec2]) -> (r: Option<Self>)
        ensures
            r.is_some() <==> points@.len() == N,
            r matches Some(p) ==> p@ == points@,
    {
        match array_from_slice::<N>(points) {
            Some(vertices) => Some(Polygon { vertices }),
            None => None,
        }
    }

    /// The number of vertices, which is `N`.
    pub fn len(&self) -> (n: usize)
        ensures
            n == N,
            n == self@.len(),
    {
        N
    }

    /// The vertex at a position of the path.
    pub fn vertex(&self, i: usize) -> (v: Vec2)
        requires
            i < N,
        ensures
            v == self@[i as int],
    {
        self.vertices[i]
    }
}

/// A polygon of vertices whose number is chosen at run time. The path is
/// closed, and its length is fixed once it is made.
#[derive(Debug)]
pub struct BoxedPolygon {
    /// The vertices, in path order.
    pub vertices: Box<[Vec2]>,
}

impl Primitive2d for BoxedPolygon {
}

impl View for BoxedPolygon {
    type V = Seq<Vec2>;

    open spec fn view(&self) -> Seq<Vec2> {
        self.vertices@
    }
}

impl Clone for BoxedPolygon {
    /// A polygon of the same vertices, in a buffer of its own.
    fn clone(&self) -> (p: Self)
        ensures
            p@ == self@,
    {
        BoxedPolygon { vertices: copy_boxed(&self.vertices) }
    }
}

impl BoxedPolygon {
    /// A polygon of the vertices, however many, in their order.
    pub fn new(vertices: Vec<Vec2>) -> (p: Self)
        ensures
            p@ == vertices@,
    {
        BoxedPolygon { vertices: into_boxed_slice(vertices) }
    }

    /// The number of vertices.
    pub fn len(&self) -> (n: usize)
        ensures
            n == self@.len(),
    {
        self.vertices.len()
    }

    /// The vertex at a position of the path.
    pub fn vertex(&self, i: usize) -> (v: Vec2)
        requires
            i < self@.len(),
        ensures
            v == self@[i as int],
    {
        self.vertices[i]
    }
}

} // verus!
