//! Triangle setup on integer pixel coordinates, without perspective.
use vstd::prelude::*;
use crate::grid::VecI2;
use crate::raster::{min3, max3};
use crate::vectors::{cross2, quot};

verus! {

/// Bound on the magnitude of the vertex coordinates that `RasterTriangle`
/// accepts; within it every edge and cross product is computed exactly.
pub const VERTEX_LIMIT: i32 = 0x1000_0000;

pub open spec fn vertex_in_limit(v: VecI2) -> bool {
    -VERTEX_LIMIT <= v.x <= VERTEX_LIMIT && -VERTEX_LIMIT <= v.y <= VERTEX_LIMIT
}

/// The centroid of three points, each coordinate rounded toward zero.
pub open spec fn centroid(a: VecI2, b: VecI2, c: VecI2) -> (int, int) {
    (quot(a.x + b.x + c.x, 3), quot(a.y + b.y + c.y, 3))
}

/// Cross product of the edge from `a` to `b` with the vector from `a` to the
/// point `m`.
pub open spec fn edge_term(a: VecI2, b: VecI2, m: (int, int)) -> int {
    cross2(b.x - a.x, b.y - a.y, m.0 - a.x, m.1 - a.y)
}

/// The winding test: for each edge, the cross product of the edge with the
/// vector from its first vertex to the centroid is positive.
pub open spec fn wound_inward(a: VecI2, b: VecI2, c: VecI2) -> bool {
    let m = centroid(a, b, c);
    edge_term(a, b, m) > 0 && edge_term(b, c, m) > 0 && edge_term(c, a, m) > 0
}

/// A triangle on integer pixel coordinates, with its edge vectors
/// `v1 - v0`, `v2 - v1` and `v0 - v2`.
#[derive(Clone, Copy)]
pub struct RasterTriangle {
    pub vertices: (VecI2, VecI2, VecI2),
    pub segments: (VecI2, VecI2, VecI2),
}

impl RasterTriangle {
    /// The triangle `first`, `second`, `third`, or `None` where it fails the
    /// winding test (it is wound clockwise or degenerate).
    pub fn new(first: VecI2, second: VecI2, third: VecI2) -> (r: Option<Self>)
        requires
            vertex_in_limit(first),
            vertex_in_limit(second),
            vertex_in_limit(third),
        ensures
            r.is_some() <==> wound_inward(first, second, third),
            r.is_some() ==> r.unwrap().vertices == (first, second, third),
            r.is_some() ==> r.unwrap().segments == (
                VecI2 { x: (second.x - first.x) as i32, y: (second.y - first.y) as i32 },
                VecI2 { x: (third.x - second.x) as i32, y: (third.y - second.y) as i32 },
                VecI2 { x: (first.x - third.x) as i32, y: (first.y - third.y) as i32 },
            ),
    {
        let vertices = (first, second, third);
        let segments = Self::segments_from_points(vertices);
        if Self::check_vertices(vertices, segments) {
            Some(Self { segments, vertices })
        } else {
            None
        }
    }

    fn check_vertices(vertices: (VecI2, VecI2, VecI2), segments: (VecI2, VecI2, VecI2)) -> (r: bool)
        requires
            vertex_in_limit(vertices.0),
            vertex_in_limit(vertices.1),
            vertex_in_limit(vertices.2),
            segments.0.x == vertices.1.x - vertices.0.x,
            segments.0.y == vertices.1.y - vertices.0.y,
            segments.1.x == vertices.2.x - vertices.1.x,
            segments.1.y == vertices.2.y - vertices.1.y,
            segments.2.x == vertices.0.x - vertices.2.x,
            segments.2.y == vertices.0.y - vertices.2.y,
        ensures
            r == wound_inward(vertices.0, vertices.1, vertices.2),
    {
        let middle = VecI2::new(
            (vertices.0.x + vertices.1.x + vertices.2.x) / 3,
            (vertices.0.y + vertices.1.y + vertices.2.y) / 3,
        );
        let deltas = (middle.sub(vertices.0), middle.sub(vertices.1), middle.sub(vertices.2));
        segments.0.cross(deltas.0) > 0 && segments.1.cross(deltas.1) > 0 && segments.2.cross(
            deltas.2,
        ) > 0
    }

    fn segments_from_points(points: (VecI2, VecI2, VecI2)) -> (r: (VecI2, VecI2, VecI2))
        requires
            vertex_in_limit(points.0),
            vertex_in_limit(points.1),
            vertex_in_limit(points.2),
        ensures
            r.0.x == points.1.x - points.0.x,
            r.0.y == points.1.y - points.0.y,
            r.1.x == points.2.x - points.1.x,
            r.1.y == points.2.y - points.1.y,
            r.2.x == points.0.x - points.2.x,
            r.2.y == points.0.y - points.2.y,
    {
        let p1 = points.1.sub(points.0);
        let p2 = points.2.sub(points.1);
        let p3 = points.0.sub(points.2);
        (p1, p2, p3)
    }
}

/// The least and the greatest of three values.
pub fn min_max_from_three(first: i32, second: i32, third: i32) -> (r: (i32, i32))
    ensures
        r.0 == min3(first as int, second as int, third as int),
        r.1 == max3(first as int, second as int, third as int),
{
    let min_first = if first < second { first } else { second };
    let min_second = if min_first < third { min_first } else { third };
    let max_first = if first > second { first } else { second };
    let max_second = if max_first > third { max_first } else { third };
    (min_second, max_second)
}

} // verus!
