use vstd::prelude::*;

verus! {

/// A position in the plane.
#[derive(Clone, Copy, Debug, PartialEq, Eq, Structural)]
pub struct Point {
    pub x: i32,
    pub y: i32,
}

/// A displacement in the plane.
#[derive(Clone, Copy, Debug, PartialEq, Eq, Structural)]
pub struct Vec2 {
    pub x: i32,
    pub y: i32,
}

/// The point `p` moved by `v`, each coordinate wrapping at the range of `i32`.
pub open spec fn offset_spec(p: Point, v: Vec2) -> Point {
    Point { x: p.x.wrapping_add(v.x), y: p.y.wrapping_add(v.y) }
}

/// The point with the given coordinates.
pub fn point(x: i32, y: i32) -> (p: Point)
    ensures
        p == (Point { x: x, y: y }),
{
    Point { x, y }
}

/// The vector with the given coordinates.
pub fn vec2(x: i32, y: i32) -> (v: Vec2)
    ensures
        v == (Vec2 { x: x, y: y }),
{
    Vec2 { x, y }
}

impl Point {
    /// The point with the given coordinates.
    pub fn new(x: i32, y: i32) -> (p: Point)
        ensures
            p == (Point { x: x, y: y }),
    {
        Point { x, y }
    }

    /// This point moved by `v`.
    pub fn offset(self, v: Vec2) -> (p: Point)
        ensures
            p == offset_spec(self, v),
    {
        Point { x: self.x.wrapping_add(v.x), y: self.y.wrapping_add(v.y) }
    }
}

} // verus!
