use vstd::prelude::*;
use crate::math::{Point, Vec2, offset_spec};

verus! {

/// A path event as SVG path data writes it: absolute or relative to the
/// current position, with horizontal and vertical shorthands.
#[derive(Clone, Copy, Debug, PartialEq, Eq, Structural)]
pub enum SvgEvent {
    MoveTo(Point),
    RelativeMoveTo(Vec2),
    LineTo(Point),
    RelativeLineTo(Vec2),
    QuadraticTo(Point, Point),
    RelativeQuadraticTo(Vec2, Vec2),
    CubicTo(Point, Point, Point),
    RelativeCubicTo(Vec2, Vec2, Vec2),
    ArcTo(Vec2, Vec2, Vec2),
    HorizontalLineTo(i32),
    VerticalLineTo(i32),
    RelativeHorizontalLineTo(i32),
    RelativeVerticalLineTo(i32),
    Close,
}

/// A path event in absolute coordinates, built from the four primitives.
#[derive(Clone, Copy, Debug, PartialEq, Eq, Structural)]
pub enum PrimitiveEvent {
    MoveTo(Point),
    LineTo(Point),
    QuadraticTo(Point, Point),
    CubicTo(Point, Point, Point),
    Close,
}

/// A path event that marks where a sub-path begins and ends; `End` tells
/// whether the sub-path is closed.
#[derive(Clone, Copy, Debug, PartialEq, Eq, Structural)]
pub enum AdaptedEvent {
    Begin(Point),
    LineTo(Point),
    QuadraticTo(Point, Point),
    CubicTo(Point, Point, Point),
    End(bool),
}

/// A path event made of straight lines only.
#[derive(Clone, Copy, Debug, PartialEq, Eq, Structural)]
pub enum FlattenedEvent {
    MoveTo(Point),
    LineTo(Point),
    Close,
}

/// A piece of a path from one position to the next.
#[derive(Clone, Copy, Debug, PartialEq, Eq, Structural)]
pub enum Segment {
    Line(Point, Point),
    QuadraticBezier(Point, Point, Point),
    CubicBezier(Point, Point, Point, Point),
}

/// Whether an SVG event can be turned into a primitive event (arcs cannot).
pub open spec fn has_primitive_form(e: SvgEvent) -> bool {
    !(e is ArcTo)
}

/// The primitive event that an SVG event stands for, given the current
/// position. Relative points are offset by the current position, except the
/// end point of a relative cubic, which is taken as it is.
pub open spec fn primitive_form(e: SvgEvent, current: Point) -> PrimitiveEvent
    recommends
        has_primitive_form(e),
{
    match e {
        SvgEvent::MoveTo(to) => PrimitiveEvent::MoveTo(to),
        SvgEvent::LineTo(to) => PrimitiveEvent::LineTo(to),
        SvgEvent::QuadraticTo(ctrl, to) => PrimitiveEvent::QuadraticTo(ctrl, to),
        SvgEvent::CubicTo(ctrl1, ctrl2, to) => PrimitiveEvent::CubicTo(ctrl1, ctrl2, to),
        SvgEvent::Close => PrimitiveEvent::Close,
        SvgEvent::RelativeMoveTo(to) => PrimitiveEvent::MoveTo(offset_spec(current, to)),
        SvgEvent::RelativeLineTo(to) => PrimitiveEvent::LineTo(offset_spec(current, to)),
        SvgEvent::RelativeQuadraticTo(ctrl, to) => PrimitiveEvent::QuadraticTo(
            offset_spec(current, ctrl),
            offset_spec(current, to),
        ),
        SvgEvent::RelativeCubicTo(ctrl1, ctrl2, to) => PrimitiveEvent::CubicTo(
            offset_spec(current, ctrl1),
            offset_spec(current, ctrl2),
            Point { x: to.x, y: to.y },
        ),
        SvgEvent::HorizontalLineTo(x) => PrimitiveEvent::LineTo(Point { x: x, y: current.y }),
        SvgEvent::VerticalLineTo(y) => PrimitiveEvent::LineTo(Point { x: current.x, y: y }),
        SvgEvent::RelativeHorizontalLineTo(x) => PrimitiveEvent::LineTo(
            Point { x: current.x.wrapping_add(x), y: current.y },
        ),
        SvgEvent::RelativeVerticalLineTo(y) => PrimitiveEvent::LineTo(
            Point { x: current.x, y: current.y.wrapping_add(y) },
        ),
        SvgEvent::ArcTo(..) => PrimitiveEvent::Close,
    }
}

/// The SVG event that writes a primitive event in absolute coordinates.
pub open spec fn svg_form(e: PrimitiveEvent) -> SvgEvent {
    match e {
        PrimitiveEvent::MoveTo(to) => SvgEvent::MoveTo(to),
        PrimitiveEvent::LineTo(to) => SvgEvent::LineTo(to),
        PrimitiveEvent::QuadraticTo(ctrl, to) => SvgEvent::QuadraticTo(ctrl, to),
        PrimitiveEvent::CubicTo(ctrl1, ctrl2, to) => SvgEvent::CubicTo(ctrl1, ctrl2, to),
        PrimitiveEvent::Close => SvgEvent::Close,
    }
}

impl SvgEvent {
    /// The primitive event this event stands for when the path is at
    /// `current`. Arcs have no primitive form.
    pub fn to_primitive(self, current: Point) -> (r: PrimitiveEvent)
        requires
            has_primitive_form(self),
        ensures
            r == primitive_form(self, current),
    {
        match self {
            SvgEvent::MoveTo(to) => PrimitiveEvent::MoveTo(to),
            SvgEvent::LineTo(to) => PrimitiveEvent::LineTo(to),
            SvgEvent::QuadraticTo(ctrl, to) => PrimitiveEvent::QuadraticTo(ctrl, to),
            SvgEvent::CubicTo(ctrl1, ctrl2, to) => PrimitiveEvent::CubicTo(ctrl1, ctrl2, to),
            SvgEvent::Close => PrimitiveEvent::Close,
            SvgEvent::RelativeMoveTo(to) => PrimitiveEvent::MoveTo(current.offset(to)),
            SvgEvent::RelativeLineTo(to) => PrimitiveEvent::LineTo(current.offset(to)),
            SvgEvent::RelativeQuadraticTo(ctrl, to) => PrimitiveEvent::QuadraticTo(
                current.offset(ctrl),
                current.offset(to),
            ),
            SvgEvent::RelativeCubicTo(ctrl1, ctrl2, to) => PrimitiveEvent::CubicTo(
                current.offset(ctrl1),
                current.offset(ctrl2),
                Point::new(to.x, to.y),
            ),
            SvgEvent::HorizontalLineTo(x) => PrimitiveEvent::LineTo(Point::new(x, current.y)),
            SvgEvent::VerticalLineTo(y) => PrimitiveEvent::LineTo(Point::new(current.x, y)),
            SvgEvent::RelativeHorizontalLineTo(x) => PrimitiveEvent::LineTo(
                Point::new(current.x.wrapping_add(x), current.y),
            ),
            SvgEvent::RelativeVerticalLineTo(y) => PrimitiveEvent::LineTo(
                Point::new(current.x, current.y.wrapping_add(y)),
            ),
            SvgEvent::ArcTo(..) => {
                // excluded by the precondition
                proof {
                    assert(false);
                }
                PrimitiveEvent::Close
            },
        }
    }
}

impl PrimitiveEvent {
    /// This event as an absolute SVG event.
    pub fn to_svg(self) -> (r: SvgEvent)
        ensures
            r == svg_form(self),
    {
        match self {
            PrimitiveEvent::MoveTo(to) => SvgEvent::MoveTo(to),
            PrimitiveEvent::LineTo(to) => SvgEvent::LineTo(to),
            PrimitiveEvent::QuadraticTo(ctrl, to) => SvgEvent::QuadraticTo(ctrl, to),
            PrimitiveEvent::CubicTo(ctrl1, ctrl2, to) => SvgEvent::CubicTo(ctrl1, ctrl2, to),
            PrimitiveEvent::Close => SvgEvent::Close,
        }
    }
}

/// Writing a primitive event as an SVG event and reading it back gives the
/// same event, whatever the current position.
pub proof fn lemma_svg_round_trip(e: PrimitiveEvent, current: Point)
    ensures
        has_primitive_form(svg_form(e)),
        primitive_form(svg_form(e), current) == e,
{
}

/// Two primitive events with the same SVG form are the same event.
pub proof fn lemma_svg_form_injective(a: PrimitiveEvent, b: PrimitiveEvent)
    requires
        svg_form(a) == svg_form(b),
    ensures
        a == b,
{
}

/// An absolute SVG event (one that is neither relative nor a horizontal or
/// vertical shorthand) reads the same at every current position.
pub proof fn lemma_absolute_ignores_position(e: SvgEvent, p: Point, q: Point)
    requires
        e is MoveTo || e is LineTo || e is QuadraticTo || e is CubicTo || e is Close,
    ensures
        primitive_form(e, p) == primitive_form(e, q),
{
}

/// Relative SVG events are resolved at the current position `p`: each
/// relative point is `p` moved by its vector, coordinate by coordinate
/// (wrapping at the range of `i32`), except the end point of a relative
/// cubic, which is taken as it is; the horizontal and vertical shorthands keep
/// the other coordinate of `p`.
pub proof fn lemma_relative_events_resolve(
    p: Point,
    v: Vec2,
    c1: Vec2,
    c2: Vec2,
    x: i32,
    y: i32,
)
    ensures
        primitive_form(SvgEvent::RelativeMoveTo(v), p) == PrimitiveEvent::MoveTo(
            Point { x: p.x.wrapping_add(v.x), y: p.y.wrapping_add(v.y) },
        ),
        primitive_form(SvgEvent::RelativeLineTo(v), p) == PrimitiveEvent::LineTo(
            Point { x: p.x.wrapping_add(v.x), y: p.y.wrapping_add(v.y) },
        ),
        primitive_form(SvgEvent::RelativeQuadraticTo(c1, v), p) == PrimitiveEvent::QuadraticTo(
            Point { x: p.x.wrapping_add(c1.x), y: p.y.wrapping_add(c1.y) },
            Point { x: p.x.wrapping_add(v.x), y: p.y.wrapping_add(v.y) },
        ),
        primitive_form(SvgEvent::RelativeCubicTo(c1, c2, v), p) == PrimitiveEvent::CubicTo(
            Point { x: p.x.wrapping_add(c1.x), y: p.y.wrapping_add(c1.y) },
            Point { x: p.x.wrapping_add(c2.x), y: p.y.wrapping_add(c2.y) },
            Point { x: v.x, y: v.y },
        ),
        primitive_form(SvgEvent::HorizontalLineTo(x), p) == PrimitiveEvent::LineTo(
            Point { x: x, y: p.y },
        ),
        primitive_form(SvgEvent::VerticalLineTo(y), p) == PrimitiveEvent::LineTo(
            Point { x: p.x, y: y },
        ),
        primitive_form(SvgEvent::RelativeHorizontalLineTo(x), p) == PrimitiveEvent::LineTo(
            Point { x: p.x.wrapping_add(x), y: p.y },
        ),
        primitive_form(SvgEvent::RelativeVerticalLineTo(y), p) == PrimitiveEvent::LineTo(
            Point { x: p.x, y: p.y.wrapping_add(y) },
        ),
{
}

/// A relative event at `p` reads as the absolute event whose points are `p`
/// moved by its vectors: the vector from `p` to each resolved point is the
/// vector given.
pub proof fn lemma_relative_vectors_recovered(p: Point, c1: Vec2, v: Vec2)
    ensures
        primitive_form(SvgEvent::RelativeLineTo(v), p) matches PrimitiveEvent::LineTo(to) ==> (
        to.x.wrapping_sub(p.x) == v.x && to.y.wrapping_sub(p.y) == v.y),
        primitive_form(SvgEvent::RelativeQuadraticTo(c1, v), p) matches PrimitiveEvent::QuadraticTo(
            ctrl,
            to,
        ) ==> (ctrl.x.wrapping_sub(p.x) == c1.x && ctrl.y.wrapping_sub(p.y) == c1.y && to.x.wrapping_sub(
        p.x) == v.x && to.y.wrapping_sub(p.y) == v.y),
{
    let (px, py, cx, cy, vx, vy) = (p.x, p.y, c1.x, c1.y, v.x, v.y);
    assert(px.wrapping_add(cx).wrapping_sub(px) == cx) by (bit_vector);
    assert(py.wrapping_add(cy).wrapping_sub(py) == cy) by (bit_vector);
    assert(px.wrapping_add(vx).wrapping_sub(px) == vx) by (bit_vector);
    assert(py.wrapping_add(vy).wrapping_sub(py) == vy) by (bit_vector);
}

/// Absolute SVG events keep their points at every current position.
pub proof fn lemma_absolute_events_keep_points(a: Point, b: Point, c: Point, p: Point)
    ensures
        primitive_form(SvgEvent::MoveTo(a), p) == PrimitiveEvent::MoveTo(a),
        primitive_form(SvgEvent::LineTo(a), p) == PrimitiveEvent::LineTo(a),
        primitive_form(SvgEvent::QuadraticTo(a, b), p) == PrimitiveEvent::QuadraticTo(a, b),
        primitive_form(SvgEvent::CubicTo(a, b, c), p) == PrimitiveEvent::CubicTo(a, b, c),
        primitive_form(SvgEvent::Close, p) == PrimitiveEvent::Close,
{
}

/// The SVG form of a primitive event is the absolute SVG event of the same
/// kind with the same points.
pub proof fn lemma_svg_form_is_absolute(a: Point, b: Point, c: Point)
    ensures
        svg_form(PrimitiveEvent::MoveTo(a)) == SvgEvent::MoveTo(a),
        svg_form(PrimitiveEvent::LineTo(a)) == SvgEvent::LineTo(a),
        svg_form(PrimitiveEvent::QuadraticTo(a, b)) == SvgEvent::QuadraticTo(a, b),
        svg_form(PrimitiveEvent::CubicTo(a, b, c)) == SvgEvent::CubicTo(a, b, c),
        svg_form(PrimitiveEvent::Close) == SvgEvent::Close,
{
}

} // verus!
