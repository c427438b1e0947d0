use path_events::events::{PrimitiveEvent, SvgEvent};
use path_events::math::{point, vec2, Point};

#[test]
fn absolute_svg_events_keep_their_points() {
    let cur = point(5, 7);
    let a = point(1, 2);
    let b = point(3, 4);
    let c = point(-6, 8);
    assert_eq!(SvgEvent::MoveTo(a).to_primitive(cur), PrimitiveEvent::MoveTo(a));
    assert_eq!(SvgEvent::LineTo(a).to_primitive(cur), PrimitiveEvent::LineTo(a));
    assert_eq!(SvgEvent::QuadraticTo(a, b).to_primitive(cur), PrimitiveEvent::QuadraticTo(a, b));
    assert_eq!(SvgEvent::CubicTo(a, b, c).to_primitive(cur), PrimitiveEvent::CubicTo(a, b, c));
    assert_eq!(SvgEvent::Close.to_primitive(cur), PrimitiveEvent::Close);
}

#[test]
fn relative_svg_events_are_offset_by_the_current_position() {
    let cur = point(5, 7);
    assert_eq!(
        SvgEvent::RelativeMoveTo(vec2(1, -2)).to_primitive(cur),
        PrimitiveEvent::MoveTo(point(6, 5))
    );
    assert_eq!(
        SvgEvent::RelativeLineTo(vec2(-5, 3)).to_primitive(cur),
        PrimitiveEvent::LineTo(point(0, 10))
    );
    assert_eq!(
        SvgEvent::RelativeQuadraticTo(vec2(1, 1), vec2(2, 0)).to_primitive(cur),
        PrimitiveEvent::QuadraticTo(point(6, 8), point(7, 7))
    );
}

#[test]
fn relative_cubic_keeps_its_end_point_as_given() {
    let cur = point(5, 7);
    assert_eq!(
        SvgEvent::RelativeCubicTo(vec2(1, 1), vec2(2, 2), vec2(3, 3)).to_primitive(cur),
        PrimitiveEvent::CubicTo(point(6, 8), point(7, 9), point(3, 3))
    );
}

#[test]
fn horizontal_and_vertical_shorthands() {
    let cur = point(5, 7);
    assert_eq!(SvgEvent::HorizontalLineTo(-4).to_primitive(cur), PrimitiveEvent::LineTo(point(-4, 7)));
    assert_eq!(SvgEvent::VerticalLineTo(9).to_primitive(cur), PrimitiveEvent::LineTo(point(5, 9)));
    assert_eq!(
        SvgEvent::RelativeHorizontalLineTo(-4).to_primitive(cur),
        PrimitiveEvent::LineTo(point(1, 7))
    );
    assert_eq!(
        SvgEvent::RelativeVerticalLineTo(9).to_primitive(cur),
        PrimitiveEvent::LineTo(point(5, 16))
    );
}

#[test]
fn offsets_wrap_at_the_coordinate_range() {
    let cur = point(i32::MAX, i32::MIN);
    assert_eq!(
        SvgEvent::RelativeLineTo(vec2(1, -1)).to_primitive(cur),
        PrimitiveEvent::LineTo(point(i32::MIN, i32::MAX))
    );
    assert_eq!(cur.offset(vec2(2, 0)), Point::new(i32::MIN + 1, i32::MIN));
}

#[test]
fn primitive_events_as_svg() {
    let a = point(1, 2);
    let b = point(3, 4);
    let c = point(-6, 8);
    assert_eq!(PrimitiveEvent::MoveTo(a).to_svg(), SvgEvent::MoveTo(a));
    assert_eq!(PrimitiveEvent::LineTo(b).to_svg(), SvgEvent::LineTo(b));
    assert_eq!(PrimitiveEvent::QuadraticTo(a, b).to_svg(), SvgEvent::QuadraticTo(a, b));
    assert_eq!(PrimitiveEvent::CubicTo(a, b, c).to_svg(), SvgEvent::CubicTo(a, b, c));
    assert_eq!(PrimitiveEvent::Close.to_svg(), SvgEvent::Close);
}

#[test]
fn svg_round_trip_on_concrete_events() {
    let events = [
        PrimitiveEvent::MoveTo(point(1, 2)),
        PrimitiveEvent::LineTo(point(3, 4)),
        PrimitiveEvent::QuadraticTo(point(5, 6), point(7, 8)),
        PrimitiveEvent::CubicTo(point(9, 10), point(11, 12), point(13, 14)),
        PrimitiveEvent::Close,
    ];
    for e in events.iter() {
        assert_eq!(e.to_svg().to_primitive(point(100, -100)), *e);
    }
}
