use path_events::events::{FlattenedEvent, PrimitiveEvent, Segment, SvgEvent};
use path_events::math::{point, Point};
use path_events::path::Verb;
use path_events::path_iterator::{
    EventListIter, FlattenIter, FlattenStep, PathIter, PathIterator, PrimitiveToSvgIter, QuadraticBezierSegment,
    SegmentIterator, SvgToPrimitiveIter,
};

fn sample_vertices() -> Vec<Point> {
    vec![
        point(1, 1),
        point(5, 1),
        point(6, 2),
        point(7, 3),
        point(8, 4),
        point(9, 5),
        point(10, 6),
    ]
}

fn sample_verbs() -> Vec<Verb> {
    vec![Verb::MoveTo, Verb::LineTo, Verb::QuadraticTo, Verb::CubicTo, Verb::Close]
}

#[test]
fn path_iter_yields_one_event_per_verb() {
    let vertices = sample_vertices();
    let verbs = sample_verbs();
    let mut it = PathIter::new(&vertices, &verbs);
    assert_eq!(it.current_position(), point(0, 0));
    assert_eq!(it.first_position(), point(0, 0));

    assert_eq!(it.next(), Some(PrimitiveEvent::MoveTo(point(1, 1))));
    assert_eq!(it.current_position(), point(1, 1));
    assert_eq!(it.first_position(), point(1, 1));

    assert_eq!(it.next(), Some(PrimitiveEvent::LineTo(point(5, 1))));
    assert_eq!(it.current_position(), point(5, 1));
    assert_eq!(it.first_position(), point(1, 1));

    assert_eq!(it.next(), Some(PrimitiveEvent::QuadraticTo(point(6, 2), point(7, 3))));
    assert_eq!(it.current_position(), point(7, 3));

    assert_eq!(
        it.next(),
        Some(PrimitiveEvent::CubicTo(point(8, 4), point(9, 5), point(10, 6)))
    );
    assert_eq!(it.current_position(), point(10, 6));

    assert_eq!(it.next(), Some(PrimitiveEvent::Close));
    assert_eq!(it.current_position(), point(1, 1));
    assert_eq!(it.first_position(), point(1, 1));

    assert_eq!(it.next(), None);
    assert_eq!(it.next(), None);
    assert_eq!(it.current_position(), point(1, 1));
}

#[test]
fn path_iter_on_an_empty_path() {
    let vertices: Vec<Point> = vec![];
    let verbs: Vec<Verb> = vec![];
    let mut it = PathIter::new(&vertices, &verbs);
    assert_eq!(it.next(), None);
}

#[test]
fn path_iter_clone_walks_independently() {
    let vertices = sample_vertices();
    let verbs = sample_verbs();
    let mut it = PathIter::new(&vertices, &verbs);
    it.next();
    let mut other = it.clone();
    assert_eq!(other.next(), Some(PrimitiveEvent::LineTo(point(5, 1))));
    assert_eq!(it.next(), Some(PrimitiveEvent::LineTo(point(5, 1))));
}

#[test]
fn segments_of_a_path() {
    let vertices = vec![point(1, 1), point(4, 1), point(4, 4), point(9, 9), point(9, 12)];
    let verbs = vec![
        Verb::MoveTo,
        Verb::LineTo,
        Verb::LineTo,
        Verb::Close,
        Verb::MoveTo,
        Verb::LineTo,
    ];
    let mut segs = SegmentIterator::new(PathIter::new(&vertices, &verbs));
    // A move does not change the current position, so the first line starts
    // at the origin.
    assert_eq!(segs.next(), Some(Segment::Line(point(0, 0), point(4, 1))));
    assert_eq!(segs.next(), Some(Segment::Line(point(4, 1), point(4, 4))));
    // The close draws from the first position to the current one.
    assert_eq!(segs.next(), Some(Segment::Line(point(1, 1), point(4, 4))));
    assert_eq!(segs.next(), Some(Segment::Line(point(4, 4), point(9, 12))));
    assert_eq!(segs.next(), None);
    assert_eq!(segs.next(), None);
}

#[test]
fn segments_of_curves() {
    let vertices = sample_vertices();
    let verbs = sample_verbs();
    let mut segs = SegmentIterator::new(PathIter::new(&vertices, &verbs));
    assert_eq!(segs.next(), Some(Segment::Line(point(0, 0), point(5, 1))));
    assert_eq!(
        segs.next(),
        Some(Segment::QuadraticBezier(point(5, 1), point(6, 2), point(7, 3)))
    );
    assert_eq!(
        segs.next(),
        Some(Segment::CubicBezier(point(7, 3), point(8, 4), point(9, 5), point(10, 6)))
    );
    assert_eq!(segs.next(), Some(Segment::Line(point(1, 1), point(10, 6))));
    assert_eq!(segs.next(), None);
}

#[test]
fn a_move_closes_an_open_sub_path() {
    let vertices = vec![point(1, 1), point(3, 3), point(7, 7)];
    let verbs = vec![Verb::MoveTo, Verb::LineTo, Verb::MoveTo];
    let mut segs = SegmentIterator::new(PathIter::new(&vertices, &verbs));
    assert_eq!(segs.next(), Some(Segment::Line(point(0, 0), point(3, 3))));
    assert_eq!(segs.next(), Some(Segment::Line(point(1, 1), point(3, 3))));
    assert_eq!(segs.next(), None);
}

#[test]
fn a_close_at_the_first_position_yields_nothing() {
    // The path comes back to where it started before it closes.
    let vertices = vec![point(0, 0), point(2, 0), point(0, 0)];
    let verbs = vec![Verb::MoveTo, Verb::LineTo, Verb::LineTo, Verb::Close];
    let mut segs = SegmentIterator::new(PathIter::new(&vertices, &verbs));
    assert_eq!(segs.next(), Some(Segment::Line(point(0, 0), point(2, 0))));
    assert_eq!(segs.next(), Some(Segment::Line(point(2, 0), point(0, 0))));
    assert_eq!(segs.next(), None);
}

#[test]
fn primitive_to_svg_and_back() {
    let vertices = sample_vertices();
    let verbs = sample_verbs();
    let mut svg = PrimitiveToSvgIter::new(PathIter::new(&vertices, &verbs));
    assert_eq!(svg.next(), Some(SvgEvent::MoveTo(point(1, 1))));
    assert_eq!(svg.current_position(), point(1, 1));
    assert_eq!(svg.next(), Some(SvgEvent::LineTo(point(5, 1))));
    assert_eq!(svg.first_position(), point(1, 1));

    let mut back = SvgToPrimitiveIter::new(PrimitiveToSvgIter::new(PathIter::new(&vertices, &verbs)));
    let mut direct = PathIter::new(&vertices, &verbs);
    loop {
        let a = back.next();
        let b = direct.next();
        assert_eq!(a, b);
        assert_eq!(back.current_position(), direct.current_position());
        assert_eq!(back.first_position(), direct.first_position());
        if a.is_none() {
            break;
        }
    }
}

#[test]
fn flattening_hands_out_curves_and_their_points() {
    let vertices = vec![point(1, 1), point(2, 5), point(4, 1), point(8, 1)];
    let verbs = vec![Verb::MoveTo, Verb::QuadraticTo, Verb::LineTo, Verb::Close];
    let mut flat = FlattenIter::new(PathIter::new(&vertices, &verbs));
    assert_eq!(flat.next(), FlattenStep::Event(FlattenedEvent::MoveTo(point(1, 1))));
    // The curve starts where the stream stands once the curve has been read.
    assert_eq!(
        flat.next(),
        FlattenStep::Flatten(QuadraticBezierSegment { from: point(4, 1), cp: point(2, 5), to: point(4, 1) })
    );
    assert_eq!(flat.current_position(), point(4, 1));
    flat.set_curve_points(vec![point(2, 3), point(4, 1)]);
    assert_eq!(flat.next(), FlattenStep::Event(FlattenedEvent::LineTo(point(2, 3))));
    assert_eq!(flat.next(), FlattenStep::Event(FlattenedEvent::LineTo(point(4, 1))));
    assert_eq!(flat.next(), FlattenStep::Event(FlattenedEvent::LineTo(point(8, 1))));
    assert_eq!(flat.next(), FlattenStep::Event(FlattenedEvent::Close));
    assert_eq!(flat.first_position(), point(1, 1));
    assert_eq!(flat.next(), FlattenStep::End);
}

#[test]
fn flattening_with_no_curve_points() {
    let vertices = vec![point(1, 1), point(2, 5), point(4, 1)];
    let verbs = vec![Verb::MoveTo, Verb::QuadraticTo];
    let mut flat = FlattenIter::new(PathIter::new(&vertices, &verbs));
    assert_eq!(flat.next(), FlattenStep::Event(FlattenedEvent::MoveTo(point(1, 1))));
    assert!(matches!(flat.next(), FlattenStep::Flatten(_)));
    flat.set_curve_points(vec![]);
    assert_eq!(flat.next(), FlattenStep::End);
}

#[test]
fn event_list_iter_tracks_positions() {
    let events = vec![
        PrimitiveEvent::MoveTo(point(1, 1)),
        PrimitiveEvent::LineTo(point(4, 1)),
        PrimitiveEvent::QuadraticTo(point(5, 5), point(6, 1)),
        PrimitiveEvent::CubicTo(point(7, 2), point(8, 3), point(9, 1)),
        PrimitiveEvent::Close,
    ];
    let mut it = EventListIter::new(&events);
    assert_eq!(it.current_position(), point(0, 0));
    assert_eq!(it.next(), Some(events[0]));
    assert_eq!((it.current_position(), it.first_position()), (point(1, 1), point(1, 1)));
    assert_eq!(it.next(), Some(events[1]));
    assert_eq!((it.current_position(), it.first_position()), (point(4, 1), point(1, 1)));
    assert_eq!(it.next(), Some(events[2]));
    assert_eq!(it.current_position(), point(6, 1));
    assert_eq!(it.next(), Some(events[3]));
    assert_eq!(it.current_position(), point(9, 1));
    assert_eq!(it.next(), Some(events[4]));
    assert_eq!((it.current_position(), it.first_position()), (point(1, 1), point(1, 1)));
    assert_eq!(it.next(), None);
    assert_eq!(it.next(), None);
}

#[test]
fn event_list_walks_like_the_path() {
    let vertices = sample_vertices();
    let verbs = sample_verbs();
    let mut path = PathIter::new(&vertices, &verbs);
    let mut events = Vec::new();
    while let Some(e) = path.next() {
        events.push(e);
    }
    assert_eq!(events.len(), verbs.len());
    let mut list = EventListIter::new(&events);
    let mut again = PathIter::new(&vertices, &verbs);
    loop {
        let a = list.next();
        assert_eq!(a, again.next());
        assert_eq!(list.current_position(), again.current_position());
        assert_eq!(list.first_position(), again.first_position());
        if a.is_none() {
            break;
        }
    }
}

#[test]
fn segments_of_an_event_list_with_two_closes() {
    let events = vec![
        PrimitiveEvent::MoveTo(point(1, 1)),
        PrimitiveEvent::LineTo(point(4, 1)),
        PrimitiveEvent::Close,
        PrimitiveEvent::Close,
        PrimitiveEvent::LineTo(point(4, 4)),
    ];
    let mut segs = SegmentIterator::new(EventListIter::new(&events));
    assert_eq!(segs.next(), Some(Segment::Line(point(0, 0), point(4, 1))));
    // One closing line for the two closes.
    assert_eq!(segs.next(), Some(Segment::Line(point(1, 1), point(4, 1))));
    assert_eq!(segs.next(), Some(Segment::Line(point(4, 1), point(4, 4))));
    assert_eq!(segs.next(), None);
}

#[test]
fn a_move_to_the_current_position_yields_no_line() {
    let events = vec![
        PrimitiveEvent::LineTo(point(3, 0)),
        PrimitiveEvent::MoveTo(point(8, 8)),
        PrimitiveEvent::LineTo(point(3, 3)),
    ];
    let mut segs = SegmentIterator::new(EventListIter::new(&events));
    assert_eq!(segs.next(), Some(Segment::Line(point(0, 0), point(3, 0))));
    // The sub-path started at the origin and stands at (3, 0): the move
    // closes it with a line between the two.
    assert_eq!(segs.next(), Some(Segment::Line(point(0, 0), point(3, 0))));
    assert_eq!(segs.next(), Some(Segment::Line(point(3, 0), point(3, 3))));
    assert_eq!(segs.next(), None);

    let events = vec![
        PrimitiveEvent::MoveTo(point(0, 0)),
        PrimitiveEvent::MoveTo(point(5, 5)),
        PrimitiveEvent::LineTo(point(6, 6)),
    ];
    let mut segs = SegmentIterator::new(EventListIter::new(&events));
    // First and current are both the origin at the second move: no line.
    assert_eq!(segs.next(), Some(Segment::Line(point(0, 0), point(6, 6))));
    assert_eq!(segs.next(), None);

    let events = vec![
        PrimitiveEvent::MoveTo(point(2, 2)),
        PrimitiveEvent::MoveTo(point(5, 5)),
    ];
    let mut segs = SegmentIterator::new(EventListIter::new(&events));
    // A move does not move the walk: the second move closes the sub-path
    // opened at (2, 2) while the walk still stands at the origin.
    assert_eq!(segs.next(), Some(Segment::Line(point(2, 2), point(0, 0))));
    assert_eq!(segs.next(), None);
}

#[test]
fn svg_events_from_an_event_list() {
    let events = vec![PrimitiveEvent::MoveTo(point(1, 2)), PrimitiveEvent::Close];
    let mut svg = PrimitiveToSvgIter::new(EventListIter::new(&events));
    assert_eq!(svg.next(), Some(SvgEvent::MoveTo(point(1, 2))));
    assert_eq!(svg.next(), Some(SvgEvent::Close));
    assert_eq!(svg.next(), None);
}

#[test]
fn flattening_a_whole_stream() {
    let events = vec![
        PrimitiveEvent::MoveTo(point(0, 0)),
        PrimitiveEvent::QuadraticTo(point(1, 2), point(2, 0)),
        PrimitiveEvent::LineTo(point(3, 0)),
        PrimitiveEvent::QuadraticTo(point(4, 2), point(5, 0)),
        PrimitiveEvent::Close,
    ];
    let answers = vec![
        vec![point(1, 1), point(2, 0)],
        vec![point(4, 1), point(5, 0), point(5, 0)],
    ];
    let mut flat = FlattenIter::new(EventListIter::new(&events));
    let mut next_answer = 0;
    let mut out = Vec::new();
    loop {
        match flat.next() {
            FlattenStep::Event(e) => out.push(e),
            FlattenStep::Flatten(_) => {
                flat.set_curve_points(answers[next_answer].clone());
                next_answer += 1;
            }
            FlattenStep::End => break,
        }
    }
    assert_eq!(
        out,
        vec![
            FlattenedEvent::MoveTo(point(0, 0)),
            FlattenedEvent::LineTo(point(1, 1)),
            FlattenedEvent::LineTo(point(2, 0)),
            FlattenedEvent::LineTo(point(3, 0)),
            FlattenedEvent::LineTo(point(4, 1)),
            FlattenedEvent::LineTo(point(5, 0)),
            FlattenedEvent::LineTo(point(5, 0)),
            FlattenedEvent::Close,
        ]
    );
    assert!(out.len() <= events.len() + 5);
}
