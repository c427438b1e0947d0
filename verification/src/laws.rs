use vstd::prelude::*;
use crate::math::Point;
use crate::path::{Verb, arity, vertices_needed};
use crate::events::{
    FlattenedEvent,
    PrimitiveEvent,
    Segment,
    SvgEvent,
    has_primitive_form,
    primitive_form,
    lemma_svg_round_trip,
};
use crate::path_iterator::{
    PathIterator,
    Step,
    path_steps,
    event_list_steps,
    primitive_steps,
    svg_steps,
    segment_run,
    SvgToPrimitiveIter,
    PrimitiveToSvgIter,
    flatten_drive,
    flatten_next,
    first_answer,
    later_answers,
    FlattenStep,
    QuadraticBezierSegment,
};

verus! {

/// Writing a stream of primitive steps as SVG steps and reading them back
/// gives the same stream.
pub proof fn lemma_svg_steps_round_trip(steps: Seq<Step<PrimitiveEvent>>)
    ensures
        primitive_steps(svg_steps(steps)) == steps,
    decreases steps.len(),
{
    if steps.len() > 0 {
        let s = svg_steps(steps);
        lemma_svg_round_trip(steps[0].0, steps[0].1);
        assert(s.drop_first() =~= svg_steps(steps.drop_first()));
        lemma_svg_steps_round_trip(steps.drop_first());
        assert(primitive_steps(s) =~= steps);
    } else {
        assert(svg_steps(steps).len() == 0);
    }
}

/// The SVG form of a primitive stream holds no arc.
pub proof fn lemma_svg_steps_have_primitive_form(steps: Seq<Step<PrimitiveEvent>>)
    ensures
        forall|i: int|
            0 <= i < svg_steps(steps).len() ==> has_primitive_form(#[trigger] svg_steps(steps)[i].0),
{
}

/// Turning a stream of primitive events into SVG events and back yields the
/// stream itself: the same events, the same positions, and it ends the same
/// way.
pub proof fn lemma_adapters_round_trip<I: PathIterator<PrimitiveEvent>>(
    it: SvgToPrimitiveIter<PrimitiveToSvgIter<I>>,
)
    ensures
        it.steps() == it.inner().inner().steps(),
        it.position() == it.inner().inner().position(),
        it.can_advance() == it.inner().inner().can_advance(),
        it.complete() == it.inner().inner().complete(),
{
    lemma_svg_steps_round_trip(it.inner().inner().steps());
    lemma_svg_steps_have_primitive_form(it.inner().inner().steps());
}

/// When the vertices suffice for every verb, a path yields exactly one event
/// per verb.
pub proof fn lemma_one_event_per_verb(
    verbs: Seq<Verb>,
    vertices: Seq<Point>,
    current: Point,
    first: Point,
)
    requires
        vertices_needed(verbs) <= vertices.len(),
    ensures
        path_steps(verbs, vertices, current, first).len() == verbs.len(),
    decreases verbs.len(),
{
    if verbs.len() > 0 {
        let rest = verbs.drop_first();
        match verbs[0] {
            Verb::MoveTo => {
                lemma_one_event_per_verb(rest, vertices.skip(1), vertices[0], vertices[0]);
            },
            Verb::LineTo => {
                lemma_one_event_per_verb(rest, vertices.skip(1), vertices[0], first);
            },
            Verb::QuadraticTo => {
                lemma_one_event_per_verb(rest, vertices.skip(2), vertices[1], first);
            },
            Verb::CubicTo => {
                lemma_one_event_per_verb(rest, vertices.skip(3), vertices[2], first);
            },
            Verb::Close => {
                lemma_one_event_per_verb(rest, vertices, first, first);
            },
        }
    }
}

/// The position a path stands at after an event: a move starts a sub-path at
/// its point, a drawing event ends at its end point, and a close returns to
/// the first position of the sub-path.
pub open spec fn lands_where_it_says(step: Step<PrimitiveEvent>) -> bool {
    match step.0 {
        PrimitiveEvent::MoveTo(to) => step.1 == to && step.2 == to,
        PrimitiveEvent::LineTo(to) => step.1 == to,
        PrimitiveEvent::QuadraticTo(_, to) => step.1 == to,
        PrimitiveEvent::CubicTo(_, _, to) => step.1 == to,
        PrimitiveEvent::Close => step.1 == step.2,
    }
}

/// Every event of a path leaves the path at the position the event names.
pub proof fn lemma_path_positions(
    verbs: Seq<Verb>,
    vertices: Seq<Point>,
    current: Point,
    first: Point,
)
    ensures
        forall|i: int|
            0 <= i < path_steps(verbs, vertices, current, first).len() ==> lands_where_it_says(
                #[trigger] path_steps(verbs, vertices, current, first)[i],
            ),
    decreases verbs.len(),
{
    let s = path_steps(verbs, vertices, current, first);
    if s.len() > 0 {
        let rest = verbs.drop_first();
        let (v2, c2, f2) = match verbs[0] {
            Verb::MoveTo => (vertices.skip(1), vertices[0], vertices[0]),
            Verb::LineTo => (vertices.skip(1), vertices[0], first),
            Verb::QuadraticTo => (vertices.skip(2), vertices[1], first),
            Verb::CubicTo => (vertices.skip(3), vertices[2], first),
            Verb::Close => (vertices, first, first),
        };
        lemma_path_positions(rest, v2, c2, f2);
        assert forall|i: int| 0 <= i < s.len() implies lands_where_it_says(#[trigger] s[i]) by {
            if i > 0 {
                assert(s[i] == path_steps(rest, v2, c2, f2)[i - 1]);
            }
        }
    }
}

/// A stream of events never yields more segments than it has events.
pub proof fn lemma_segments_at_most_events(
    current: Point,
    first: Point,
    in_sub_path: bool,
    steps: Seq<Step<PrimitiveEvent>>,
)
    ensures
        segment_run(current, first, in_sub_path, steps).len() <= steps.len(),
    decreases steps.len(),
{
    if steps.len() > 0 {
        let rest = steps.drop_first();
        match steps[0].0 {
            PrimitiveEvent::MoveTo(to) => {
                lemma_segments_at_most_events(current, to, in_sub_path, rest);
                lemma_segments_at_most_events(current, to, true, rest);
            },
            PrimitiveEvent::LineTo(to) => {
                lemma_segments_at_most_events(to, first, true, rest);
            },
            PrimitiveEvent::QuadraticTo(_, to) => {
                lemma_segments_at_most_events(to, first, true, rest);
            },
            PrimitiveEvent::CubicTo(_, _, to) => {
                lemma_segments_at_most_events(to, first, true, rest);
            },
            PrimitiveEvent::Close => {
                lemma_segments_at_most_events(current, current, false, rest);
            },
        }
    }
}

/// The verb that an event of a path comes from.
pub open spec fn verb_of(e: PrimitiveEvent) -> Verb {
    match e {
        PrimitiveEvent::MoveTo(_) => Verb::MoveTo,
        PrimitiveEvent::LineTo(_) => Verb::LineTo,
        PrimitiveEvent::QuadraticTo(..) => Verb::QuadraticTo,
        PrimitiveEvent::CubicTo(..) => Verb::CubicTo,
        PrimitiveEvent::Close => Verb::Close,
    }
}

/// The points an event carries, in order.
pub open spec fn points_of(e: PrimitiveEvent) -> Seq<Point> {
    match e {
        PrimitiveEvent::MoveTo(to) => seq![to],
        PrimitiveEvent::LineTo(to) => seq![to],
        PrimitiveEvent::QuadraticTo(ctrl, to) => seq![ctrl, to],
        PrimitiveEvent::CubicTo(ctrl1, ctrl2, to) => seq![ctrl1, ctrl2, to],
        PrimitiveEvent::Close => seq![],
    }
}

/// The points that a run of steps carries, one event after the other.
pub open spec fn event_points(steps: Seq<Step<PrimitiveEvent>>) -> Seq<Point>
    decreases steps.len(),
{
    if steps.len() == 0 {
        seq![]
    } else {
        points_of(steps[0].0) + event_points(steps.drop_first())
    }
}

/// When the vertices suffice for every verb, the events of a path are of the
/// kinds of its verbs, one per verb and in order, and the points they carry
/// are the vertices in order, up to the last one a verb consumes.
pub proof fn lemma_path_events_follow_verbs(
    verbs: Seq<Verb>,
    vertices: Seq<Point>,
    current: Point,
    first: Point,
)
    requires
        vertices_needed(verbs) <= vertices.len(),
    ensures
        path_steps(verbs, vertices, current, first).len() == verbs.len(),
        forall|i: int|
            0 <= i < verbs.len() ==> verb_of(#[trigger] path_steps(verbs, vertices, current, first)[i].0)
                == verbs[i],
        event_points(path_steps(verbs, vertices, current, first)) == vertices.take(
            vertices_needed(verbs) as int,
        ),
    decreases verbs.len(),
{
    let s = path_steps(verbs, vertices, current, first);
    if verbs.len() == 0 {
        assert(vertices.take(0) =~= Seq::<Point>::empty());
    } else {
        let rest = verbs.drop_first();
        let n = arity(verbs[0]) as int;
        let (v2, c2, f2) = match verbs[0] {
            Verb::MoveTo => (vertices.skip(1), vertices[0], vertices[0]),
            Verb::LineTo => (vertices.skip(1), vertices[0], first),
            Verb::QuadraticTo => (vertices.skip(2), vertices[1], first),
            Verb::CubicTo => (vertices.skip(3), vertices[2], first),
            Verb::Close => (vertices, first, first),
        };
        assert(v2 =~= vertices.skip(n));
        lemma_path_events_follow_verbs(rest, v2, c2, f2);
        let s2 = path_steps(rest, v2, c2, f2);
        assert(s.drop_first() =~= s2);
        assert forall|i: int| 0 <= i < verbs.len() implies verb_of(#[trigger] s[i].0) == verbs[i] by {
            if i > 0 {
                assert(s[i] == s2[i - 1]);
                assert(verbs[i] == rest[i - 1]);
            }
        }
        assert(points_of(s[0].0) =~= vertices.take(n));
        assert(vertices.take(vertices_needed(verbs) as int) =~= vertices.take(n) + v2.take(
            vertices_needed(rest) as int,
        ));
    }
}

/// The steps of a path are the steps of the list of its events: walking the
/// events of a path again gives the same positions.
pub proof fn lemma_path_steps_as_event_list(
    verbs: Seq<Verb>,
    vertices: Seq<Point>,
    current: Point,
    first: Point,
)
    ensures
        event_list_steps(
            path_steps(verbs, vertices, current, first).map_values(
                |s: Step<PrimitiveEvent>| s.0,
            ),
            current,
            first,
        ) == path_steps(verbs, vertices, current, first),
    decreases verbs.len(),
{
    let s = path_steps(verbs, vertices, current, first);
    let events = s.map_values(|s: Step<PrimitiveEvent>| s.0);
    if s.len() == 0 {
        assert(event_list_steps(events, current, first) =~= s);
    } else {
        let rest = verbs.drop_first();
        let (v2, c2, f2) = match verbs[0] {
            Verb::MoveTo => (vertices.skip(1), vertices[0], vertices[0]),
            Verb::LineTo => (vertices.skip(1), vertices[0], first),
            Verb::QuadraticTo => (vertices.skip(2), vertices[1], first),
            Verb::CubicTo => (vertices.skip(3), vertices[2], first),
            Verb::Close => (vertices, first, first),
        };
        lemma_path_steps_as_event_list(rest, v2, c2, f2);
        let s2 = path_steps(rest, v2, c2, f2);
        assert(s.drop_first() =~= s2);
        assert(events.drop_first() =~= s2.map_values(|s: Step<PrimitiveEvent>| s.0));
        assert(event_list_steps(events, current, first) =~= s);
    }
}

/// Whether an event draws: a line or a curve.
pub open spec fn is_drawing(e: PrimitiveEvent) -> bool {
    e is LineTo || e is QuadraticTo || e is CubicTo
}

/// The segment a drawing event makes when it starts at `from`.
pub open spec fn drawing_segment(e: PrimitiveEvent, from: Point) -> Segment {
    match e {
        PrimitiveEvent::QuadraticTo(ctrl, to) => Segment::QuadraticBezier(from, ctrl, to),
        PrimitiveEvent::CubicTo(ctrl1, ctrl2, to) => Segment::CubicBezier(from, ctrl1, ctrl2, to),
        PrimitiveEvent::LineTo(to) => Segment::Line(from, to),
        _ => Segment::Line(from, from),
    }
}

/// Where the segment walk stands after an event: a drawing event moves it to
/// its end point, any other event leaves it in place.
pub open spec fn walk_after(e: PrimitiveEvent, current: Point) -> Point {
    match e {
        PrimitiveEvent::LineTo(to) => to,
        PrimitiveEvent::QuadraticTo(_, to) => to,
        PrimitiveEvent::CubicTo(_, _, to) => to,
        _ => current,
    }
}

/// Where the segment walk stands just before the `i`-th of `steps`.
pub open spec fn walk_current(current: Point, steps: Seq<Step<PrimitiveEvent>>, i: int) -> Point
    decreases steps.len(),
{
    if i <= 0 || steps.len() == 0 {
        current
    } else {
        walk_current(walk_after(steps[0].0, current), steps.drop_first(), i - 1)
    }
}

/// The segments of `segment_run`, each with the index (counted from `k`) of
/// the event that yields it.
pub open spec fn segment_trace(
    current: Point,
    first: Point,
    in_sub_path: bool,
    steps: Seq<Step<PrimitiveEvent>>,
    k: int,
) -> Seq<(Segment, int)>
    decreases steps.len(),
{
    if steps.len() == 0 {
        seq![]
    } else {
        let rest = steps.drop_first();
        match steps[0].0 {
            PrimitiveEvent::MoveTo(to) => {
                if in_sub_path && first != current {
                    seq![(Segment::Line(first, current), k)] + segment_trace(
                        current,
                        to,
                        in_sub_path,
                        rest,
                        k + 1,
                    )
                } else {
                    segment_trace(current, to, true, rest, k + 1)
                }
            },
            PrimitiveEvent::LineTo(to) => {
                seq![(Segment::Line(current, to), k)] + segment_trace(to, first, true, rest, k + 1)
            },
            PrimitiveEvent::QuadraticTo(ctrl, to) => {
                seq![(Segment::QuadraticBezier(current, ctrl, to), k)] + segment_trace(
                    to,
                    first,
                    true,
                    rest,
                    k + 1,
                )
            },
            PrimitiveEvent::CubicTo(ctrl1, ctrl2, to) => {
                seq![(Segment::CubicBezier(current, ctrl1, ctrl2, to), k)] + segment_trace(
                    to,
                    first,
                    true,
                    rest,
                    k + 1,
                )
            },
            PrimitiveEvent::Close => {
                if first != current {
                    seq![(Segment::Line(first, current), k)] + segment_trace(
                        current,
                        current,
                        false,
                        rest,
                        k + 1,
                    )
                } else {
                    segment_trace(current, current, false, rest, k + 1)
                }
            },
        }
    }
}

/// The facts about `segment_trace` that the public laws below rest on.
proof fn lemma_segment_trace_facts(
    current: Point,
    first: Point,
    in_sub_path: bool,
    steps: Seq<Step<PrimitiveEvent>>,
    k: int,
)
    ensures
        ({
            let t = segment_trace(current, first, in_sub_path, steps, k);
            &&& t.map_values(|p: (Segment, int)| p.0) == segment_run(
                current,
                first,
                in_sub_path,
                steps,
            )
            &&& forall|j: int| 0 <= j < t.len() ==> k <= #[trigger] t[j].1 < k + steps.len()
            &&& forall|a: int, b: int| 0 <= a < b < t.len() ==> #[trigger] t[a].1 < #[trigger] t[b].1
            &&& forall|j: int|
                0 <= j < t.len() ==> {
                    let i = #[trigger] t[j].1 - k;
                    if is_drawing(steps[i].0) {
                        t[j].0 == drawing_segment(steps[i].0, walk_current(current, steps, i))
                    } else {
                        t[j].0 matches Segment::Line(a, b) && a != b
                    }
                }
            &&& forall|i: int|
                0 <= i < steps.len() && is_drawing(#[trigger] steps[i].0) ==> exists|j: int|
                    0 <= j < t.len() && t[j].1 == k + i
        }),
    decreases steps.len(),
{
    let t = segment_trace(current, first, in_sub_path, steps, k);
    if steps.len() == 0 {
        assert(t.map_values(|p: (Segment, int)| p.0) =~= segment_run(
            current,
            first,
            in_sub_path,
            steps,
        ));
    } else {
        let rest = steps.drop_first();
        let (c2, f2, i2) = match steps[0].0 {
            PrimitiveEvent::MoveTo(to) => {
                if in_sub_path && first != current {
                    (current, to, in_sub_path)
                } else {
                    (current, to, true)
                }
            },
            PrimitiveEvent::LineTo(to) => (to, first, true),
            PrimitiveEvent::QuadraticTo(_, to) => (to, first, true),
            PrimitiveEvent::CubicTo(_, _, to) => (to, first, true),
            PrimitiveEvent::Close => (current, current, false),
        };
        lemma_segment_trace_facts(c2, f2, i2, rest, k + 1);
        let t2 = segment_trace(c2, f2, i2, rest, k + 1);
        let h = t.take(t.len() - t2.len());
        assert(c2 == walk_after(steps[0].0, current));
        assert(t =~= h + t2);
        assert(h.len() <= 1);
        assert(h.len() == 1 ==> h[0].1 == k);
        assert(is_drawing(steps[0].0) ==> h.len() == 1 && h[0].0 == drawing_segment(
            steps[0].0,
            current,
        ));
        assert(!is_drawing(steps[0].0) && h.len() == 1 ==> (h[0].0 matches Segment::Line(a, b)
            && a != b));
        assert(t.map_values(|p: (Segment, int)| p.0) =~= segment_run(
            current,
            first,
            in_sub_path,
            steps,
        )) by {
            assert(t2.map_values(|p: (Segment, int)| p.0) == segment_run(c2, f2, i2, rest));
        }
        assert forall|j: int| 0 <= j < t.len() implies k <= #[trigger] t[j].1 < k + steps.len() by {
            if j >= h.len() {
                assert(t[j] == t2[j - h.len()]);
            }
        }
        assert forall|a: int, b: int| 0 <= a < b < t.len() implies #[trigger] t[a].1
            < #[trigger] t[b].1 by {
            if a >= h.len() {
                assert(t[a] == t2[a - h.len()]);
                assert(t[b] == t2[b - h.len()]);
            } else {
                assert(t[b] == t2[b - h.len()]);
                assert(k + 1 <= t2[b - h.len()].1);
            }
        }
        assert forall|j: int| 0 <= j < t.len() implies ({
            let i = #[trigger] t[j].1 - k;
            if is_drawing(steps[i].0) {
                t[j].0 == drawing_segment(steps[i].0, walk_current(current, steps, i))
            } else {
                t[j].0 matches Segment::Line(a, b) && a != b
            }
        }) by {
            if j >= h.len() {
                let j2 = j - h.len();
                assert(t[j] == t2[j2]);
                let i = t[j].1 - k;
                assert(k + 1 <= t2[j2].1 < k + 1 + rest.len());
                assert(steps[i] == rest[i - 1]);
                assert(walk_current(current, steps, i) == walk_current(c2, rest, i - 1));
            }
        }
        assert forall|i: int| 0 <= i < steps.len() && is_drawing(#[trigger] steps[i].0) implies exists|j: int|
            0 <= j < t.len() && t[j].1 == k + i by {
            if i == 0 {
                assert(t[0].1 == k);
            } else {
                assert(steps[i] == rest[i - 1]);
                assert(is_drawing(rest[i - 1].0));
                let j2 = choose|j2: int| 0 <= j2 < t2.len() && t2[j2].1 == k + 1 + (i - 1);
                assert(t[j2 + h.len()] == t2[j2]);
            }
        }
    }
}

/// Each drawing event of a stream yields exactly one segment, of its own
/// kind, with its own control and end points, starting where the walk stands
/// (the end point of the drawing event before it, or the starting position);
/// the segments come in the order of the events that yield them. Every other
/// segment is a line that a move or a close yields.
///
/// `segment_trace(.., 0)` pairs each segment of `segment_run` with the index
/// of the event that yields it.
pub proof fn lemma_segments_by_event(
    current: Point,
    first: Point,
    in_sub_path: bool,
    steps: Seq<Step<PrimitiveEvent>>,
)
    ensures
        ({
            let t = segment_trace(current, first, in_sub_path, steps, 0);
            &&& t.map_values(|p: (Segment, int)| p.0) == segment_run(
                current,
                first,
                in_sub_path,
                steps,
            )
            &&& forall|j: int| 0 <= j < t.len() ==> 0 <= #[trigger] t[j].1 < steps.len()
            &&& forall|a: int, b: int| 0 <= a < b < t.len() ==> #[trigger] t[a].1 < #[trigger] t[b].1
            &&& forall|j: int|
                0 <= j < t.len() && is_drawing(steps[#[trigger] t[j].1].0) ==> t[j].0
                    == drawing_segment(steps[t[j].1].0, walk_current(current, steps, t[j].1))
            &&& forall|j: int|
                0 <= j < t.len() && !is_drawing(steps[#[trigger] t[j].1].0) ==> (
                steps[t[j].1].0 is MoveTo || steps[t[j].1].0 is Close) && t[j].0 is Line
            &&& forall|i: int|
                0 <= i < steps.len() && is_drawing(#[trigger] steps[i].0) ==> exists|j: int|
                    0 <= j < t.len() && t[j].1 == i
        }),
{
    lemma_segment_trace_facts(current, first, in_sub_path, steps, 0);
}

/// A move or a close never yields a line of length zero: every line it
/// yields joins two different points.
pub proof fn lemma_closing_lines_not_degenerate(
    current: Point,
    first: Point,
    in_sub_path: bool,
    steps: Seq<Step<PrimitiveEvent>>,
)
    ensures
        ({
            let t = segment_trace(current, first, in_sub_path, steps, 0);
            forall|j: int|
                0 <= j < t.len() && (steps[#[trigger] t[j].1].0 is MoveTo || steps[t[j].1].0 is Close)
                    ==> (t[j].0 matches Segment::Line(a, b) && a != b)
        }),
{
    lemma_segment_trace_facts(current, first, in_sub_path, steps, 0);
}

/// A close right after a close yields nothing and changes nothing: the
/// segments are those of the stream without the second close. So two closes
/// in a row yield at most one line.
pub proof fn lemma_second_close_adds_nothing(
    current: Point,
    first: Point,
    in_sub_path: bool,
    steps: Seq<Step<PrimitiveEvent>>,
    i: int,
)
    requires
        0 <= i,
        i + 1 < steps.len(),
        steps[i].0 is Close,
        steps[i + 1].0 is Close,
    ensures
        segment_run(current, first, in_sub_path, steps) == segment_run(
            current,
            first,
            in_sub_path,
            steps.remove(i + 1),
        ),
    decreases i,
{
    let rest = steps.drop_first();
    let removed = steps.remove(i + 1);
    if i == 0 {
        assert(removed.drop_first() =~= rest.drop_first());
        assert(removed[0] == steps[0]);
        assert(segment_run(current, current, false, rest) == segment_run(
            current,
            current,
            false,
            rest.drop_first(),
        ));
    } else {
        assert(removed[0] == steps[0]);
        assert(removed.drop_first() =~= rest.remove(i));
        let (c2, f2, i2) = match steps[0].0 {
            PrimitiveEvent::MoveTo(to) => {
                if in_sub_path && first != current {
                    (current, to, in_sub_path)
                } else {
                    (current, to, true)
                }
            },
            PrimitiveEvent::LineTo(to) => (to, first, true),
            PrimitiveEvent::QuadraticTo(_, to) => (to, first, true),
            PrimitiveEvent::CubicTo(_, _, to) => (to, first, true),
            PrimitiveEvent::Close => (current, current, false),
        };
        lemma_second_close_adds_nothing(c2, f2, i2, rest, i - 1);
    }
}

/// Each point as a line to it.
pub open spec fn lines_to(points: Seq<Point>) -> Seq<FlattenedEvent> {
    points.map_values(|p: Point| FlattenedEvent::LineTo(p))
}

/// The flattened form of a stream: moves, lines and closes pass through, and
/// each quadratic curve is replaced by lines to the points of the next answer
/// (none once the answers run out). It stops at the first cubic curve.
pub open spec fn flatten_expected(
    steps: Seq<Step<PrimitiveEvent>>,
    answers: Seq<Seq<Point>>,
) -> Seq<FlattenedEvent>
    decreases steps.len(),
{
    if steps.len() == 0 {
        seq![]
    } else {
        let rest = steps.drop_first();
        match steps[0].0 {
            PrimitiveEvent::MoveTo(p) => seq![FlattenedEvent::MoveTo(p)] + flatten_expected(
                rest,
                answers,
            ),
            PrimitiveEvent::LineTo(p) => seq![FlattenedEvent::LineTo(p)] + flatten_expected(
                rest,
                answers,
            ),
            PrimitiveEvent::Close => seq![FlattenedEvent::Close] + flatten_expected(rest, answers),
            PrimitiveEvent::QuadraticTo(..) => lines_to(first_answer(answers)) + flatten_expected(
                rest,
                later_answers(answers),
            ),
            PrimitiveEvent::CubicTo(..) => seq![],
        }
    }
}

/// The number of points in a list of answers.
pub open spec fn total_points(answers: Seq<Seq<Point>>) -> nat
    decreases answers.len(),
{
    if answers.len() == 0 {
        0
    } else {
        answers[0].len() + total_points(answers.drop_first())
    }
}

/// What the flattening walk yields over a whole stream, when each curve it
/// hands out is answered with the next point list: first the lines to the
/// points still pending, then the stream with moves, lines and closes passed
/// through and each curve replaced by lines to the points handed back, in
/// order.
pub proof fn lemma_flatten_whole_stream(
    pending: Seq<Point>,
    steps: Seq<Step<PrimitiveEvent>>,
    answers: Seq<Seq<Point>>,
)
    ensures
        flatten_drive(pending, steps, answers) == lines_to(pending) + flatten_expected(
            steps,
            answers,
        ),
    decreases steps.len(), pending.len(),
{
    let (r, pending2, steps2) = flatten_next(pending, steps);
    if pending.len() > 0 {
        lemma_flatten_whole_stream(pending2, steps2, answers);
        assert(lines_to(pending) =~= seq![FlattenedEvent::LineTo(pending[0])] + lines_to(
            pending.drop_first(),
        ));
        assert(flatten_drive(pending, steps, answers) =~= lines_to(pending) + flatten_expected(
            steps,
            answers,
        ));
    } else if steps.len() == 0 {
        assert(lines_to(pending) =~= Seq::<FlattenedEvent>::empty());
        assert(flatten_drive(pending, steps, answers) =~= lines_to(pending) + flatten_expected(
            steps,
            answers,
        ));
    } else {
        assert(lines_to(pending) =~= Seq::<FlattenedEvent>::empty());
        assert(lines_to(seq![]) =~= Seq::<FlattenedEvent>::empty());
        match steps[0].0 {
            PrimitiveEvent::QuadraticTo(..) => {
                lemma_flatten_whole_stream(first_answer(answers), steps2, later_answers(answers));
            },
            _ => {
                lemma_flatten_whole_stream(pending2, steps2, answers);
            },
        }
        assert(flatten_drive(pending, steps, answers) =~= lines_to(pending) + flatten_expected(
            steps,
            answers,
        ));
    }
}

/// The flattened form of a stream has at most one event per event of the
/// stream plus one per point handed back.
pub proof fn lemma_flatten_expected_bound(
    steps: Seq<Step<PrimitiveEvent>>,
    answers: Seq<Seq<Point>>,
)
    ensures
        flatten_expected(steps, answers).len() <= steps.len() + total_points(answers),
    decreases steps.len(),
{
    if steps.len() > 0 {
        let rest = steps.drop_first();
        match steps[0].0 {
            PrimitiveEvent::QuadraticTo(..) => {
                lemma_flatten_expected_bound(rest, later_answers(answers));
                if answers.len() > 0 {
                    assert(total_points(answers) == answers[0].len() + total_points(
                        answers.drop_first(),
                    ));
                }
            },
            _ => {
                lemma_flatten_expected_bound(rest, answers);
            },
        }
    }
}

/// A caller who answers every curve collects at most as many events as the
/// points still pending, the events of the stream and the points it hands
/// back, together.
pub proof fn lemma_flatten_bound(
    pending: Seq<Point>,
    steps: Seq<Step<PrimitiveEvent>>,
    answers: Seq<Seq<Point>>,
)
    ensures
        flatten_drive(pending, steps, answers).len() <= pending.len() + steps.len() + total_points(
            answers,
        ),
{
    lemma_flatten_whole_stream(pending, steps, answers);
    lemma_flatten_expected_bound(steps, answers);
}

/// The segments of a run, split into those of its first event and those of
/// the rest, with the state the walk is in after the first event.
proof fn lemma_segment_trace_split(
    current: Point,
    first: Point,
    in_sub_path: bool,
    steps: Seq<Step<PrimitiveEvent>>,
    k: int,
) -> (r: (Seq<(Segment, int)>, Point, Point, bool))
    requires
        steps.len() > 0,
    ensures
        ({
            let (h, c2, f2, i2) = r;
            let t = segment_trace(current, first, in_sub_path, steps, k);
            let t2 = segment_trace(c2, f2, i2, steps.drop_first(), k + 1);
            &&& t == h + t2
            &&& h.len() <= 1
            &&& h.len() == 1 ==> h[0].1 == k && h[0].0 == (if is_drawing(steps[0].0) {
                drawing_segment(steps[0].0, current)
            } else {
                Segment::Line(first, current)
            })
            &&& is_drawing(steps[0].0) ==> h.len() == 1
            &&& c2 == walk_after(steps[0].0, current)
            &&& is_drawing(steps[0].0) ==> f2 == first
            &&& steps[0].0 is Close ==> f2 == current
            &&& steps[0].0 matches PrimitiveEvent::MoveTo(to) ==> f2 == to
        }),
{
    let rest = steps.drop_first();
    let (c2, f2, i2) = match steps[0].0 {
        PrimitiveEvent::MoveTo(to) => {
            if in_sub_path && first != current {
                (current, to, in_sub_path)
            } else {
                (current, to, true)
            }
        },
        PrimitiveEvent::LineTo(to) => (to, first, true),
        PrimitiveEvent::QuadraticTo(_, to) => (to, first, true),
        PrimitiveEvent::CubicTo(_, _, to) => (to, first, true),
        PrimitiveEvent::Close => (current, current, false),
    };
    let t = segment_trace(current, first, in_sub_path, steps, k);
    let t2 = segment_trace(c2, f2, i2, rest, k + 1);
    let h = t.take(t.len() - t2.len());
    assert(t =~= h + t2);
    (h, c2, f2, i2)
}

/// After only drawing events, the line that a move or a close yields starts
/// at the first position the walk began with and ends where the walk stands.
proof fn lemma_closing_line_after_drawing(
    current: Point,
    first: Point,
    in_sub_path: bool,
    steps: Seq<Step<PrimitiveEvent>>,
    k: int,
    j: int,
)
    requires
        0 <= j < segment_trace(current, first, in_sub_path, steps, k).len(),
        0 <= segment_trace(current, first, in_sub_path, steps, k)[j].1 - k < steps.len(),
        forall|m: int|
            0 <= m < segment_trace(current, first, in_sub_path, steps, k)[j].1 - k
                ==> is_drawing(#[trigger] steps[m].0),
        !is_drawing(steps[segment_trace(current, first, in_sub_path, steps, k)[j].1 - k].0),
    ensures
        segment_trace(current, first, in_sub_path, steps, k)[j].0 == Segment::Line(
            first,
            walk_current(
                current,
                steps,
                segment_trace(current, first, in_sub_path, steps, k)[j].1 - k,
            ),
        ),
    decreases steps.len(),
{
    let t = segment_trace(current, first, in_sub_path, steps, k);
    let i = t[j].1 - k;
    let rest = steps.drop_first();
    let (h, c2, f2, i2) = lemma_segment_trace_split(current, first, in_sub_path, steps, k);
    let t2 = segment_trace(c2, f2, i2, rest, k + 1);
    lemma_segment_trace_facts(c2, f2, i2, rest, k + 1);
    if is_drawing(steps[0].0) {
        assert(i != 0);
        assert(j >= 1) by {
            if j == 0 {
                assert(t[0] == h[0]);
            }
        }
        assert(t[j] == t2[j - 1]);
        assert forall|m: int| 0 <= m < t2[j - 1].1 - (k + 1) implies is_drawing(
            #[trigger] rest[m].0,
        ) by {
            assert(rest[m] == steps[m + 1]);
        }
        assert(rest[i - 1] == steps[i]);
        lemma_closing_line_after_drawing(c2, f2, i2, rest, k + 1, j - 1);
    } else {
        assert(i == 0) by {
            if i > 0 {
                assert(is_drawing(steps[0].0));
            }
        }
        assert(j < h.len()) by {
            if j >= h.len() {
                assert(t[j] == t2[j - h.len()]);
            }
        }
        assert(t[j] == h[0]);
    }
}

/// After a close, the walk's first position is where the walk stood at that
/// close: a line that a later move or close yields, with only drawing events
/// in between, starts at the position of the walk at the earlier close and
/// ends at the position of the walk at the later event.
proof fn lemma_line_after_close(
    current: Point,
    first: Point,
    in_sub_path: bool,
    steps: Seq<Step<PrimitiveEvent>>,
    k: int,
    c0: int,
    j: int,
)
    requires
        0 <= j < segment_trace(current, first, in_sub_path, steps, k).len(),
        0 <= c0 < segment_trace(current, first, in_sub_path, steps, k)[j].1 - k < steps.len(),
        steps[c0].0 is Close,
        forall|m: int|
            c0 < m < segment_trace(current, first, in_sub_path, steps, k)[j].1 - k
                ==> is_drawing(#[trigger] steps[m].0),
        !is_drawing(steps[segment_trace(current, first, in_sub_path, steps, k)[j].1 - k].0),
    ensures
        segment_trace(current, first, in_sub_path, steps, k)[j].0 == Segment::Line(
            walk_current(current, steps, c0),
            walk_current(
                current,
                steps,
                segment_trace(current, first, in_sub_path, steps, k)[j].1 - k,
            ),
        ),
    decreases steps.len(),
{
    let t = segment_trace(current, first, in_sub_path, steps, k);
    let i = t[j].1 - k;
    let rest = steps.drop_first();
    let (h, c2, f2, i2) = lemma_segment_trace_split(current, first, in_sub_path, steps, k);
    let t2 = segment_trace(c2, f2, i2, rest, k + 1);
    lemma_segment_trace_facts(c2, f2, i2, rest, k + 1);
    assert(j >= h.len()) by {
        if j < h.len() {
            assert(t[j] == h[0]);
        }
    }
    let j2 = j - h.len();
    assert(t[j] == t2[j2]);
    assert(rest[i - 1] == steps[i]);
    if c0 == 0 {
        assert forall|m: int| 0 <= m < t2[j2].1 - (k + 1) implies is_drawing(
            #[trigger] rest[m].0,
        ) by {
            assert(rest[m] == steps[m + 1]);
        }
        lemma_closing_line_after_drawing(c2, f2, i2, rest, k + 1, j2);
    } else {
        assert(rest[c0 - 1] == steps[c0]);
        assert forall|m: int| c0 - 1 < m < t2[j2].1 - (k + 1) implies is_drawing(
            #[trigger] rest[m].0,
        ) by {
            assert(rest[m] == steps[m + 1]);
        }
        lemma_line_after_close(c2, f2, i2, rest, k + 1, c0 - 1, j2);
    }
}

/// A close makes the walk's current position its first position: when a
/// move or a close yields a line and the last event before it that is not a
/// drawing event is a close, that line runs from where the walk stood at
/// that close to where it stands now.
///
/// `t = segment_trace(.., 0)` pairs each segment with the index of the event
/// that yields it (see `lemma_segments_by_event`); `j` names a segment, `c0`
/// the earlier close.
pub proof fn lemma_close_makes_current_the_first(
    current: Point,
    first: Point,
    in_sub_path: bool,
    steps: Seq<Step<PrimitiveEvent>>,
    c0: int,
    j: int,
)
    requires
        0 <= j < segment_trace(current, first, in_sub_path, steps, 0).len(),
        0 <= c0 < segment_trace(current, first, in_sub_path, steps, 0)[j].1,
        steps[c0].0 is Close,
        forall|m: int|
            c0 < m < segment_trace(current, first, in_sub_path, steps, 0)[j].1 ==> is_drawing(
                #[trigger] steps[m].0,
            ),
        steps[segment_trace(current, first, in_sub_path, steps, 0)[j].1].0 is MoveTo
            || steps[segment_trace(current, first, in_sub_path, steps, 0)[j].1].0 is Close,
    ensures
        segment_trace(current, first, in_sub_path, steps, 0)[j].0 == Segment::Line(
            walk_current(current, steps, c0),
            walk_current(current, steps, segment_trace(current, first, in_sub_path, steps, 0)[j].1),
        ),
{
    lemma_segment_trace_facts(current, first, in_sub_path, steps, 0);
    lemma_line_after_close(current, first, in_sub_path, steps, 0, c0, j);
}

/// The `i`-th primitive step of an SVG stream is its `i`-th SVG event read at
/// the position the stream reports right after that event.
proof fn lemma_primitive_steps_index(steps: Seq<Step<SvgEvent>>, i: int)
    requires
        0 <= i < primitive_steps(steps).len(),
    ensures
        i < steps.len(),
        has_primitive_form(steps[i].0),
        primitive_steps(steps)[i] == (
            primitive_form(steps[i].0, steps[i].1),
            steps[i].1,
            steps[i].2,
        ),
    decreases steps.len(),
{
    if i > 0 {
        lemma_primitive_steps_index(steps.drop_first(), i - 1);
    }
}

/// The SVG-to-primitive adapter resolves each SVG event at the current
/// position that the SVG stream reports right after it, and keeps the
/// stream's positions: a relative line to `v` becomes a line to that position
/// moved by `v`, and so on for every relative form.
pub proof fn lemma_svg_to_primitive_resolves<I: PathIterator<SvgEvent>>(
    it: SvgToPrimitiveIter<I>,
    i: int,
)
    requires
        0 <= i < it.steps().len(),
    ensures
        ({
            let s = it.inner().steps()[i];
            let p = s.1;
            &&& i < it.inner().steps().len()
            &&& it.steps()[i] == (primitive_form(s.0, p), s.1, s.2)
            &&& s.0 matches SvgEvent::RelativeMoveTo(v) ==> it.steps()[i].0
                == PrimitiveEvent::MoveTo(
                Point { x: p.x.wrapping_add(v.x), y: p.y.wrapping_add(v.y) },
            )
            &&& s.0 matches SvgEvent::RelativeLineTo(v) ==> it.steps()[i].0
                == PrimitiveEvent::LineTo(
                Point { x: p.x.wrapping_add(v.x), y: p.y.wrapping_add(v.y) },
            )
            &&& s.0 matches SvgEvent::RelativeQuadraticTo(c, v) ==> it.steps()[i].0
                == PrimitiveEvent::QuadraticTo(
                Point { x: p.x.wrapping_add(c.x), y: p.y.wrapping_add(c.y) },
                Point { x: p.x.wrapping_add(v.x), y: p.y.wrapping_add(v.y) },
            )
            &&& s.0 matches SvgEvent::RelativeCubicTo(c1, c2, v) ==> it.steps()[i].0
                == PrimitiveEvent::CubicTo(
                Point { x: p.x.wrapping_add(c1.x), y: p.y.wrapping_add(c1.y) },
                Point { x: p.x.wrapping_add(c2.x), y: p.y.wrapping_add(c2.y) },
                Point { x: v.x, y: v.y },
            )
            &&& s.0 matches SvgEvent::RelativeHorizontalLineTo(x) ==> it.steps()[i].0
                == PrimitiveEvent::LineTo(Point { x: p.x.wrapping_add(x), y: p.y })
            &&& s.0 matches SvgEvent::RelativeVerticalLineTo(y) ==> it.steps()[i].0
                == PrimitiveEvent::LineTo(Point { x: p.x, y: p.y.wrapping_add(y) })
            &&& s.0 matches SvgEvent::HorizontalLineTo(x) ==> it.steps()[i].0
                == PrimitiveEvent::LineTo(Point { x: x, y: p.y })
            &&& s.0 matches SvgEvent::VerticalLineTo(y) ==> it.steps()[i].0
                == PrimitiveEvent::LineTo(Point { x: p.x, y: y })
        }),
{
    lemma_primitive_steps_index(it.inner().steps(), i);
}

/// The primitive-to-SVG adapter yields, for each primitive event, the
/// absolute SVG event of the same kind with the same points, and keeps the
/// stream's positions; it yields as many events as the stream.
pub proof fn lemma_primitive_to_svg_absolute<I: PathIterator<PrimitiveEvent>>(
    it: PrimitiveToSvgIter<I>,
    i: int,
)
    requires
        0 <= i < it.inner().steps().len(),
    ensures
        ({
            let s = it.inner().steps()[i];
            let r = it.steps()[i];
            &&& it.steps().len() == it.inner().steps().len()
            &&& r.1 == s.1 && r.2 == s.2
            &&& s.0 matches PrimitiveEvent::MoveTo(a) ==> r.0 == SvgEvent::MoveTo(a)
            &&& s.0 matches PrimitiveEvent::LineTo(a) ==> r.0 == SvgEvent::LineTo(a)
            &&& s.0 matches PrimitiveEvent::QuadraticTo(a, b) ==> r.0 == SvgEvent::QuadraticTo(a, b)
            &&& s.0 matches PrimitiveEvent::CubicTo(a, b, c) ==> r.0 == SvgEvent::CubicTo(a, b, c)
            &&& s.0 is Close ==> r.0 == SvgEvent::Close
        }),
{
}

/// The flattening walk hands out each quadratic curve with that event's own
/// control and end points, starting at the position the stream reports right
/// after it; moves, lines and closes pass through with their points; and the
/// points of a curve come out first, one line each.
pub proof fn lemma_flatten_hands_out_events(pending: Seq<Point>, steps: Seq<Step<PrimitiveEvent>>)
    ensures
        pending.len() > 0 ==> flatten_next(pending, steps).0 == FlattenStep::Event(
            FlattenedEvent::LineTo(pending[0]),
        ),
        pending.len() == 0 && steps.len() == 0 ==> flatten_next(pending, steps).0
            == FlattenStep::End,
        pending.len() == 0 && steps.len() > 0 ==> {
            let (e, p) = (steps[0].0, steps[0].1);
            let r = flatten_next(pending, steps).0;
            &&& flatten_next(pending, steps).2 == steps.drop_first()
            &&& flatten_next(pending, steps).1.len() == 0
            &&& e matches PrimitiveEvent::QuadraticTo(ctrl, to) ==> r == FlattenStep::Flatten(
                QuadraticBezierSegment { from: p, cp: ctrl, to: to },
            )
            &&& e matches PrimitiveEvent::MoveTo(a) ==> r == FlattenStep::Event(
                FlattenedEvent::MoveTo(a),
            )
            &&& e matches PrimitiveEvent::LineTo(a) ==> r == FlattenStep::Event(
                FlattenedEvent::LineTo(a),
            )
            &&& e is Close ==> r == FlattenStep::Event(FlattenedEvent::Close)
        },
{
}

/// After a move to `to`, the walk's first position is `to`: a line that a
/// later move or close yields, with only drawing events in between, starts
/// at `to` and ends where the walk stands.
proof fn lemma_line_after_move(
    current: Point,
    first: Point,
    in_sub_path: bool,
    steps: Seq<Step<PrimitiveEvent>>,
    k: int,
    m0: int,
    to: Point,
    j: int,
)
    requires
        0 <= j < segment_trace(current, first, in_sub_path, steps, k).len(),
        0 <= m0 < segment_trace(current, first, in_sub_path, steps, k)[j].1 - k < steps.len(),
        steps[m0].0 == PrimitiveEvent::MoveTo(to),
        forall|m: int|
            m0 < m < segment_trace(current, first, in_sub_path, steps, k)[j].1 - k
                ==> is_drawing(#[trigger] steps[m].0),
        !is_drawing(steps[segment_trace(current, first, in_sub_path, steps, k)[j].1 - k].0),
    ensures
        segment_trace(current, first, in_sub_path, steps, k)[j].0 == Segment::Line(
            to,
            walk_current(
                current,
                steps,
                segment_trace(current, first, in_sub_path, steps, k)[j].1 - k,
            ),
        ),
    decreases steps.len(),
{
    let t = segment_trace(current, first, in_sub_path, steps, k);
    let i = t[j].1 - k;
    let rest = steps.drop_first();
    let (h, c2, f2, i2) = lemma_segment_trace_split(current, first, in_sub_path, steps, k);
    let t2 = segment_trace(c2, f2, i2, rest, k + 1);
    lemma_segment_trace_facts(c2, f2, i2, rest, k + 1);
    assert(j >= h.len()) by {
        if j < h.len() {
            assert(t[j] == h[0]);
        }
    }
    let j2 = j - h.len();
    assert(t[j] == t2[j2]);
    assert(rest[i - 1] == steps[i]);
    if m0 == 0 {
        assert forall|m: int| 0 <= m < t2[j2].1 - (k + 1) implies is_drawing(
            #[trigger] rest[m].0,
        ) by {
            assert(rest[m] == steps[m + 1]);
        }
        lemma_closing_line_after_drawing(c2, f2, i2, rest, k + 1, j2);
    } else {
        assert(rest[m0 - 1] == steps[m0]);
        assert forall|m: int| m0 - 1 < m < t2[j2].1 - (k + 1) implies is_drawing(
            #[trigger] rest[m].0,
        ) by {
            assert(rest[m] == steps[m + 1]);
        }
        lemma_line_after_move(c2, f2, i2, rest, k + 1, m0 - 1, to, j2);
    }
}

/// A move to `to` makes `to` the walk's first position, and leaves the
/// current position alone: when a move or a close yields a line and the last
/// event before it that is not a drawing event is that move, the line runs
/// from `to` to where the walk stands (`walk_current`, which only drawing
/// events change).
pub proof fn lemma_move_sets_first(
    current: Point,
    first: Point,
    in_sub_path: bool,
    steps: Seq<Step<PrimitiveEvent>>,
    m0: int,
    to: Point,
    j: int,
)
    requires
        0 <= j < segment_trace(current, first, in_sub_path, steps, 0).len(),
        0 <= m0 < segment_trace(current, first, in_sub_path, steps, 0)[j].1,
        steps[m0].0 == PrimitiveEvent::MoveTo(to),
        forall|m: int|
            m0 < m < segment_trace(current, first, in_sub_path, steps, 0)[j].1 ==> is_drawing(
                #[trigger] steps[m].0,
            ),
        steps[segment_trace(current, first, in_sub_path, steps, 0)[j].1].0 is MoveTo
            || steps[segment_trace(current, first, in_sub_path, steps, 0)[j].1].0 is Close,
    ensures
        segment_trace(current, first, in_sub_path, steps, 0)[j].0 == Segment::Line(
            to,
            walk_current(current, steps, segment_trace(current, first, in_sub_path, steps, 0)[j].1),
        ),
{
    lemma_segment_trace_facts(current, first, in_sub_path, steps, 0);
    lemma_line_after_move(current, first, in_sub_path, steps, 0, m0, to, j);
}

/// Before any move or close, the line that the first move or close yields
/// runs from the first position the walk began with to where it stands.
pub proof fn lemma_first_closing_line(
    current: Point,
    first: Point,
    in_sub_path: bool,
    steps: Seq<Step<PrimitiveEvent>>,
    j: int,
)
    requires
        0 <= j < segment_trace(current, first, in_sub_path, steps, 0).len(),
        forall|m: int|
            0 <= m < segment_trace(current, first, in_sub_path, steps, 0)[j].1 ==> is_drawing(
                #[trigger] steps[m].0,
            ),
        steps[segment_trace(current, first, in_sub_path, steps, 0)[j].1].0 is MoveTo
            || steps[segment_trace(current, first, in_sub_path, steps, 0)[j].1].0 is Close,
    ensures
        segment_trace(current, first, in_sub_path, steps, 0)[j].0 == Segment::Line(
            first,
            walk_current(current, steps, segment_trace(current, first, in_sub_path, steps, 0)[j].1),
        ),
{
    lemma_segment_trace_facts(current, first, in_sub_path, steps, 0);
    lemma_closing_line_after_drawing(current, first, in_sub_path, steps, 0, j);
}

} // verus!
