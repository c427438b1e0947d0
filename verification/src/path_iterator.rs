use vstd::prelude::*;
use std::collections::VecDeque;
use crate::math::Point;
use crate::path::{Verb, arity, vertices_needed};
use crate::events::{FlattenedEvent, PrimitiveEvent, Segment, SvgEvent, has_primitive_form, primitive_form, svg_form};

verus! {

/// One event of a path together with the current and the first position of
/// the sub-path right after it.
pub type Step<E> = (E, Point, Point);

/// A stream of path events that knows where the path stands.
///
/// `steps` is what the stream yields from now on, each event with the
/// current and first position after it, up to the first call of `next`
/// that could not be served. `complete` says that no such call comes: the
/// stream ends with `None`.
pub trait PathIterator<E>: Sized {
    /// The events still to come, each with the position after it.
    spec fn steps(&self) -> Seq<Step<E>>;

    /// The current position and the first position of the sub-path.
    spec fn position(&self) -> (Point, Point);

    /// The next call of `next` can be served.
    spec fn can_advance(&self) -> bool;

    /// Every call of `next` from now on can be served.
    spec fn complete(&self) -> bool;

    /// A complete stream, and a stream with events to come, can be advanced.
    proof fn lemma_can_advance(&self)
        ensures
            self.complete() ==> self.can_advance(),
            self.steps().len() > 0 ==> self.can_advance(),
    ;

    /// The next event, or `None` at the end of the stream.
    fn next(&mut self) -> (r: Option<E>)
        requires
            old(self).can_advance(),
        ensures
            old(self).steps().len() == 0 ==> {
                &&& r is None
                &&& final(self).steps().len() == 0
                &&& final(self).position() == old(self).position()
                &&& final(self).can_advance()
            },
            old(self).steps().len() > 0 ==> {
                &&& r == Some(old(self).steps()[0].0)
                &&& final(self).steps() == old(self).steps().drop_first()
                &&& final(self).position() == (old(self).steps()[0].1, old(self).steps()[0].2)
            },
            old(self).complete() ==> final(self).complete(),
    ;

    /// The current position.
    fn current_position(&self) -> (p: Point)
        ensures
            p == self.position().0,
    ;

    /// The first position of the current sub-path.
    fn first_position(&self) -> (p: Point)
        ensures
            p == self.position().1,
    ;
}

/// The origin, where every path starts.
pub open spec fn origin() -> Point {
    Point { x: 0, y: 0 }
}

/// The steps that a list of verbs and their vertices produce from the given
/// current and first positions, up to the first verb whose vertices are
/// missing.
pub open spec fn path_steps(
    verbs: Seq<Verb>,
    vertices: Seq<Point>,
    current: Point,
    first: Point,
) -> Seq<Step<PrimitiveEvent>>
    decreases verbs.len(),
{
    if verbs.len() == 0 || vertices.len() < arity(verbs[0]) {
        seq![]
    } else {
        let rest = verbs.drop_first();
        match verbs[0] {
            Verb::MoveTo => {
                let to = vertices[0];
                seq![(PrimitiveEvent::MoveTo(to), to, to)] + path_steps(
                    rest,
                    vertices.skip(1),
                    to,
                    to,
                )
            },
            Verb::LineTo => {
                let to = vertices[0];
                seq![(PrimitiveEvent::LineTo(to), to, first)] + path_steps(
                    rest,
                    vertices.skip(1),
                    to,
                    first,
                )
            },
            Verb::QuadraticTo => {
                let ctrl = vertices[0];
                let to = vertices[1];
                seq![(PrimitiveEvent::QuadraticTo(ctrl, to), to, first)] + path_steps(
                    rest,
                    vertices.skip(2),
                    to,
                    first,
                )
            },
            Verb::CubicTo => {
                let ctrl1 = vertices[0];
                let ctrl2 = vertices[1];
                let to = vertices[2];
                seq![(PrimitiveEvent::CubicTo(ctrl1, ctrl2, to), to, first)] + path_steps(
                    rest,
                    vertices.skip(3),
                    to,
                    first,
                )
            },
            Verb::Close => {
                seq![(PrimitiveEvent::Close, first, first)] + path_steps(
                    rest,
                    vertices,
                    first,
                    first,
                )
            },
        }
    }
}

/// What a `PathIter` has left to walk and where it stands.
pub struct PathIterState {
    pub verbs: Seq<Verb>,
    pub vertices: Seq<Point>,
    pub current: Point,
    pub first: Point,
}

/// Walks the verbs of a path and the vertices they consume, yielding
/// primitive events.
#[derive(Debug)]
pub struct PathIter<'l> {
    vertices: &'l [Point],
    verbs: &'l [Verb],
    vertex_pos: usize,
    verb_pos: usize,
    current: Point,
    first: Point,
}

impl<'l> View for PathIter<'l> {
    type V = PathIterState;

    closed spec fn view(&self) -> PathIterState {
        PathIterState {
            verbs: self.verbs@.skip(self.verb_pos as int),
            vertices: self.vertices@.skip(self.vertex_pos as int),
            current: self.current,
            first: self.first,
        }
    }
}

impl<'l> Clone for PathIter<'l> {
    fn clone(&self) -> (it: Self)
        ensures
            it@ == self@,
    {
        proof {
            use_type_invariant(self);
        }
        PathIter {
            vertices: self.vertices,
            verbs: self.verbs,
            vertex_pos: self.vertex_pos,
            verb_pos: self.verb_pos,
            current: self.current,
            first: self.first,
        }
    }
}

impl<'l> PathIter<'l> {
    #[verifier::type_invariant]
    spec fn positions_in_range(self) -> bool {
        &&& self.verb_pos <= self.verbs@.len()
        &&& self.vertex_pos <= self.vertices@.len()
    }

    /// An iterator over the path that `verbs` describes with `vertices`,
    /// starting at the origin.
    pub fn new(vertices: &'l [Point], verbs: &'l [Verb]) -> (it: Self)
        ensures
            it@ == (PathIterState {
                verbs: verbs@,
                vertices: vertices@,
                current: origin(),
                first: origin(),
            }),
    {
        let it = PathIter {
            vertices: vertices,
            verbs: verbs,
            vertex_pos: 0,
            verb_pos: 0,
            current: Point::new(0, 0),
            first: Point::new(0, 0),
        };
        assert(verbs@.skip(0) =~= verbs@);
        assert(vertices@.skip(0) =~= vertices@);
        it
    }
}

impl<'l> PathIterator<PrimitiveEvent> for PathIter<'l> {
    open spec fn steps(&self) -> Seq<Step<PrimitiveEvent>> {
        path_steps(self@.verbs, self@.vertices, self@.current, self@.first)
    }

    open spec fn position(&self) -> (Point, Point) {
        (self@.current, self@.first)
    }

    open spec fn can_advance(&self) -> bool {
        self@.verbs.len() == 0 || arity(self@.verbs[0]) <= self@.vertices.len()
    }

    open spec fn complete(&self) -> bool {
        vertices_needed(self@.verbs) <= self@.vertices.len()
    }

    proof fn lemma_can_advance(&self) {
    }

    fn next(&mut self) -> (r: Option<PrimitiveEvent>) {
        proof {
            use_type_invariant(&*self);
        }
        let ghost old_view = self@;
        if self.verb_pos >= self.verbs.len() {
            return None;
        }
        let verb = self.verbs[self.verb_pos];
        let ghost vp = self.verb_pos as int;
        let ghost xp = self.vertex_pos as int;
        assert(old_view.verbs[0] == verb);
        assert(self.verbs@.skip(vp + 1) =~= old_view.verbs.drop_first());
        match verb {
            Verb::MoveTo => {
                let to = self.vertices[self.vertex_pos];
                self.vertex_pos = self.vertex_pos + 1;
                self.verb_pos = self.verb_pos + 1;
                self.current = to;
                self.first = to;
                assert(self.vertices@.skip(xp + 1) =~= old_view.vertices.skip(1));
                Some(PrimitiveEvent::MoveTo(to))
            },
            Verb::LineTo => {
                let to = self.vertices[self.vertex_pos];
                self.vertex_pos = self.vertex_pos + 1;
                self.verb_pos = self.verb_pos + 1;
                self.current = to;
                assert(self.vertices@.skip(xp + 1) =~= old_view.vertices.skip(1));
                Some(PrimitiveEvent::LineTo(to))
            },
            Verb::QuadraticTo => {
                let ctrl = self.vertices[self.vertex_pos];
                let to = self.vertices[self.vertex_pos + 1];
                self.vertex_pos = self.vertex_pos + 2;
                self.verb_pos = self.verb_pos + 1;
                self.current = to;
                assert(self.vertices@.skip(xp + 2) =~= old_view.vertices.skip(2));
                Some(PrimitiveEvent::QuadraticTo(ctrl, to))
            },
            Verb::CubicTo => {
                let ctrl1 = self.vertices[self.vertex_pos];
                let ctrl2 = self.vertices[self.vertex_pos + 1];
                let to = self.vertices[self.vertex_pos + 2];
                self.vertex_pos = self.vertex_pos + 3;
                self.verb_pos = self.verb_pos + 1;
                self.current = to;
                assert(self.vertices@.skip(xp + 3) =~= old_view.vertices.skip(3));
                Some(PrimitiveEvent::CubicTo(ctrl1, ctrl2, to))
            },
            Verb::Close => {
                self.verb_pos = self.verb_pos + 1;
                self.current = self.first;
                Some(PrimitiveEvent::Close)
            },
        }
    }

    fn current_position(&self) -> (p: Point) {
        self.current
    }

    fn first_position(&self) -> (p: Point) {
        self.first
    }
}

/// The current and first position after an event, from the given ones: a
/// move starts a sub-path at its point, a drawing event ends at its end
/// point, and a close returns to the first position.
pub open spec fn position_after(e: PrimitiveEvent, current: Point, first: Point) -> (Point, Point) {
    match e {
        PrimitiveEvent::MoveTo(to) => (to, to),
        PrimitiveEvent::LineTo(to) => (to, first),
        PrimitiveEvent::QuadraticTo(_, to) => (to, first),
        PrimitiveEvent::CubicTo(_, _, to) => (to, first),
        PrimitiveEvent::Close => (first, first),
    }
}

/// The steps that a list of primitive events produces from the given current
/// and first positions.
pub open spec fn event_list_steps(
    events: Seq<PrimitiveEvent>,
    current: Point,
    first: Point,
) -> Seq<Step<PrimitiveEvent>>
    decreases events.len(),
{
    if events.len() == 0 {
        seq![]
    } else {
        let (c, f) = position_after(events[0], current, first);
        seq![(events[0], c, f)] + event_list_steps(events.drop_first(), c, f)
    }
}

/// What an `EventListIter` has left to walk and where it stands.
pub struct EventListState {
    pub events: Seq<PrimitiveEvent>,
    pub current: Point,
    pub first: Point,
}

/// Walks a list of primitive events, keeping track of the current position
/// and of the first position of the sub-path.
#[derive(Debug)]
pub struct EventListIter<'l> {
    events: &'l [PrimitiveEvent],
    pos: usize,
    current: Point,
    first: Point,
}

impl<'l> View for EventListIter<'l> {
    type V = EventListState;

    closed spec fn view(&self) -> EventListState {
        EventListState {
            events: self.events@.skip(self.pos as int),
            current: self.current,
            first: self.first,
        }
    }
}

impl<'l> EventListIter<'l> {
    #[verifier::type_invariant]
    spec fn pos_in_range(self) -> bool {
        self.pos <= self.events@.len()
    }

    /// An iterator over `events`, starting at the origin.
    pub fn new(events: &'l [PrimitiveEvent]) -> (it: Self)
        ensures
            it@ == (EventListState { events: events@, current: origin(), first: origin() }),
    {
        let it = EventListIter {
            events: events,
            pos: 0,
            current: Point::new(0, 0),
            first: Point::new(0, 0),
        };
        assert(events@.skip(0) =~= events@);
        it
    }
}

impl<'l> PathIterator<PrimitiveEvent> for EventListIter<'l> {
    open spec fn steps(&self) -> Seq<Step<PrimitiveEvent>> {
        event_list_steps(self@.events, self@.current, self@.first)
    }

    open spec fn position(&self) -> (Point, Point) {
        (self@.current, self@.first)
    }

    open spec fn can_advance(&self) -> bool {
        true
    }

    open spec fn complete(&self) -> bool {
        true
    }

    proof fn lemma_can_advance(&self) {
    }

    fn next(&mut self) -> (r: Option<PrimitiveEvent>) {
        proof {
            use_type_invariant(&*self);
        }
        if self.pos >= self.events.len() {
            return None;
        }
        let ghost old_view = self@;
        let e = self.events[self.pos];
        self.pos = self.pos + 1;
        assert(self.events@.skip(self.pos as int) =~= old_view.events.drop_first());
        match e {
            PrimitiveEvent::MoveTo(to) => {
                self.current = to;
                self.first = to;
            },
            PrimitiveEvent::LineTo(to) => {
                self.current = to;
            },
            PrimitiveEvent::QuadraticTo(_, to) => {
                self.current = to;
            },
            PrimitiveEvent::CubicTo(_, _, to) => {
                self.current = to;
            },
            PrimitiveEvent::Close => {
                self.current = self.first;
            },
        }
        Some(e)
    }

    fn current_position(&self) -> (p: Point) {
        self.current
    }

    fn first_position(&self) -> (p: Point) {
        self.first
    }
}

/// The segments that a stream of primitive events yields, given where the
/// segment walk stands: the current position, the first position of the
/// sub-path and whether a sub-path is open.
///
/// A move closes an open sub-path with a line from its first position to the
/// current position, when the two differ; a close does the same and ends the
/// sub-path. A move does not change the current position.
pub open spec fn segment_run(
    current: Point,
    first: Point,
    in_sub_path: bool,
    steps: Seq<Step<PrimitiveEvent>>,
) -> Seq<Segment>
    decreases steps.len(),
{
    if steps.len() == 0 {
        seq![]
    } else {
        let rest = steps.drop_first();
        match steps[0].0 {
            PrimitiveEvent::MoveTo(to) => {
                if in_sub_path && first != current {
                    seq![Segment::Line(first, current)] + segment_run(current, to, in_sub_path, rest)
                } else {
                    segment_run(current, to, true, rest)
                }
            },
            PrimitiveEvent::LineTo(to) => {
                seq![Segment::Line(current, to)] + segment_run(to, first, true, rest)
            },
            PrimitiveEvent::QuadraticTo(ctrl, to) => {
                seq![Segment::QuadraticBezier(current, ctrl, to)] + segment_run(to, first, true, rest)
            },
            PrimitiveEvent::CubicTo(ctrl1, ctrl2, to) => {
                seq![Segment::CubicBezier(current, ctrl1, ctrl2, to)] + segment_run(
                    to,
                    first,
                    true,
                    rest,
                )
            },
            PrimitiveEvent::Close => {
                if first != current {
                    seq![Segment::Line(first, current)] + segment_run(current, current, false, rest)
                } else {
                    segment_run(current, current, false, rest)
                }
            },
        }
    }
}

/// Consumes a stream of path events and yields segments.
pub struct SegmentIterator<PathIt> {
    it: PathIt,
    current_position: Point,
    first_position: Point,
    in_sub_path: bool,
}

impl<PathIt: PathIterator<PrimitiveEvent>> SegmentIterator<PathIt> {
    /// The segments still to come.
    pub closed spec fn segments(&self) -> Seq<Segment> {
        segment_run(self.current_position, self.first_position, self.in_sub_path, self.it.steps())
    }

    /// The stream of events underneath ends with `None` rather than with a
    /// call that cannot be served.
    pub closed spec fn source_complete(&self) -> bool {
        self.it.complete()
    }

    /// A segment iterator over `it`, starting at the origin outside any
    /// sub-path.
    pub fn new(it: PathIt) -> (s: Self)
        ensures
            s.segments() == segment_run(origin(), origin(), false, it.steps()),
            s.source_complete() == it.complete(),
    {
        SegmentIterator {
            it: it,
            current_position: crate::math::point(0, 0),
            first_position: crate::math::point(0, 0),
            in_sub_path: false,
        }
    }

    /// Ends the sub-path: the first position becomes the current one, and a
    /// line from the old first position to the current one comes out when
    /// the two differ.
    fn close(&mut self) -> (r: Option<Segment>)
        ensures
            final(self).it == old(self).it,
            final(self).current_position == old(self).current_position,
            final(self).first_position == old(self).current_position,
            !final(self).in_sub_path,
            r == (if old(self).first_position != old(self).current_position {
                Some(Segment::Line(old(self).first_position, old(self).current_position))
            } else {
                None::<Segment>
            }),
    {
        let first = self.first_position;
        self.first_position = self.current_position;
        self.in_sub_path = false;
        if first != self.current_position {
            Some(Segment::Line(first, self.current_position))
        } else {
            None
        }
    }

    /// The next segment, or `None` when the events run out.
    pub fn next(&mut self) -> (r: Option<Segment>)
        requires
            old(self).segments().len() > 0 || old(self).source_complete(),
        ensures
            old(self).segments().len() == 0 ==> r is None && final(self).segments().len() == 0,
            old(self).segments().len() > 0 ==> {
                &&& r == Some(old(self).segments()[0])
                &&& final(self).segments() == old(self).segments().drop_first()
            },
            old(self).source_complete() ==> final(self).source_complete(),
    {
        let ghost segs = self.segments();
        let ghost was_complete = self.it.complete();
        loop
            invariant
                segs == old(self).segments(),
                was_complete == old(self).source_complete(),
                self.segments() == segs,
                segs.len() > 0 || self.it.complete(),
                was_complete ==> self.it.complete(),
            decreases self.it.steps().len(),
        {
            proof {
                self.it.lemma_can_advance();
            }
            let evt = self.it.next();
            match evt {
                None => {
                    return None;
                },
                Some(PrimitiveEvent::MoveTo(to)) => {
                    let first = self.first_position;
                    self.first_position = to;
                    if self.in_sub_path && first != self.current_position {
                        return Some(Segment::Line(first, self.current_position));
                    }
                    self.in_sub_path = true;
                },
                Some(PrimitiveEvent::LineTo(to)) => {
                    self.in_sub_path = true;
                    let from = self.current_position;
                    self.current_position = to;
                    return Some(Segment::Line(from, to));
                },
                Some(PrimitiveEvent::QuadraticTo(ctrl, to)) => {
                    self.in_sub_path = true;
                    let from = self.current_position;
                    self.current_position = to;
                    return Some(Segment::QuadraticBezier(from, ctrl, to));
                },
                Some(PrimitiveEvent::CubicTo(ctrl1, ctrl2, to)) => {
                    self.in_sub_path = true;
                    let from = self.current_position;
                    self.current_position = to;
                    return Some(Segment::CubicBezier(from, ctrl1, ctrl2, to));
                },
                Some(PrimitiveEvent::Close) => {
                    let closing = self.close();
                    if closing.is_some() {
                        return closing;
                    }
                },
            }
        }
    }
}

/// The primitive steps that a stream of SVG steps stands for, up to the
/// first arc. Each event is read at the current position that the SVG stream
/// reports right after it.
pub open spec fn primitive_steps(steps: Seq<Step<SvgEvent>>) -> Seq<Step<PrimitiveEvent>>
    decreases steps.len(),
{
    if steps.len() == 0 || !has_primitive_form(steps[0].0) {
        seq![]
    } else {
        seq![(primitive_form(steps[0].0, steps[0].1), steps[0].1, steps[0].2)] + primitive_steps(
            steps.drop_first(),
        )
    }
}

/// The SVG steps that write a stream of primitive steps in absolute form.
pub open spec fn svg_steps(steps: Seq<Step<PrimitiveEvent>>) -> Seq<Step<SvgEvent>> {
    steps.map_values(|s: Step<PrimitiveEvent>| (svg_form(s.0), s.1, s.2))
}

/// Turns a stream of SVG events into primitive events.
pub struct SvgToPrimitiveIter<SvgIter> {
    it: SvgIter,
}

impl<SvgIter> SvgToPrimitiveIter<SvgIter> {
    /// The stream of SVG events underneath.
    pub closed spec fn inner(&self) -> SvgIter {
        self.it
    }

    /// An adapter over `it`.
    pub fn new(it: SvgIter) -> (s: Self)
        ensures
            s.inner() == it,
    {
        SvgToPrimitiveIter { it: it }
    }
}

impl<SvgIter: PathIterator<SvgEvent>> PathIterator<PrimitiveEvent> for SvgToPrimitiveIter<SvgIter> {
    open spec fn steps(&self) -> Seq<Step<PrimitiveEvent>> {
        primitive_steps(self.inner().steps())
    }

    open spec fn position(&self) -> (Point, Point) {
        self.inner().position()
    }

    open spec fn can_advance(&self) -> bool {
        &&& self.inner().can_advance()
        &&& self.inner().steps().len() > 0 ==> has_primitive_form(self.inner().steps()[0].0)
    }

    open spec fn complete(&self) -> bool {
        &&& self.inner().complete()
        &&& forall|i: int|
            0 <= i < self.inner().steps().len() ==> has_primitive_form(
                #[trigger] self.inner().steps()[i].0,
            )
    }

    proof fn lemma_can_advance(&self) {
        self.inner().lemma_can_advance();
        if self.complete() && self.inner().steps().len() > 0 {
            assert(has_primitive_form(self.inner().steps()[0].0));
        }
    }

    fn next(&mut self) -> (r: Option<PrimitiveEvent>) {
        let evt = self.it.next();
        match evt {
            Some(svg_evt) => Some(svg_evt.to_primitive(self.it.current_position())),
            None => None,
        }
    }

    fn current_position(&self) -> (p: Point) {
        self.it.current_position()
    }

    fn first_position(&self) -> (p: Point) {
        self.it.first_position()
    }
}

/// Turns a stream of primitive events into SVG events.
pub struct PrimitiveToSvgIter<PrimitiveIter> {
    it: PrimitiveIter,
}

impl<PrimitiveIter> PrimitiveToSvgIter<PrimitiveIter> {
    /// The stream of primitive events underneath.
    pub closed spec fn inner(&self) -> PrimitiveIter {
        self.it
    }

    /// An adapter over `it`.
    pub fn new(it: PrimitiveIter) -> (s: Self)
        ensures
            s.inner() == it,
    {
        PrimitiveToSvgIter { it: it }
    }
}

impl<PrimitiveIter: PathIterator<PrimitiveEvent>> PathIterator<SvgEvent> for PrimitiveToSvgIter<
    PrimitiveIter,
> {
    open spec fn steps(&self) -> Seq<Step<SvgEvent>> {
        svg_steps(self.inner().steps())
    }

    open spec fn position(&self) -> (Point, Point) {
        self.inner().position()
    }

    open spec fn can_advance(&self) -> bool {
        self.inner().can_advance()
    }

    open spec fn complete(&self) -> bool {
        self.inner().complete()
    }

    proof fn lemma_can_advance(&self) {
        self.inner().lemma_can_advance();
    }

    fn next(&mut self) -> (r: Option<SvgEvent>) {
        let ghost inner_steps = self.it.steps();
        let evt = self.it.next();
        proof {
            if inner_steps.len() > 0 {
                assert(svg_steps(self.it.steps()) =~= svg_steps(inner_steps).drop_first());
            }
        }
        match evt {
            Some(primitive_evt) => Some(primitive_evt.to_svg()),
            None => None,
        }
    }

    fn current_position(&self) -> (p: Point) {
        self.it.current_position()
    }

    fn first_position(&self) -> (p: Point) {
        self.it.first_position()
    }
}

/// A quadratic Bézier curve from `from` to `to` with control point `cp`.
#[derive(Clone, Copy, Debug, PartialEq, Eq, Structural)]
pub struct QuadraticBezierSegment {
    pub from: Point,
    pub cp: Point,
    pub to: Point,
}

/// What the flattening walk has to say next.
#[derive(Clone, Copy, Debug, PartialEq, Eq, Structural)]
pub enum FlattenStep {
    /// An event of the flattened path.
    Event(FlattenedEvent),
    /// A curve to approximate: its points are to be handed back with
    /// `set_curve_points` before asking again.
    Flatten(QuadraticBezierSegment),
    /// The path has ended.
    End,
}

/// Turns a stream of primitive events into straight-line events, replacing
/// each quadratic curve by the points that approximate it.
///
/// Approximating a curve by points is left to the caller: when the walk
/// meets a curve it hands it out, and the caller gives back the points.
pub struct FlattenIter<Iter> {
    it: Iter,
    curve: VecDeque<Point>,
}

impl<Iter> FlattenIter<Iter> {
    /// The stream of primitive events underneath.
    pub closed spec fn inner(&self) -> Iter {
        self.it
    }

    /// The points of the current curve not handed out yet.
    pub closed spec fn pending(&self) -> Seq<Point> {
        self.curve@
    }

    /// A flattening walk over `it`, with no curve in progress.
    pub fn new(it: Iter) -> (s: Self)
        ensures
            s.inner() == it,
            s.pending().len() == 0,
    {
        FlattenIter { it: it, curve: VecDeque::new() }
    }

    /// Hands over the points that approximate the curve last handed out;
    /// they come out as lines, in order, before any further event.
    pub fn set_curve_points(&mut self, points: Vec<Point>)
        ensures
            final(self).inner() == old(self).inner(),
            final(self).pending() == points@,
    {
        let mut curve: VecDeque<Point> = VecDeque::new();
        let mut i: usize = 0;
        while i < points.len()
            invariant
                i <= points.len(),
                curve@ == points@.take(i as int),
            decreases points.len() - i,
        {
            curve.push_back(points[i]);
            i = i + 1;
            assert(curve@ =~= points@.take(i as int));
        }
        assert(points@.take(i as int) =~= points@);
        self.curve = curve;
    }
}

impl<Iter: PathIterator<PrimitiveEvent>> FlattenIter<Iter> {
    /// The next event of the flattened path, the next curve to approximate,
    /// or the end. Cubic curves have no flattened form.
    pub fn next(&mut self) -> (r: FlattenStep)
        requires
            old(self).pending().len() > 0 || {
                &&& old(self).inner().can_advance()
                &&& old(self).inner().steps().len() > 0 ==> !(old(self).inner().steps()[0].0 is CubicTo)
            },
        ensures
            old(self).pending().len() > 0 ==> {
                &&& r == FlattenStep::Event(FlattenedEvent::LineTo(old(self).pending()[0]))
                &&& final(self).pending() == old(self).pending().drop_first()
                &&& final(self).inner() == old(self).inner()
            },
            old(self).pending().len() == 0 && old(self).inner().steps().len() == 0 ==> {
                &&& r == FlattenStep::End
                &&& final(self).pending().len() == 0
                &&& final(self).inner().steps().len() == 0
                &&& final(self).inner().can_advance()
                &&& final(self).inner().position() == old(self).inner().position()
            },
            old(self).pending().len() == 0 && old(self).inner().steps().len() > 0 ==> {
                let step = old(self).inner().steps()[0];
                &&& r == flatten_step(step.0, step.1)
                &&& final(self).pending().len() == 0
                &&& final(self).inner().steps() == old(self).inner().steps().drop_first()
                &&& final(self).inner().position() == (step.1, step.2)
            },
            (r, final(self).pending(), final(self).inner().steps()) == flatten_next(
                old(self).pending(),
                old(self).inner().steps(),
            ),
            old(self).inner().complete() ==> final(self).inner().complete(),
    {
        if let Some(p) = self.curve.pop_front() {
            return FlattenStep::Event(FlattenedEvent::LineTo(p));
        }
        match self.it.next() {
            Some(PrimitiveEvent::MoveTo(to)) => FlattenStep::Event(FlattenedEvent::MoveTo(to)),
            Some(PrimitiveEvent::LineTo(to)) => FlattenStep::Event(FlattenedEvent::LineTo(to)),
            Some(PrimitiveEvent::Close) => FlattenStep::Event(FlattenedEvent::Close),
            Some(PrimitiveEvent::QuadraticTo(ctrl, to)) => {
                let current = self.it.current_position();
                FlattenStep::Flatten(QuadraticBezierSegment { from: current, cp: ctrl, to: to })
            },
            Some(PrimitiveEvent::CubicTo(..)) => {
                // excluded by the precondition
                proof {
                    assert(false);
                }
                FlattenStep::End
            },
            None => FlattenStep::End,
        }
    }

    /// The current position of the stream underneath.
    pub fn current_position(&self) -> (p: Point)
        ensures
            p == self.inner().position().0,
    {
        self.it.current_position()
    }

    /// The first position of the current sub-path of the stream underneath.
    pub fn first_position(&self) -> (p: Point)
        ensures
            p == self.inner().position().1,
    {
        self.it.first_position()
    }
}

/// What the flattening walk hands out for a primitive event, given the
/// current position right after it: straight events pass through, and a
/// quadratic curve is handed out from that position.
pub open spec fn flatten_step(e: PrimitiveEvent, current: Point) -> FlattenStep {
    match e {
        PrimitiveEvent::MoveTo(to) => FlattenStep::Event(FlattenedEvent::MoveTo(to)),
        PrimitiveEvent::LineTo(to) => FlattenStep::Event(FlattenedEvent::LineTo(to)),
        PrimitiveEvent::Close => FlattenStep::Event(FlattenedEvent::Close),
        PrimitiveEvent::QuadraticTo(ctrl, to) => FlattenStep::Flatten(
            QuadraticBezierSegment { from: current, cp: ctrl, to: to },
        ),
        PrimitiveEvent::CubicTo(..) => FlattenStep::End,
    }
}

/// One move of the flattening walk, from the points of the current curve
/// not handed out yet and the steps still to come: what it hands out, and
/// what is left of each afterwards.
pub open spec fn flatten_next(pending: Seq<Point>, steps: Seq<Step<PrimitiveEvent>>) -> (
    FlattenStep,
    Seq<Point>,
    Seq<Step<PrimitiveEvent>>,
) {
    if pending.len() > 0 {
        (FlattenStep::Event(FlattenedEvent::LineTo(pending[0])), pending.drop_first(), steps)
    } else if steps.len() == 0 {
        (FlattenStep::End, seq![], steps)
    } else {
        (flatten_step(steps[0].0, steps[0].1), seq![], steps.drop_first())
    }
}

/// The first of a list of answers, or no points when there is none.
pub open spec fn first_answer(answers: Seq<Seq<Point>>) -> Seq<Point> {
    if answers.len() > 0 {
        answers[0]
    } else {
        seq![]
    }
}

/// The answers after the first one.
pub open spec fn later_answers(answers: Seq<Seq<Point>>) -> Seq<Seq<Point>> {
    if answers.len() > 0 {
        answers.drop_first()
    } else {
        answers
    }
}

/// The events that a caller of the flattening walk collects when it answers
/// the curves handed out, in order, with the point lists of `answers` (no
/// points once they run out), until the walk ends.
pub open spec fn flatten_drive(
    pending: Seq<Point>,
    steps: Seq<Step<PrimitiveEvent>>,
    answers: Seq<Seq<Point>>,
) -> Seq<FlattenedEvent>
    decreases steps.len(), pending.len(),
{
    let (r, pending2, steps2) = flatten_next(pending, steps);
    if pending.len() > 0 || steps.len() > 0 {
        match r {
            FlattenStep::Event(e) => seq![e] + flatten_drive(pending2, steps2, answers),
            FlattenStep::Flatten(_) => flatten_drive(
                first_answer(answers),
                steps2,
                later_answers(answers),
            ),
            FlattenStep::End => seq![],
        }
    } else {
        seq![]
    }
}

} // verus!
