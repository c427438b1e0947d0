# path_events

Path events and the iterators that walk them, with their behaviour proved by
Verus.

- `src/math.rs`: points and vectors with integer coordinates; moving a point
  by a vector wraps at the range of `i32`.
- `src/path.rs`: the verbs of a path and how many vertices each consumes.
- `src/events.rs`: SVG, primitive, adapted and flattened events, segments, and
  the conversions between SVG and primitive events.
- `src/path_iterator.rs`: the `PathIterator` trait, `PathIter` (verbs and
  vertices to primitive events), `EventListIter` (a list of primitive events), `SegmentIterator` (events to segments), the
  SVG/primitive adapters, and `FlattenIter`, which replaces quadratic curves by
  points that its caller supplies.
- `src/laws.rs`: properties that tie these together.

Every iterator is specified by the sequence of what it yields from now on
(`steps`, `segments`, `pending`), so each call of `next` is pinned down
exactly.
