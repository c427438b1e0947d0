//! Path events and the iterators that walk them.
//!
//! A path is a list of verbs with the vertices they consume. `PathIter`
//! turns the two lists into primitive events, `EventListIter` walks a list of
//! primitive events, `SegmentIterator` turns a stream of primitive events into
//! segments, the two adapters convert between SVG-style events (which may be
//! relative) and primitive events, and `FlattenIter` replaces curves by
//! points that its caller supplies.
//!
//! Coordinates are integers; adding a vector to a point wraps at the range
//! of `i32`.

pub mod math;
pub mod path;
pub mod events;
pub mod path_iterator;
pub mod laws;
