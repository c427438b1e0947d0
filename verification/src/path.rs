use vstd::prelude::*;

verus! {

/// What a path does next, and so how many vertices it consumes.
#[derive(Clone, Copy, Debug, PartialEq, Eq, Structural)]
pub enum Verb {
    MoveTo,
    LineTo,
    QuadraticTo,
    CubicTo,
    Close,
}

/// The number of vertices a verb consumes.
pub open spec fn arity(v: Verb) -> nat {
    match v {
        Verb::MoveTo => 1,
        Verb::LineTo => 1,
        Verb::QuadraticTo => 2,
        Verb::CubicTo => 3,
        Verb::Close => 0,
    }
}

/// The number of vertices a list of verbs consumes.
pub open spec fn vertices_needed(verbs: Seq<Verb>) -> nat
    decreases verbs.len(),
{
    if verbs.len() == 0 {
        0
    } else {
        arity(verbs[0]) + vertices_needed(verbs.drop_first())
    }
}

} // verus!
