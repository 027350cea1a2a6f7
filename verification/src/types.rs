//! The drill's vocabulary: where a strike lands, how it is struck, and the
//! guards a fencer may start from.

use vstd::prelude::*;

verus! {

/// The manner of a strike. A `Fehler` is a feint; the other three are
/// committed strikes.
#[derive(Clone, Copy, PartialEq, Eq, Hash, Debug, Structural)]
pub enum Strike {
    Flat,
    Long,
    Short,
    Fehler,
}

/// A static posture from which the drill may begin.
#[derive(Clone, Copy, Hash, Eq, PartialEq, Debug, Structural)]
pub enum Guard {
    TagLeft,
    TagRight,
    TagAbove,
    PflugLeft,
    PflugRight,
    OchsLeft,
    OchsRight,
    Eisenport,
    Langort,
    Alber,
}

/// One of the four target quadrants.
#[derive(Clone, Copy, Hash, Eq, PartialEq, Debug, Structural)]
pub enum Opening {
    TopLeft,
    TopRight,
    BottomLeft,
    BottomRight,
}

/// One event of the drill: a strike delivered to an opening.
#[derive(Clone, Copy, Eq, PartialEq, Debug, Structural)]
pub struct Attack {
    pub opening: Opening,
    pub strike: Strike,
}

} // verus!
