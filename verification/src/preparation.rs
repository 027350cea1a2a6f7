//! How a round of the drill opens: from a guard, or with a number of
//! preparatory sweeps (Streichen), and the random choice among the
//! preparations that the settings allow.

use crate::random::choose_one;
use crate::sets::PreparationSet;
use crate::types::Guard;
use vstd::prelude::*;

verus! {

/// Why no preparation could be drawn.
#[derive(Clone, Copy, PartialEq, Eq, Debug, Structural)]
pub enum PreparationError {
    /// The set of allowed preparations was empty.
    NoPreparation,
}

/// The opening state of a round.
#[derive(Clone, Copy, Eq, PartialEq, Debug, Hash, Structural)]
pub enum Preparation {
    Static(Guard),
    Streichen(StreichenCount),
}

/// The number of sweeps that precede the drill proper.
#[derive(Clone, Copy, Eq, Hash, PartialEq, Debug, Structural)]
pub enum StreichenCount {
    One,
    Two,
    Three,
}

impl StreichenCount {
    /// The count as a number: 1, 2 or 3.
    pub open spec fn number(self) -> usize {
        match self {
            StreichenCount::One => 1,
            StreichenCount::Two => 2,
            StreichenCount::Three => 3,
        }
    }
}

impl From<StreichenCount> for usize {
    fn from(count: StreichenCount) -> (n: usize) {
        match count {
            StreichenCount::One => 1,
            StreichenCount::Two => 2,
            StreichenCount::Three => 3,
        }
    }
}

impl vstd::std_specs::convert::FromSpecImpl<StreichenCount> for usize {
    open spec fn obeys_from_spec() -> bool {
        true
    }

    open spec fn from_spec(count: StreichenCount) -> usize {
        count.number()
    }
}

/// Draws the preparation of a round.
pub struct PreparationRandomizer;

/// A source of random preparations.
pub trait RandomizePreparation {
    /// One of `allowed_preparations`, drawn at random with every member as
    /// likely as any other; `NoPreparation` if there is none to draw from.
    fn gen_random_preparation(allowed_preparations: &PreparationSet) -> (drawn: Result<
        Preparation,
        PreparationError,
    >)
        ensures
            allowed_preparations@.is_empty() ==> drawn == Err::<Preparation, _>(
                PreparationError::NoPreparation,
            ),
            !allowed_preparations@.is_empty() ==> drawn is Ok && allowed_preparations@.contains(
                drawn.unwrap(),
            ),
    ;
}

impl PreparationRandomizer {
    /// The preparation that a draw stands for: the one drawn, or three
    /// sweeps where nothing was drawn.
    pub fn drawn_or_default(drawn: Option<&Preparation>) -> (preparation: Preparation)
        ensures
            preparation == match drawn {
                Some(chosen) => *chosen,
                None => Preparation::Streichen(StreichenCount::Three),
            },
    {
        match drawn {
            Some(chosen) => *chosen,
            None => Preparation::Streichen(StreichenCount::Three),
        }
    }
}

impl RandomizePreparation for PreparationRandomizer {
    fn gen_random_preparation(allowed_preparations: &PreparationSet) -> (drawn: Result<
        Preparation,
        PreparationError,
    >) {
        if allowed_preparations.is_empty() {
            Err(PreparationError::NoPreparation)
        } else {
            let mut rng = rand::thread_rng();
            let candidates = allowed_preparations.as_slice();
            let preparation = Self::drawn_or_default(choose_one(candidates, &mut rng));
            Ok(preparation)
        }
    }
}

} // verus!
