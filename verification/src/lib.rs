//! Randomized drill sequences for the Meyer cross, a two-person longsword
//! exercise: one starting preparation and an ordered run of attacks, drawn
//! at random under the drill's rules on where a Fehler may stand.
//!
//! [`MeyerCross`] holds the current round and draws a new one. The draws
//! themselves are in [`preparation`] and [`attack_sequence`], over the
//! vocabulary of [`types`] and the sets of [`sets`]; [`random`] is where the
//! `rand` crate comes in. [`settings`] turns what a user has selected into
//! the arguments of a draw, and [`display`] says where each attack of a
//! round is shown.

pub mod attack_sequence;
pub mod display;
pub mod preparation;
pub mod random;
pub mod sets;
pub mod settings;
pub mod types;

use attack_sequence::{
    admitted, refusal, AttackSequence, AttackSequenceError, AttackSequenceGenerator,
    AttackSequenceLength, GenerateAttackSequence,
};
use preparation::{Preparation, PreparationError, PreparationRandomizer, RandomizePreparation};
use sets::{PreparationSet, StrikeSet};
use types::Strike;
use vstd::prelude::*;

verus! {

/// Why a round could not be randomized.
#[derive(Clone, Copy, PartialEq, Eq, Debug, Structural)]
pub enum MeyerCrossError {
    AttackSequence(AttackSequenceError),
    Preparation(PreparationError),
}

impl From<AttackSequenceError> for MeyerCrossError {
    fn from(error: AttackSequenceError) -> (wrapped: Self) {
        MeyerCrossError::AttackSequence(error)
    }
}

impl vstd::std_specs::convert::FromSpecImpl<AttackSequenceError> for MeyerCrossError {
    open spec fn obeys_from_spec() -> bool {
        true
    }

    open spec fn from_spec(error: AttackSequenceError) -> Self {
        MeyerCrossError::AttackSequence(error)
    }
}

impl From<PreparationError> for MeyerCrossError {
    fn from(error: PreparationError) -> (wrapped: Self) {
        MeyerCrossError::Preparation(error)
    }
}

impl vstd::std_specs::convert::FromSpecImpl<PreparationError> for MeyerCrossError {
    open spec fn obeys_from_spec() -> bool {
        true
    }

    open spec fn from_spec(error: PreparationError) -> Self {
        MeyerCrossError::Preparation(error)
    }
}

/// The current round of the drill: its preparation and its attacks, both
/// unset until the first round has been randomized.
#[derive(Debug)]
pub struct MeyerCross {
    pub preparation: Option<Preparation>,
    pub attack_sequence: Option<AttackSequence>,
}

impl MeyerCross {
    /// A drill without a round.
    pub fn new() -> (cross: Self)
        ensures
            cross.preparation is None,
            cross.attack_sequence is None,
    {
        MeyerCross { preparation: None, attack_sequence: None }
    }

    /// Forgets the current round.
    pub fn clear(&mut self)
        ensures
            final(self).preparation is None,
            final(self).attack_sequence is None,
    {
        self.preparation = None;
        self.attack_sequence = None;
    }

    /// What randomizing a round from the given settings returns: the error
    /// of the preparations first, then that of the strikes.
    pub open spec fn outcome(preparations: Set<Preparation>, strikes: Set<Strike>) -> Result<
        (),
        MeyerCrossError,
    > {
        if preparations.is_empty() {
            Err(MeyerCrossError::Preparation(PreparationError::NoPreparation))
        } else {
            match refusal(strikes) {
                Some(error) => Err(MeyerCrossError::AttackSequence(error)),
                None => Ok(()),
            }
        }
    }

    /// Whether `self` is a state in which randomizing a round from the
    /// given settings can leave a drill that was in the state `before`.
    ///
    /// Without a preparation to draw, nothing changes. Otherwise the
    /// preparation is one of those allowed, and the attacks are a sequence
    /// that the settings admit or, where the strikes are refused, those
    /// of `before`.
    pub open spec fn randomized_from(
        &self,
        before: MeyerCross,
        length: nat,
        preparations: Set<Preparation>,
        strikes: Set<Strike>,
        doppelfehler_enabled: bool,
    ) -> bool {
        if preparations.is_empty() {
            *self == before
        } else {
            &&& self.preparation is Some
            &&& preparations.contains(self.preparation.unwrap())
            &&& match refusal(strikes) {
                Some(_) => self.attack_sequence == before.attack_sequence,
                None => {
                    &&& self.attack_sequence is Some
                    &&& admitted(
                        self.attack_sequence.unwrap()@,
                        length,
                        strikes,
                        doppelfehler_enabled,
                    )
                },
            }
        }
    }

    /// A round that was randomized without an error is complete: it has one
    /// of the allowed preparations and as many attacks as were asked for.
    pub proof fn lemma_round_is_complete(
        &self,
        before: MeyerCross,
        length: nat,
        preparations: Set<Preparation>,
        strikes: Set<Strike>,
        doppelfehler_enabled: bool,
    )
        requires
            Self::outcome(preparations, strikes) is Ok,
            self.randomized_from(before, length, preparations, strikes, doppelfehler_enabled),
        ensures
            self.preparation is Some,
            preparations.contains(self.preparation.unwrap()),
            self.attack_sequence is Some,
            self.attack_sequence.unwrap()@.len() == length,
    {
    }

    /// Draws a new round: first the preparation, then the attacks.
    ///
    /// The preparation is stored as soon as it is drawn. If the attacks are
    /// then refused, the new preparation stays beside the attacks of the
    /// round before.
    pub fn randomize(
        &mut self,
        length: AttackSequenceLength,
        preparations: &PreparationSet,
        strikes: &StrikeSet,
        doppelfehler_enabled: bool,
    ) -> (done: Result<(), MeyerCrossError>)
        ensures
            done == Self::outcome(preparations@, strikes@),
            final(self).randomized_from(
                *old(self),
                length@,
                preparations@,
                strikes@,
                doppelfehler_enabled,
            ),
    {
        match PreparationRandomizer::gen_random_preparation(preparations) {
            Ok(preparation) => {
                self.preparation = Some(preparation);
            },
            Err(error) => {
                return Err(MeyerCrossError::from(error));
            },
        }
        match AttackSequenceGenerator::gen_random_attack_sequence(
            length,
            strikes,
            doppelfehler_enabled,
        ) {
            Ok(sequence) => {
                self.attack_sequence = Some(sequence);
            },
            Err(error) => {
                return Err(MeyerCrossError::from(error));
            },
        }
        Ok(())
    }
}

} // verus!
