//! The attacks of a round: their number, and the random sequence itself.
//!
//! The openings of a sequence follow one of four fixed rotations through the
//! quadrants, repeated as often as the length asks. The strikes are drawn one
//! by one from the allowed strikes; a Fehler is never drawn for the last
//! attack, nor directly after another Fehler unless doubled Fehler are
//! enabled.

use crate::random::{choose_one, gen_range_inclusive};
use crate::sets::StrikeSet;
use crate::types::{Attack, Opening, Strike};
use vstd::prelude::*;

verus! {

/// The attacks of one round, in the order in which they are struck.
pub type AttackSequence = Vec<Attack>;

/// Why no attack sequence could be made.
#[derive(Clone, Copy, PartialEq, Eq, Debug, Structural)]
pub enum AttackSequenceError {
    /// The requested length lies outside the supported range, whose bounds
    /// the error carries.
    UnsupportedLength(usize, usize),
    /// The set of allowed strikes was empty.
    NoStrikes,
    /// The only allowed strike was the Fehler.
    OnlyFehlerNotAllowed,
}

/// The number of attacks in a sequence: at least `MIN_LENGTH`, at most
/// `MAX_LENGTH`.
#[derive(Debug)]
pub struct AttackSequenceLength {
    length: usize,
}

impl View for AttackSequenceLength {
    type V = nat;

    closed spec fn view(&self) -> nat {
        self.length as nat
    }
}

impl AttackSequenceLength {
    pub const MIN_LENGTH: usize = 2;

    pub const MAX_LENGTH: usize = 8;

    #[verifier::type_invariant]
    spec fn in_range(&self) -> bool {
        Self::MIN_LENGTH <= self.length <= Self::MAX_LENGTH
    }

    /// The length `length`, if it is supported.
    pub fn new(length: usize) -> (made: Result<Self, AttackSequenceError>)
        ensures
            Self::MIN_LENGTH <= length <= Self::MAX_LENGTH ==> made is Ok && made.unwrap()@
                == length,
            !(Self::MIN_LENGTH <= length <= Self::MAX_LENGTH) ==> made == Err::<Self, _>(
                AttackSequenceError::UnsupportedLength(Self::MIN_LENGTH, Self::MAX_LENGTH),
            ),
    {
        if Self::MIN_LENGTH <= length && length <= Self::MAX_LENGTH {
            Ok(Self { length })
        } else {
            Err(AttackSequenceError::UnsupportedLength(Self::MIN_LENGTH, Self::MAX_LENGTH))
        }
    }

    /// A length drawn at random from `min` to `max`, both included, each as
    /// likely as any other. Fails if the bounds are not supported lengths
    /// or `min` lies above `max`.
    pub fn randomized_range(min: usize, max: usize) -> (made: Result<Self, AttackSequenceError>)
        ensures
            Self::MIN_LENGTH <= min <= max <= Self::MAX_LENGTH ==> made is Ok && min
                <= made.unwrap()@ <= max,
            !(Self::MIN_LENGTH <= min <= max <= Self::MAX_LENGTH) ==> made == Err::<Self, _>(
                AttackSequenceError::UnsupportedLength(Self::MIN_LENGTH, Self::MAX_LENGTH),
            ),
    {
        if min < Self::MIN_LENGTH || max > Self::MAX_LENGTH || min > max {
            return Err(
                AttackSequenceError::UnsupportedLength(Self::MIN_LENGTH, Self::MAX_LENGTH),
            );
        }
        let mut rng = rand::thread_rng();
        Self::new(gen_range_inclusive(&mut rng, min, max))
    }

    /// The length as a number.
    pub fn get(&self) -> (length: usize)
        ensures
            length == self@,
            Self::MIN_LENGTH <= length <= Self::MAX_LENGTH,
    {
        proof {
            use_type_invariant(self);
        }
        self.length
    }
}

impl From<AttackSequenceLength> for usize {
    fn from(length: AttackSequenceLength) -> (count: usize) {
        length.length
    }
}

impl vstd::std_specs::convert::FromSpecImpl<AttackSequenceLength> for usize {
    open spec fn obeys_from_spec() -> bool {
        true
    }

    open spec fn from_spec(length: AttackSequenceLength) -> usize {
        length@ as usize
    }
}

/// The four rotations through the quadrants. Each visits every quadrant once;
/// a sequence follows one of them, starting over after four attacks.
pub const BASE_SEQUENCES: [[Opening; 4]; 4] = [
    [Opening::TopRight, Opening::BottomLeft, Opening::BottomRight, Opening::TopLeft],
    [Opening::BottomRight, Opening::TopLeft, Opening::TopRight, Opening::BottomLeft],
    [Opening::TopLeft, Opening::BottomRight, Opening::BottomLeft, Opening::TopRight],
    [Opening::BottomLeft, Opening::TopRight, Opening::TopLeft, Opening::BottomRight],
];

/// Whether a Fehler may be drawn for the attack at index `step` of a
/// sequence of `length` attacks: never for the last attack, and after a
/// Fehler only if doubled Fehler are enabled.
pub open spec fn fehler_permitted(
    step: int,
    length: int,
    last_was_fehler: bool,
    doppelfehler_enabled: bool,
) -> bool {
    step != length - 1 && (!last_was_fehler || doppelfehler_enabled)
}

/// The strikes from which one attack is drawn.
pub open spec fn candidates(allowed_strikes: Set<Strike>, fehler_permitted: bool) -> Set<Strike> {
    if fehler_permitted {
        allowed_strikes
    } else {
        allowed_strikes.remove(Strike::Fehler)
    }
}

/// Whether the attack before index `step` of `sequence` is a Fehler.
pub open spec fn follows_fehler(sequence: Seq<Attack>, step: int) -> bool {
    step > 0 && sequence[step - 1].strike == Strike::Fehler
}

/// Whether the strike at index `step` of `sequence` could have been drawn
/// there.
pub open spec fn strike_admitted(
    sequence: Seq<Attack>,
    step: int,
    length: int,
    allowed_strikes: Set<Strike>,
    doppelfehler_enabled: bool,
) -> bool {
    candidates(
        allowed_strikes,
        fehler_permitted(step, length, follows_fehler(sequence, step), doppelfehler_enabled),
    ).contains(sequence[step].strike)
}

/// Whether the openings of `sequence` run through `pattern` again and again.
pub open spec fn follows_pattern(sequence: Seq<Attack>, pattern: Seq<Opening>) -> bool {
    forall|step: int|
        0 <= step < sequence.len() ==> (#[trigger] sequence[step]).opening == pattern[step % 4]
}

/// Whether `sequence` is one that the generator can produce for the given
/// settings: it has the requested length, its openings follow one of the
/// base sequences, and each strike is one that could be drawn in its place.
pub open spec fn admitted(
    sequence: Seq<Attack>,
    length: nat,
    allowed_strikes: Set<Strike>,
    doppelfehler_enabled: bool,
) -> bool {
    &&& sequence.len() == length
    &&& exists|rotation: int|
        0 <= rotation < 4 && follows_pattern(sequence, #[trigger] BASE_SEQUENCES[rotation]@)
    &&& forall|step: int|
        0 <= step < sequence.len() ==> #[trigger] strike_admitted(
            sequence,
            step,
            length as int,
            allowed_strikes,
            doppelfehler_enabled,
        )
}

/// Whether two Fehler stand in a row somewhere in `sequence`.
pub open spec fn has_doubled_fehler(sequence: Seq<Attack>) -> bool {
    exists|step: int|
        0 <= step < sequence.len() && #[trigger] follows_fehler(sequence, step)
            && sequence[step].strike == Strike::Fehler
}

/// The error with which a set of allowed strikes is refused, if it is: a
/// round needs at least one committed strike to draw from.
pub open spec fn refusal(allowed_strikes: Set<Strike>) -> Option<AttackSequenceError> {
    if allowed_strikes.is_empty() {
        Some(AttackSequenceError::NoStrikes)
    } else if allowed_strikes == set![Strike::Fehler] {
        Some(AttackSequenceError::OnlyFehlerNotAllowed)
    } else {
        None
    }
}

/// Makes random attack sequences.
pub struct AttackSequenceGenerator;

/// A source of random attack sequences.
pub trait GenerateAttackSequence {
    /// A random sequence of `length` attacks with strikes from
    /// `allowed_strikes`. Fails, before anything is drawn, if no strike is
    /// allowed or only the Fehler is; otherwise returns a sequence that the
    /// settings admit.
    fn gen_random_attack_sequence(
        length: AttackSequenceLength,
        allowed_strikes: &StrikeSet,
        doppelfehler_enabled: bool,
    ) -> (generated: Result<AttackSequence, AttackSequenceError>)
        ensures
            refusal(allowed_strikes@) matches Some(error) ==> generated == Err::<
                AttackSequence,
                _,
            >(error),
            refusal(allowed_strikes@) is None ==> generated is Ok,
            generated matches Ok(sequence) ==> {
                &&& admitted(sequence@, length@, allowed_strikes@, doppelfehler_enabled)
                &&& sequence@.len() == length@
                &&& sequence@.last().strike != Strike::Fehler
                &&& !doppelfehler_enabled ==> !has_doubled_fehler(sequence@)
            },
    ;
}

impl AttackSequenceGenerator {
    /// Checks that a sequence can be drawn from `allowed_strikes`.
    pub fn validate(allowed_strikes: &StrikeSet) -> (checked: Result<(), AttackSequenceError>)
        ensures
            checked == match refusal(allowed_strikes@) {
                Some(error) => Err(error),
                None => Ok(()),
            },
    {
        if allowed_strikes.is_empty() {
            return Err(AttackSequenceError::NoStrikes);
        }
        if allowed_strikes.len() == 1 && allowed_strikes.contains(Strike::Fehler) {
            proof {
                lemma_singleton(allowed_strikes@, Strike::Fehler);
            }
            return Err(AttackSequenceError::OnlyFehlerNotAllowed);
        }
        Ok(())
    }

    /// The rotation that a draw from the base sequences stands for: the one
    /// drawn, or the first where nothing was drawn.
    pub fn pattern_or_first(drawn: Option<&[Opening; 4]>) -> (pattern: [Opening; 4])
        ensures
            pattern == match drawn {
                Some(rotation) => *rotation,
                None => BASE_SEQUENCES[0],
            },
    {
        match drawn {
            Some(rotation) => *rotation,
            None => BASE_SEQUENCES[0],
        }
    }

    /// Whether a Fehler may be drawn for the attack that follows `sequence`
    /// in a round of `length` attacks.
    pub fn fehler_allowed(
        sequence: &AttackSequence,
        length: &AttackSequenceLength,
        doppelfehler_enabled: bool,
    ) -> (allowed: bool)
        ensures
            allowed == fehler_permitted(
                sequence@.len() as int,
                length@ as int,
                follows_fehler(sequence@, sequence@.len() as int),
                doppelfehler_enabled,
            ),
    {
        let step = sequence.len();
        let last_was_fehler = step > 0 && sequence[step - 1].strike == Strike::Fehler;
        step != length.get() - 1 && (!last_was_fehler || doppelfehler_enabled)
    }

    /// The strikes from which the next attack is drawn: all that are allowed
    /// where a Fehler may be drawn, else the committed ones among them.
    pub fn pool<'a>(
        allowed_strikes: &'a StrikeSet,
        true_strikes: &'a StrikeSet,
        fehler_allowed: bool,
    ) -> (strikes: &'a [Strike])
        ensures
            strikes@ == if fehler_allowed {
                allowed_strikes.members()
            } else {
                true_strikes.members()
            },
            strikes@.no_duplicates(),
            strikes@.to_set() == if fehler_allowed {
                allowed_strikes@
            } else {
                true_strikes@
            },
            strikes@.len() == strikes@.to_set().len(),
    {
        if fehler_allowed {
            allowed_strikes.as_slice()
        } else {
            true_strikes.as_slice()
        }
    }

    /// The attack at index `step` of a sequence that follows `pattern`, once
    /// its strike has been drawn.
    pub fn attack_at(pattern: &[Opening; 4], step: usize, strike: Strike) -> (attack: Attack)
        ensures
            attack == (Attack { opening: pattern@[step as int % 4], strike }),
    {
        Attack { opening: pattern[step % 4], strike }
    }
}

impl GenerateAttackSequence for AttackSequenceGenerator {
    fn gen_random_attack_sequence(
        length: AttackSequenceLength,
        allowed_strikes: &StrikeSet,
        doppelfehler_enabled: bool,
    ) -> (generated: Result<AttackSequence, AttackSequenceError>) {
        match Self::validate(allowed_strikes) {
            Err(error) => {
                return Err(error);
            },
            Ok(()) => {},
        }
        let true_strikes = allowed_strikes.without(Strike::Fehler);
        proof {
            allowed_strikes.lemma_view();
            lemma_true_strikes(allowed_strikes@);
        }

        let mut rnd = rand::thread_rng();
        let drawn = choose_one(BASE_SEQUENCES.as_slice(), &mut rnd);
        let sequence_type = Self::pattern_or_first(drawn);
        let mut sequence: Vec<Attack> = Vec::new();

        let attacks: usize = length.get();
        for n in 0..attacks
            invariant
                attacks == length@,
                sequence@.len() == n,
                follows_pattern(sequence@, sequence_type@),
                forall|step: int|
                    0 <= step < n ==> #[trigger] strike_admitted(
                        sequence@,
                        step,
                        attacks as int,
                        allowed_strikes@,
                        doppelfehler_enabled,
                    ),
                allowed_strikes@.finite(),
                allowed_strikes@.len() > 0,
                true_strikes@ == allowed_strikes@.remove(Strike::Fehler),
                true_strikes@.len() > 0,
        {
            let fehler_allowed = Self::fehler_allowed(&sequence, &length, doppelfehler_enabled);
            let strikes = Self::pool(allowed_strikes, &true_strikes, fehler_allowed);
            let strike = *choose_one(strikes, &mut rnd).unwrap();
            let ghost earlier = sequence@;
            sequence.push(Self::attack_at(&sequence_type, n, strike));
            proof {
                assert forall|step: int| 0 <= step < n + 1 implies #[trigger] strike_admitted(
                    sequence@,
                    step,
                    attacks as int,
                    allowed_strikes@,
                    doppelfehler_enabled,
                ) by {
                    if step < n {
                        assert(strike_admitted(
                            earlier,
                            step,
                            attacks as int,
                            allowed_strikes@,
                            doppelfehler_enabled,
                        ));
                    }
                }
            }
        }
        proof {
            lemma_last_is_no_fehler(sequence@, length@, allowed_strikes@, doppelfehler_enabled);
            if !doppelfehler_enabled {
                lemma_no_doubled_fehler(sequence@, length@, allowed_strikes@);
            }
        }
        Ok(sequence)
    }
}

/// Every strike of an admitted sequence is an allowed one.
pub proof fn lemma_strikes_are_allowed(
    sequence: Seq<Attack>,
    length: nat,
    allowed_strikes: Set<Strike>,
    doppelfehler_enabled: bool,
)
    requires
        admitted(sequence, length, allowed_strikes, doppelfehler_enabled),
    ensures
        forall|step: int|
            0 <= step < length ==> allowed_strikes.contains((#[trigger] sequence[step]).strike),
{
    assert forall|step: int| 0 <= step < length implies allowed_strikes.contains(
        (#[trigger] sequence[step]).strike,
    ) by {
        assert(strike_admitted(
            sequence,
            step,
            length as int,
            allowed_strikes,
            doppelfehler_enabled,
        ));
    }
}

/// Enabling doubled Fehler takes no sequence away: what is admitted without
/// them is admitted with them.
pub proof fn lemma_doubling_admits_more(
    sequence: Seq<Attack>,
    length: nat,
    allowed_strikes: Set<Strike>,
)
    requires
        admitted(sequence, length, allowed_strikes, false),
    ensures
        admitted(sequence, length, allowed_strikes, true),
{
    assert forall|step: int| 0 <= step < sequence.len() implies #[trigger] strike_admitted(
        sequence,
        step,
        length as int,
        allowed_strikes,
        true,
    ) by {
        assert(strike_admitted(sequence, step, length as int, allowed_strikes, false));
    }
}

/// An admitted sequence does not end in a Fehler.
pub proof fn lemma_last_is_no_fehler(
    sequence: Seq<Attack>,
    length: nat,
    allowed_strikes: Set<Strike>,
    doppelfehler_enabled: bool,
)
    requires
        length > 0,
        admitted(sequence, length, allowed_strikes, doppelfehler_enabled),
    ensures
        sequence.last().strike != Strike::Fehler,
{
    assert(strike_admitted(
        sequence,
        length - 1,
        length as int,
        allowed_strikes,
        doppelfehler_enabled,
    ));
}

/// Without doubled Fehler, no two Fehler stand in a row in an admitted
/// sequence.
pub proof fn lemma_no_doubled_fehler(
    sequence: Seq<Attack>,
    length: nat,
    allowed_strikes: Set<Strike>,
)
    requires
        admitted(sequence, length, allowed_strikes, false),
    ensures
        !has_doubled_fehler(sequence),
{
    assert forall|step: int|
        0 <= step < sequence.len() && #[trigger] follows_fehler(
            sequence,
            step,
        ) implies sequence[step].strike != Strike::Fehler by {
        assert(strike_admitted(sequence, step, length as int, allowed_strikes, false));
    }
}

/// With doubled Fehler enabled, two Fehler in a row may occur but need not:
/// where the Fehler and a committed strike are allowed and the sequence has
/// room for two Fehler before its last attack, the settings admit a sequence
/// that opens with two Fehler, and one that holds no Fehler at all.
pub proof fn lemma_doubled_fehler_may_occur(
    length: nat,
    allowed_strikes: Set<Strike>,
    committed: Strike,
)
    requires
        3 <= length,
        allowed_strikes.contains(Strike::Fehler),
        allowed_strikes.contains(committed),
        committed != Strike::Fehler,
    ensures
        exists|sequence: Seq<Attack>|
            #[trigger] admitted(sequence, length, allowed_strikes, true) && has_doubled_fehler(
                sequence,
            ),
        exists|sequence: Seq<Attack>|
            #[trigger] admitted(sequence, length, allowed_strikes, true) && !has_doubled_fehler(
                sequence,
            ),
{
    let pattern = BASE_SEQUENCES[0]@;
    let doubled = Seq::new(
        length,
        |step: int|
            Attack {
                opening: pattern[step % 4],
                strike: if step < 2 {
                    Strike::Fehler
                } else {
                    committed
                },
            },
    );
    let plain = Seq::new(
        length,
        |step: int| Attack { opening: pattern[step % 4], strike: committed },
    );
    assert(admitted(doubled, length, allowed_strikes, true));
    assert(admitted(plain, length, allowed_strikes, true));
    assert(follows_fehler(doubled, 1) && doubled[1].strike == Strike::Fehler);
}

/// Where a set of allowed strikes is not refused, a committed strike is
/// among them.
proof fn lemma_true_strikes(allowed_strikes: Set<Strike>)
    requires
        allowed_strikes.finite(),
        refusal(allowed_strikes) is None,
    ensures
        allowed_strikes.len() > 0,
        allowed_strikes.remove(Strike::Fehler).len() > 0,
{
    if allowed_strikes.remove(Strike::Fehler).len() == 0 {
        assert(allowed_strikes =~= set![Strike::Fehler]);
    }
}

/// A finite set with one member holds that member and nothing else.
proof fn lemma_singleton(set: Set<Strike>, member: Strike)
    requires
        set.finite(),
        set.len() == 1,
        set.contains(member),
    ensures
        set == set![member],
{
    assert(set.remove(member) =~= Set::<Strike>::empty());
}

} // verus!
