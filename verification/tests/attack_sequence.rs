use meyer_cross::attack_sequence::{
    AttackSequenceError, AttackSequenceGenerator, AttackSequenceLength, GenerateAttackSequence,
    BASE_SEQUENCES,
};
use meyer_cross::sets::StrikeSet;
use meyer_cross::types::{Attack, Opening, Strike};

fn strikes(members: &[Strike]) -> StrikeSet {
    let mut set = StrikeSet::new();
    for strike in members {
        set.insert(*strike);
    }
    set
}

fn length(n: usize) -> AttackSequenceLength {
    AttackSequenceLength::new(n).unwrap()
}

fn generate(n: usize, allowed: &[Strike], doubled: bool) -> Vec<Attack> {
    AttackSequenceGenerator::gen_random_attack_sequence(length(n), &strikes(allowed), doubled)
        .unwrap()
}

fn follows_a_base_sequence(sequence: &[Attack]) -> bool {
    BASE_SEQUENCES.iter().any(|pattern| {
        sequence.iter().enumerate().all(|(n, attack)| attack.opening == pattern[n % 4])
    })
}

fn has_doubled_fehler(sequence: &[Attack]) -> bool {
    sequence
        .windows(2)
        .any(|pair| pair[0].strike == Strike::Fehler && pair[1].strike == Strike::Fehler)
}

const ALL_STRIKES: [Strike; 4] = [Strike::Flat, Strike::Long, Strike::Short, Strike::Fehler];

#[test]
fn new_accepts_two_to_eight() {
    for n in 2..=8 {
        let made = AttackSequenceLength::new(n).unwrap();
        assert_eq!(made.get(), n);
    }
}

#[test]
fn new_refuses_other_lengths() {
    for n in [0, 1, 9, 10, 100, usize::MAX] {
        assert_eq!(
            AttackSequenceLength::new(n).err(),
            Some(AttackSequenceError::UnsupportedLength(2, 8))
        );
    }
}

#[test]
fn length_bounds_are_two_and_eight() {
    assert_eq!(AttackSequenceLength::MIN_LENGTH, 2);
    assert_eq!(AttackSequenceLength::MAX_LENGTH, 8);
}

#[test]
fn randomized_range_stays_within_its_bounds() {
    for min in 2..=8 {
        for max in min..=8 {
            for _ in 0..20 {
                let drawn = AttackSequenceLength::randomized_range(min, max).unwrap().get();
                assert!(min <= drawn && drawn <= max);
            }
        }
    }
}

#[test]
fn randomized_range_of_one_length_gives_it() {
    for n in 2..=8 {
        assert_eq!(AttackSequenceLength::randomized_range(n, n).unwrap().get(), n);
    }
}

#[test]
fn randomized_range_reaches_every_length() {
    let mut seen = [false; 9];
    for _ in 0..2000 {
        seen[AttackSequenceLength::randomized_range(2, 8).unwrap().get()] = true;
    }
    assert_eq!(seen, [false, false, true, true, true, true, true, true, true]);
}

#[test]
fn randomized_range_refuses_bounds_outside_two_to_eight() {
    let refused = Some(AttackSequenceError::UnsupportedLength(2, 8));
    assert_eq!(AttackSequenceLength::randomized_range(1, 4).err(), refused);
    assert_eq!(AttackSequenceLength::randomized_range(0, 0).err(), refused);
    assert_eq!(AttackSequenceLength::randomized_range(4, 9).err(), refused);
    assert_eq!(AttackSequenceLength::randomized_range(9, 12).err(), refused);
    assert_eq!(AttackSequenceLength::randomized_range(0, usize::MAX).err(), refused);
}

#[test]
fn randomized_range_refuses_an_empty_range() {
    let refused = Some(AttackSequenceError::UnsupportedLength(2, 8));
    assert_eq!(AttackSequenceLength::randomized_range(5, 4).err(), refused);
    assert_eq!(AttackSequenceLength::randomized_range(8, 2).err(), refused);
}

#[test]
fn no_strikes_is_refused() {
    for doubled in [false, true] {
        let generated = AttackSequenceGenerator::gen_random_attack_sequence(
            length(4),
            &StrikeSet::new(),
            doubled,
        );
        assert_eq!(generated, Err(AttackSequenceError::NoStrikes));
    }
}

#[test]
fn only_fehler_is_refused() {
    for doubled in [false, true] {
        let generated = AttackSequenceGenerator::gen_random_attack_sequence(
            length(4),
            &strikes(&[Strike::Fehler]),
            doubled,
        );
        assert_eq!(generated, Err(AttackSequenceError::OnlyFehlerNotAllowed));
    }
}

#[test]
fn validate_tells_the_two_refusals_apart() {
    assert_eq!(
        AttackSequenceGenerator::validate(&StrikeSet::new()),
        Err(AttackSequenceError::NoStrikes)
    );
    assert_eq!(
        AttackSequenceGenerator::validate(&strikes(&[Strike::Fehler])),
        Err(AttackSequenceError::OnlyFehlerNotAllowed)
    );
    assert_eq!(AttackSequenceGenerator::validate(&strikes(&[Strike::Short])), Ok(()));
    assert_eq!(
        AttackSequenceGenerator::validate(&strikes(&[Strike::Fehler, Strike::Short])),
        Ok(())
    );
    assert_eq!(AttackSequenceGenerator::validate(&strikes(&ALL_STRIKES)), Ok(()));
}

#[test]
fn sequence_has_requested_length() {
    for n in 2..=8 {
        for doubled in [false, true] {
            for _ in 0..50 {
                let sequence = generate(n, &ALL_STRIKES, doubled);
                assert_eq!(sequence.len(), n);
            }
        }
    }
}

#[test]
fn openings_follow_a_base_sequence() {
    for n in 2..=8 {
        for _ in 0..50 {
            assert!(follows_a_base_sequence(&generate(n, &ALL_STRIKES, true)));
        }
    }
}

#[test]
fn eight_attacks_run_through_the_pattern_twice() {
    for _ in 0..50 {
        let sequence = generate(8, &[Strike::Long], false);
        for n in 0..4 {
            assert_eq!(sequence[n].opening, sequence[n + 4].opening);
        }
    }
}

#[test]
fn every_base_sequence_is_drawn() {
    let mut seen = [false; 4];
    for _ in 0..2000 {
        let sequence = generate(4, &[Strike::Long], false);
        let openings: Vec<Opening> = sequence.iter().map(|attack| attack.opening).collect();
        let rotation = BASE_SEQUENCES.iter().position(|pattern| pattern[..] == openings[..]);
        seen[rotation.unwrap()] = true;
    }
    assert_eq!(seen, [true; 4]);
}

#[test]
fn strikes_come_from_the_allowed_ones() {
    for _ in 0..100 {
        for attack in generate(8, &[Strike::Short, Strike::Fehler, Strike::Flat], true) {
            assert_ne!(attack.strike, Strike::Long);
        }
    }
}

#[test]
fn every_allowed_strike_is_drawn() {
    let mut seen = [false; 4];
    for _ in 0..500 {
        for attack in generate(8, &ALL_STRIKES, true) {
            let at = ALL_STRIKES.iter().position(|strike| *strike == attack.strike);
            seen[at.unwrap()] = true;
        }
    }
    assert_eq!(seen, [true; 4]);
}

#[test]
fn last_attack_is_never_a_fehler() {
    for n in 2..=8 {
        for doubled in [false, true] {
            for _ in 0..100 {
                let sequence = generate(n, &[Strike::Fehler, Strike::Flat], doubled);
                assert_ne!(sequence[n - 1].strike, Strike::Fehler);
            }
        }
    }
}

#[test]
fn no_doubled_fehler_unless_enabled() {
    for n in 2..=8 {
        for _ in 0..200 {
            assert!(!has_doubled_fehler(&generate(n, &[Strike::Fehler, Strike::Short], false)));
        }
    }
}

#[test]
fn doubled_fehler_occur_when_enabled() {
    let mut with = 0;
    let mut without = 0;
    for _ in 0..1000 {
        if has_doubled_fehler(&generate(8, &[Strike::Fehler, Strike::Short], true)) {
            with += 1;
        } else {
            without += 1;
        }
    }
    assert!(with > 0);
    assert!(without > 0);
}

#[test]
fn two_attacks_never_hold_a_doubled_fehler() {
    for _ in 0..200 {
        assert!(!has_doubled_fehler(&generate(2, &[Strike::Fehler, Strike::Short], true)));
    }
}

#[test]
fn long_and_fehler_without_doubling() {
    for _ in 0..200 {
        let sequence = generate(4, &[Strike::Long, Strike::Fehler], false);
        assert_eq!(sequence.len(), 4);
        assert_eq!(sequence[3].strike, Strike::Long);
        assert!(!(sequence[2].strike == Strike::Fehler && sequence[3].strike == Strike::Fehler));
        assert!(!has_doubled_fehler(&sequence));
    }
}

#[test]
fn flat_only_gives_two_flat_attacks() {
    for doubled in [false, true] {
        for _ in 0..50 {
            let sequence = generate(2, &[Strike::Flat], doubled);
            assert_eq!(sequence.len(), 2);
            assert_eq!(sequence[0].strike, Strike::Flat);
            assert_eq!(sequence[1].strike, Strike::Flat);
            assert!(BASE_SEQUENCES.iter().any(|pattern| {
                sequence[0].opening == pattern[0] && sequence[1].opening == pattern[1]
            }));
        }
    }
}

#[test]
fn base_sequences_are_the_four_rotations() {
    let (tl, tr) = (Opening::TopLeft, Opening::TopRight);
    let (bl, br) = (Opening::BottomLeft, Opening::BottomRight);
    assert_eq!(
        BASE_SEQUENCES,
        [[tr, bl, br, tl], [br, tl, tr, bl], [tl, br, bl, tr], [bl, tr, tl, br]]
    );
}

#[test]
fn base_sequences_visit_each_opening_once() {
    for pattern in BASE_SEQUENCES.iter() {
        for opening in
            [Opening::TopLeft, Opening::TopRight, Opening::BottomLeft, Opening::BottomRight]
        {
            assert_eq!(pattern.iter().filter(|o| **o == opening).count(), 1);
        }
    }
}

#[test]
fn pattern_or_first_falls_back_to_the_first_rotation() {
    assert_eq!(AttackSequenceGenerator::pattern_or_first(None), BASE_SEQUENCES[0]);
    for pattern in BASE_SEQUENCES.iter() {
        assert_eq!(AttackSequenceGenerator::pattern_or_first(Some(pattern)), *pattern);
    }
}

#[test]
fn fehler_allowed_on_an_empty_sequence() {
    for doubled in [false, true] {
        assert!(AttackSequenceGenerator::fehler_allowed(&vec![], &length(2), doubled));
    }
}

#[test]
fn fehler_not_allowed_for_the_last_attack() {
    let long = Attack { opening: Opening::TopLeft, strike: Strike::Long };
    for doubled in [false, true] {
        assert!(!AttackSequenceGenerator::fehler_allowed(&vec![long], &length(2), doubled));
        assert!(AttackSequenceGenerator::fehler_allowed(&vec![long], &length(3), doubled));
        assert!(!AttackSequenceGenerator::fehler_allowed(&vec![long; 7], &length(8), doubled));
    }
}

#[test]
fn fehler_after_fehler_only_when_doubling_is_enabled() {
    let long = Attack { opening: Opening::TopLeft, strike: Strike::Long };
    let fehler = Attack { opening: Opening::TopRight, strike: Strike::Fehler };
    assert!(!AttackSequenceGenerator::fehler_allowed(&vec![long, fehler], &length(4), false));
    assert!(AttackSequenceGenerator::fehler_allowed(&vec![long, fehler], &length(4), true));
    assert!(AttackSequenceGenerator::fehler_allowed(&vec![fehler, long], &length(4), false));
    let ends_next = vec![fehler, fehler, long];
    assert!(!AttackSequenceGenerator::fehler_allowed(&ends_next, &length(4), true));
}

#[test]
fn pool_holds_every_strike_only_where_a_fehler_may_be_drawn() {
    let allowed = strikes(&[Strike::Fehler, Strike::Short, Strike::Flat]);
    let committed = allowed.without(Strike::Fehler);
    assert_eq!(
        AttackSequenceGenerator::pool(&allowed, &committed, true),
        &[Strike::Fehler, Strike::Short, Strike::Flat]
    );
    assert_eq!(
        AttackSequenceGenerator::pool(&allowed, &committed, false),
        &[Strike::Short, Strike::Flat]
    );
}

#[test]
fn length_converts_into_its_number() {
    for n in 2..=8 {
        assert_eq!(usize::from(length(n)), n);
        let number: usize = length(n).into();
        assert_eq!(number, n);
    }
}

#[test]
fn attack_at_takes_the_opening_from_the_pattern() {
    let pattern = BASE_SEQUENCES[1];
    for step in 0..8 {
        assert_eq!(
            AttackSequenceGenerator::attack_at(&pattern, step, Strike::Short),
            Attack { opening: pattern[step % 4], strike: Strike::Short }
        );
    }
    assert_eq!(
        AttackSequenceGenerator::attack_at(&pattern, 6, Strike::Fehler),
        Attack { opening: Opening::TopRight, strike: Strike::Fehler }
    );
}
